//! Which turns a rolled-back thread no longer has.
//!
//! A rollout marks a rollback by a count of user turns. The turns of the store
//! that are meant are found by position: the user turns of the rollout since
//! its last boundary are laid against the last user turns of the store, and
//! their texts must agree. Where they do not, nothing is excluded.

use vstd::prelude::*;
use vstd::string::*;

use crate::json::{get_text_member, text_member};
use crate::ordering::{positions, sorted_positions, stable_order};
use crate::protocol::{ContentItem, ContentItemView, ResponseItem, ResponseItemView};
use crate::records::{
    BlockView, MessageKind, MessageRecord, MessageRecordView, TurnRecord, TurnRecordView,
};
use crate::rollout::{EventMsg, EventMsgView, RolloutItem, RolloutItemView};
use crate::text::{decimal, decimal_text, join, joined, text, text_eq};

verus! {

// ---------------------------------------------------------------------------
// Stored messages and turns
// ---------------------------------------------------------------------------

/// The texts of the blocks that have one.
pub open spec fn block_texts(blocks: Seq<BlockView>) -> Seq<Seq<char>>
    decreases blocks.len(),
{
    if blocks.len() == 0 {
        Seq::empty()
    } else {
        match text_member(blocks.last().content, "text"@) {
            Some(s) => block_texts(blocks.drop_last()).push(s),
            None => block_texts(blocks.drop_last()),
        }
    }
}

/// The text of a stored message.
pub open spec fn text_of_message(m: MessageRecordView) -> Seq<char> {
    joined(block_texts(m.blocks), "\n"@)
}

/// The text of a stored message.
pub fn stored_text(m: &MessageRecord) -> (r: String)
    ensures
        r@ == text_of_message(m@),
{
    let ghost blocks = m.blocks.deep_view();
    let mut parts: Vec<String> = Vec::new();
    assert(parts.deep_view() =~= Seq::<Seq<char>>::empty());
    let mut i: usize = 0;
    while i < m.blocks.len()
        invariant
            i <= m.blocks.len(),
            blocks == m.blocks.deep_view(),
            parts.deep_view() == block_texts(blocks.take(i as int)),
        decreases m.blocks.len() - i,
    {
        let ghost before = parts.deep_view();
        assert(blocks[i as int] == m.blocks@[i as int]@);
        assert(blocks.take(i + 1).drop_last() =~= blocks.take(i as int));
        if let Some(s) = get_text_member(&m.blocks[i].content, "text") {
            parts.push(s.clone());
            assert(parts.deep_view() =~= before.push(s@));
        }
        i = i + 1;
    }
    assert(blocks.take(i as int) =~= blocks);
    join(&parts, "\n")
}

/// The message with identity `id`; of several, the last.
pub open spec fn message_of(messages: Seq<MessageRecordView>, id: Seq<char>) -> Option<
    MessageRecordView,
>
    decreases messages.len(),
{
    if messages.len() == 0 {
        None
    } else if messages.last().message_id == id {
        Some(messages.last())
    } else {
        message_of(messages.drop_last(), id)
    }
}

/// The message with identity `id`; of several, the last.
pub fn find_message<'a>(messages: &'a Vec<MessageRecord>, id: &str) -> (r: Option<
    &'a MessageRecord,
>)
    ensures
        r.deep_view() == message_of(messages.deep_view(), id@),
{
    let ghost view = messages.deep_view();
    let mut n: usize = messages.len();
    assert(view.take(n as int) =~= view);
    while n > 0
        invariant
            n <= messages.len(),
            view == messages.deep_view(),
            message_of(view, id@) == message_of(view.take(n as int), id@),
        decreases n,
    {
        assert(view.take(n as int).drop_last() =~= view.take(n - 1));
        assert(view.take(n as int).last() == messages@[n - 1]@);
        if text_eq(messages[n - 1].message_id.as_str(), id) {
            return Some(&messages[n - 1]);
        }
        n = n - 1;
    }
    None
}

/// The turn with identity `id`; of several, the last.
pub open spec fn turn_of(turns: Seq<TurnRecordView>, id: Seq<char>) -> Option<TurnRecordView>
    decreases turns.len(),
{
    if turns.len() == 0 {
        None
    } else if turns.last().turn_id == id {
        Some(turns.last())
    } else {
        turn_of(turns.drop_last(), id)
    }
}

/// The turn with identity `id`; of several, the last.
pub fn find_turn<'a>(turns: &'a Vec<TurnRecord>, id: &str) -> (r: Option<&'a TurnRecord>)
    ensures
        r.deep_view() == turn_of(turns.deep_view(), id@),
{
    let ghost view = turns.deep_view();
    let mut n: usize = turns.len();
    assert(view.take(n as int) =~= view);
    while n > 0
        invariant
            n <= turns.len(),
            view == turns.deep_view(),
            turn_of(view, id@) == turn_of(view.take(n as int), id@),
        decreases n,
    {
        assert(view.take(n as int).drop_last() =~= view.take(n - 1));
        assert(view.take(n as int).last() == turns@[n - 1]@);
        if text_eq(turns[n - 1].turn_id.as_str(), id) {
            return Some(&turns[n - 1]);
        }
        n = n - 1;
    }
    None
}

/// The turn that `turn_of` finds has the identity asked for.
pub proof fn lemma_turn_of(turns: Seq<TurnRecordView>, id: Seq<char>)
    ensures
        turn_of(turns, id) matches Some(t) ==> t.turn_id == id && turns.contains(t),
    decreases turns.len(),
{
    if turns.len() > 0 {
        if turns.last().turn_id == id {
            assert(turns[turns.len() - 1] == turns.last());
        } else {
            lemma_turn_of(turns.drop_last(), id);
            if let Some(t) = turn_of(turns.drop_last(), id) {
                let k = choose|k: int|
                    0 <= k < turns.drop_last().len() && turns.drop_last()[k] == t;
                assert(turns[k] == t);
            }
        }
    }
}

// ---------------------------------------------------------------------------
// User turns of a rollout
// ---------------------------------------------------------------------------

/// The text of a message part, or where its image or audio is.
pub open spec fn part_text(c: ContentItemView) -> Seq<char> {
    match c {
        ContentItemView::InputText { text } => text,
        ContentItemView::OutputText { text } => text,
        ContentItemView::InputImage { image_url, .. } => image_url,
        ContentItemView::InputAudio { audio_url } => audio_url,
    }
}

/// The text of a message, part by part.
pub open spec fn content_text_of(content: Seq<ContentItemView>) -> Seq<char> {
    joined(content.map_values(|c: ContentItemView| part_text(c)), "\n"@)
}

/// The text of a message, part by part.
pub fn content_text(content: &Vec<ContentItem>) -> (r: String)
    ensures
        r@ == content_text_of(content.deep_view()),
{
    let mut parts: Vec<String> = Vec::new();
    let mut i: usize = 0;
    while i < content.len()
        invariant
            i <= content.len(),
            parts.len() == i,
            forall|k: int| 0 <= k < i ==> (#[trigger] parts@[k])@ == part_text(content@[k]@),
        decreases content.len() - i,
    {
        parts.push(
            match &content[i] {
                ContentItem::InputText { text } => text.clone(),
                ContentItem::OutputText { text } => text.clone(),
                ContentItem::InputImage { image_url, .. } => image_url.clone(),
                ContentItem::InputAudio { audio_url } => audio_url.clone(),
            },
        );
        i = i + 1;
    }
    assert(parts.deep_view() =~= content.deep_view().map_values(|c: ContentItemView| part_text(c)));
    join(&parts, "\n")
}

/// One user turn of a rollout.
#[derive(Debug)]
pub struct PriorUserSegment {
    /// The first text of the user in it.
    pub text: String,
    /// Whether the turn was rolled back.
    pub dropped: bool,
}

/// What a [`PriorUserSegment`] stands for.
#[verifier::ext_equal]
pub struct PriorUserSegmentView {
    pub text: Seq<char>,
    pub dropped: bool,
}

impl View for PriorUserSegment {
    type V = PriorUserSegmentView;

    open spec fn view(&self) -> PriorUserSegmentView {
        PriorUserSegmentView { text: self.text@, dropped: self.dropped }
    }
}

impl DeepView for PriorUserSegment {
    type V = PriorUserSegmentView;

    open spec fn deep_view(&self) -> PriorUserSegmentView {
        self@
    }
}

/// The line is a compact boundary from which a session can be resumed.
pub open spec fn is_boundary(item: RolloutItemView) -> bool {
    item matches RolloutItemView::Compacted(c) && c.replacement_history is Some
}

/// Where the lines behind the last boundary among the first `n` begin.
pub open spec fn after_boundary(prior: Seq<RolloutItemView>, n: int) -> int
    decreases n,
{
    if n <= 0 {
        0
    } else if is_boundary(prior[n - 1]) {
        n
    } else {
        after_boundary(prior, n - 1)
    }
}

fn find_after_boundary(prior: &Vec<RolloutItem>) -> (r: usize)
    ensures
        r == after_boundary(prior.deep_view(), prior.len() as int),
        r <= prior.len(),
{
    let ghost view = prior.deep_view();
    let mut n: usize = prior.len();
    while n > 0
        invariant
            n <= prior.len(),
            view == prior.deep_view(),
            after_boundary(view, prior.len() as int) == after_boundary(view, n as int),
        decreases n,
    {
        assert(view[n - 1] == prior@[n - 1]@);
        if let RolloutItem::Compacted(c) = &prior[n - 1] {
            if c.replacement_history.is_some() {
                return n;
            }
        }
        n = n - 1;
    }
    0
}

/// Where a walk through the lines, the newest first, stands.
#[verifier::ext_equal]
pub struct SegmentScan {
    /// How many user turns are still to be dropped.
    pub pending: nat,
    /// The earliest text of the user in the turn under way.
    pub text: Option<Seq<char>>,
    /// Whether the user spoke in the turn under way.
    pub is_user: bool,
    /// The user turns found, the newest first.
    pub found: Seq<PriorUserSegmentView>,
}

/// The walk at the start of a turn.
pub open spec fn segment_closed(s: SegmentScan) -> SegmentScan {
    if s.is_user {
        SegmentScan {
            pending: if s.pending > 0 {
                (s.pending - 1) as nat
            } else {
                0
            },
            text: None,
            is_user: false,
            found: s.found.push(
                PriorUserSegmentView {
                    text: match s.text {
                        Some(t) => t,
                        None => Seq::empty(),
                    },
                    dropped: s.pending > 0,
                },
            ),
        }
    } else {
        SegmentScan { text: None, is_user: false, ..s }
    }
}

/// The walk behind one more line.
pub open spec fn scan_step(s: SegmentScan, item: RolloutItemView) -> SegmentScan {
    match item {
        RolloutItemView::EventMsg(EventMsgView::ThreadRolledBack { num_turns }) => SegmentScan {
            pending: if s.pending + num_turns <= usize::MAX {
                s.pending + num_turns as nat
            } else {
                usize::MAX as nat
            },
            ..s
        },
        RolloutItemView::EventMsg(EventMsgView::UserMessage { message }) => SegmentScan {
            is_user: true,
            text: Some(message),
            ..s
        },
        RolloutItemView::EventMsg(EventMsgView::TurnStarted { .. }) => segment_closed(s),
        RolloutItemView::ResponseItem(ResponseItemView::Message { role, content, .. }) => if role
            == "user"@ {
            SegmentScan {
                is_user: true,
                text: if content_text_of(content).len() > 0 {
                    Some(content_text_of(content))
                } else {
                    s.text
                },
                ..s
            }
        } else {
            s
        },
        _ => s,
    }
}

/// The walk through the lines from the last back to line `i`.
pub open spec fn scan_back(prior: Seq<RolloutItemView>, i: int) -> SegmentScan
    decreases prior.len() - i,
{
    if i >= prior.len() {
        SegmentScan { pending: 0, text: None, is_user: false, found: Seq::empty() }
    } else {
        scan_step(scan_back(prior, i + 1), prior[i])
    }
}

/// The user turns of a rollout since its last boundary, the oldest first.
pub open spec fn user_segments(prior: Seq<RolloutItemView>) -> Seq<PriorUserSegmentView> {
    segment_closed(scan_back(prior, after_boundary(prior, prior.len() as int))).found.reverse()
}

spec fn scan_at(
    pending: usize,
    text: Option<Seq<char>>,
    is_user: bool,
    found: Seq<PriorUserSegmentView>,
) -> SegmentScan {
    SegmentScan { pending: pending as nat, text, is_user, found }
}

fn close_segment(
    pending: &mut usize,
    text_so_far: &mut Option<String>,
    is_user: &mut bool,
    found: &mut Vec<PriorUserSegment>,
)
    ensures
        scan_at(
            *final(pending),
            final(text_so_far).deep_view(),
            *final(is_user),
            final(found).deep_view(),
        ) == segment_closed(
            scan_at(
                *old(pending),
                old(text_so_far).deep_view(),
                *old(is_user),
                old(found).deep_view(),
            ),
        ),
{
    let ghost before = found.deep_view();
    if *is_user {
        let dropped = *pending > 0;
        if dropped {
            *pending = *pending - 1;
        }
        let first = match text_so_far {
            Some(t) => t.clone(),
            None => String::new(),
        };
        let segment = PriorUserSegment { text: first, dropped };
        let ghost view = segment@;
        found.push(segment);
        assert(found.deep_view() =~= before.push(view));
    }
    *text_so_far = None;
    *is_user = false;
}

/// The user turns of a rollout since its last boundary, the oldest first, each
/// with whether it was rolled back.
pub fn prior_user_segments_with_drop(prior: &Vec<RolloutItem>) -> (r: Vec<PriorUserSegment>)
    ensures
        r.deep_view() == user_segments(prior.deep_view()),
{
    let ghost view = prior.deep_view();
    let start: usize = find_after_boundary(prior);
    let mut pending: usize = 0;
    let mut text_so_far: Option<String> = None;
    let mut is_user = false;
    let mut found: Vec<PriorUserSegment> = Vec::new();
    assert(found.deep_view() =~= Seq::<PriorUserSegmentView>::empty());
    let mut i: usize = prior.len();
    while i > start
        invariant
            start <= i <= prior.len(),
            view == prior.deep_view(),
            scan_back(view, i as int) == scan_at(
                pending,
                text_so_far.deep_view(),
                is_user,
                found.deep_view(),
            ),
        decreases i,
    {
        i = i - 1;
        assert(view[i as int] == prior@[i as int]@);
        match &prior[i] {
            RolloutItem::EventMsg(EventMsg::ThreadRolledBack { num_turns }) => {
                let n: usize = *num_turns as usize;
                pending =
                if pending <= usize::MAX - n {
                    pending + n
                } else {
                    usize::MAX
                };
            },
            RolloutItem::EventMsg(EventMsg::UserMessage { message }) => {
                is_user = true;
                text_so_far = Some(message.clone());
            },
            RolloutItem::EventMsg(EventMsg::TurnStarted { .. }) => {
                close_segment(&mut pending, &mut text_so_far, &mut is_user, &mut found);
            },
            RolloutItem::ResponseItem(ResponseItem::Message { role, content, .. }) => {
                if text_eq(role.as_str(), "user") {
                    is_user = true;
                    let t = content_text(content);
                    if t.as_str().unicode_len() > 0 {
                        text_so_far = Some(t);
                    }
                }
            },
            _ => {},
        }
    }
    close_segment(&mut pending, &mut text_so_far, &mut is_user, &mut found);
    reversed(found)
}

fn reversed(v: Vec<PriorUserSegment>) -> (r: Vec<PriorUserSegment>)
    ensures
        r.deep_view() == v.deep_view().reverse(),
{
    let ghost view = v.deep_view();
    let mut rest = v;
    let mut out: Vec<PriorUserSegment> = Vec::new();
    assert(view.take(view.len() as int) =~= view);
    while rest.len() > 0
        invariant
            rest.len() <= view.len(),
            rest.deep_view() == view.take(rest.len() as int),
            out.len() == view.len() - rest.len(),
            forall|k: int| 0 <= k < out.len() ==> (#[trigger] out@[k])@ == view[view.len() - 1 - k],
        decreases rest.len(),
    {
        let ghost before = rest.deep_view();
        match rest.pop() {
            Some(x) => {
                assert(before.last() == x@);
                out.push(x);
                assert(rest.deep_view() =~= view.take(rest.len() as int));
            },
            None => {},
        }
    }
    assert(out.deep_view() =~= view.reverse());
    out
}

// ---------------------------------------------------------------------------
// User turns of the store
// ---------------------------------------------------------------------------

/// A prompt of the user in the store, and where its turn stands.
#[derive(Debug)]
pub struct PromptRow {
    pub turn_order: i64,
    pub event_order: i64,
    pub turn_id: String,
    pub text: String,
}

/// What a [`PromptRow`] stands for.
#[verifier::ext_equal]
pub struct PromptRowView {
    pub turn_order: i64,
    pub event_order: i64,
    pub turn_id: Seq<char>,
    pub text: Seq<char>,
}

impl View for PromptRow {
    type V = PromptRowView;

    open spec fn view(&self) -> PromptRowView {
        PromptRowView {
            turn_order: self.turn_order,
            event_order: self.event_order,
            turn_id: self.turn_id@,
            text: self.text@,
        }
    }
}

impl DeepView for PromptRow {
    type V = PromptRowView;

    open spec fn deep_view(&self) -> PromptRowView {
        self@
    }
}

impl Clone for PromptRow {
    fn clone(&self) -> (r: Self)
        ensures
            r@ == self@,
    {
        PromptRow {
            turn_order: self.turn_order,
            event_order: self.event_order,
            turn_id: self.turn_id.clone(),
            text: self.text.clone(),
        }
    }
}

/// The prompt that a message is. A message of an unknown turn comes last.
pub open spec fn prompt_row(m: MessageRecordView, turns: Seq<TurnRecordView>) -> PromptRowView {
    PromptRowView {
        turn_order: match turn_of(turns, m.turn_id) {
            Some(t) => t.turn_order,
            None => i64::MAX,
        },
        event_order: m.source_event_order,
        turn_id: m.turn_id,
        text: text_of_message(m),
    }
}

/// The prompts of the user, as they are stored.
pub open spec fn prompt_rows(
    messages: Seq<MessageRecordView>,
    turns: Seq<TurnRecordView>,
) -> Seq<PromptRowView>
    decreases messages.len(),
{
    if messages.len() == 0 {
        Seq::empty()
    } else if messages.last().kind == MessageKind::UserPrompt {
        prompt_rows(messages.drop_last(), turns).push(prompt_row(messages.last(), turns))
    } else {
        prompt_rows(messages.drop_last(), turns)
    }
}

/// What prompts are ordered by.
pub open spec fn prompt_keys(rows: Seq<PromptRowView>) -> Seq<(i64, i64)> {
    rows.map_values(|r: PromptRowView| (r.turn_order, r.event_order))
}

/// One of the rows belongs to turn `id`.
pub open spec fn has_turn(rows: Seq<PromptRowView>, id: Seq<char>) -> bool {
    exists|k: int| 0 <= k < rows.len() && (#[trigger] rows[k]).turn_id == id
}

/// The first prompt of each turn, among the first `n` of an order.
pub open spec fn first_prompts(rows: Seq<PromptRowView>, order: Seq<int>, n: int) -> Seq<
    PromptRowView,
>
    decreases n,
{
    if n <= 0 {
        Seq::empty()
    } else {
        let before = first_prompts(rows, order, n - 1);
        let row = rows[order[n - 1]];
        if has_turn(before, row.turn_id) {
            before
        } else {
            before.push(row)
        }
    }
}

/// The user turns of the store in their order, each with its first prompt.
pub open spec fn prompt_turns(
    messages: Seq<MessageRecordView>,
    turns: Seq<TurnRecordView>,
) -> Seq<PromptRowView> {
    let rows = prompt_rows(messages, turns);
    let order = stable_order(prompt_keys(rows));
    first_prompts(rows, order, order.len() as int)
}

fn holds_turn(rows: &Vec<PromptRow>, id: &str) -> (r: bool)
    ensures
        r == has_turn(rows.deep_view(), id@),
{
    let ghost view = rows.deep_view();
    let mut k: usize = 0;
    while k < rows.len()
        invariant
            k <= rows.len(),
            view == rows.deep_view(),
            forall|j: int| 0 <= j < k ==> (#[trigger] view[j]).turn_id != id@,
        decreases rows.len() - k,
    {
        assert(view[k as int] == rows@[k as int]@);
        if text_eq(rows[k].turn_id.as_str(), id) {
            return true;
        }
        k = k + 1;
    }
    false
}

/// The user turns of the store in their order, each with its first prompt.
pub fn lhc_user_prompt_turns_ordered(
    messages: &Vec<MessageRecord>,
    turns: &Vec<TurnRecord>,
) -> (r: Vec<PromptRow>)
    ensures
        r.deep_view() == prompt_turns(messages.deep_view(), turns.deep_view()),
{
    let ghost view = messages.deep_view();
    let ghost turn_view = turns.deep_view();
    let mut rows: Vec<PromptRow> = Vec::new();
    let mut keys: Vec<(i64, i64)> = Vec::new();
    assert(rows.deep_view() =~= Seq::<PromptRowView>::empty());
    let mut i: usize = 0;
    while i < messages.len()
        invariant
            i <= messages.len(),
            view == messages.deep_view(),
            turn_view == turns.deep_view(),
            rows.deep_view() == prompt_rows(view.take(i as int), turn_view),
            keys@ == prompt_keys(rows.deep_view()),
        decreases messages.len() - i,
    {
        let ghost before = rows.deep_view();
        let m = &messages[i];
        assert(view[i as int] == m@);
        assert(view.take(i + 1).drop_last() =~= view.take(i as int));
        if m.kind == MessageKind::UserPrompt {
            let turn_order: i64 = match find_turn(turns, m.turn_id.as_str()) {
                Some(t) => t.turn_order,
                None => i64::MAX,
            };
            let row = PromptRow {
                turn_order,
                event_order: m.source_event_order,
                turn_id: m.turn_id.clone(),
                text: stored_text(m),
            };
            let ghost row_view = row@;
            rows.push(row);
            keys.push((turn_order, m.source_event_order));
            assert(rows.deep_view() =~= before.push(row_view));
            assert(keys@ =~= prompt_keys(rows.deep_view()));
        }
        i = i + 1;
    }
    assert(view.take(i as int) =~= view);
    let order = sorted_positions(&keys);
    let ghost row_view = rows.deep_view();
    let ghost places = positions(order@);
    let mut out: Vec<PromptRow> = Vec::new();
    assert(out.deep_view() =~= Seq::<PromptRowView>::empty());
    let mut k: usize = 0;
    while k < order.len()
        invariant
            k <= order.len(),
            row_view == rows.deep_view(),
            places == positions(order@),
            keys.len() == rows.len(),
            forall|p: int| 0 <= p < order.len() ==> #[trigger] order@[p] < keys.len(),
            out.deep_view() == first_prompts(row_view, places, k as int),
        decreases order.len() - k,
    {
        let ghost before = out.deep_view();
        let row = &rows[order[k]];
        assert(places[k as int] == order@[k as int]);
        assert(row_view[places[k as int]] == row@);
        if !holds_turn(&out, row.turn_id.as_str()) {
            let copy = row.clone();
            out.push(copy);
            assert(out.deep_view() =~= before.push(row_view[places[k as int]]));
        }
        k = k + 1;
    }
    out
}

// ---------------------------------------------------------------------------
// Alignment
// ---------------------------------------------------------------------------

/// A text as Rust's `Debug` writes a string: quoted and escaped.
pub uninterp spec fn debug_quoted(s: Seq<char>) -> Seq<char>;

/// `<str as std::fmt::Debug>::fmt`, through `format!`: a function of the text.
/// How it escapes is left unsaid.
#[verifier::external_body]
fn quote_debug(s: &str) -> (r: String)
    ensures
        r@ == debug_quoted(s@),
{
    format!("{:?}", s)
}

/// Which turns are excluded, and what is to be said of it.
#[verifier::ext_equal]
pub struct Exclusion {
    pub turns: Seq<Seq<char>>,
    pub notes: Seq<Seq<char>>,
}

/// Some segment was dropped.
pub open spec fn any_dropped(segments: Seq<PriorUserSegmentView>) -> bool {
    exists|k: int| 0 <= k < segments.len() && (#[trigger] segments[k]).dropped
}

/// The first segment from the `i`-th on whose text is not that of the row laid
/// against it; their number when all agree.
pub open spec fn first_mismatch(
    segments: Seq<PriorUserSegmentView>,
    rows: Seq<PromptRowView>,
    i: int,
) -> int
    decreases segments.len() - i,
{
    if i < 0 || i >= segments.len() {
        segments.len() as int
    } else if segments[i].text != rows[rows.len() - segments.len() + i].text {
        i
    } else {
        first_mismatch(segments, rows, i + 1)
    }
}

/// The turns laid against the dropped segments, among the first `n`.
pub open spec fn dropped_turns(
    segments: Seq<PriorUserSegmentView>,
    rows: Seq<PromptRowView>,
    n: int,
) -> Seq<Seq<char>>
    decreases n,
{
    if n <= 0 {
        Seq::empty()
    } else if segments[n - 1].dropped {
        dropped_turns(segments, rows, n - 1).push(
            rows[rows.len() - segments.len() + n - 1].turn_id,
        )
    } else {
        dropped_turns(segments, rows, n - 1)
    }
}

/// The turns that the segments exclude from the rows.
pub open spec fn exclusion_of(
    segments: Seq<PriorUserSegmentView>,
    rows: Seq<PromptRowView>,
) -> Exclusion {
    if !any_dropped(segments) {
        Exclusion { turns: Seq::empty(), notes: Seq::empty() }
    } else if rows.len() < segments.len() {
        Exclusion {
            turns: Seq::empty(),
            notes: seq![
                "rollback alignment: fewer LHC user-prompt turns ("@ + decimal(rows.len())
                    + ") than prior post-boundary segments ("@ + decimal(segments.len())
                    + "); excluding nothing (under-exclusion)"@,
            ],
        }
    } else {
        let at = first_mismatch(segments, rows, 0);
        if at < segments.len() {
            Exclusion {
                turns: Seq::empty(),
                notes: seq![
                    "rollback alignment mismatch at position "@ + decimal(at as nat)
                        + ": prior_segment="@ + debug_quoted(segments[at].text) + " lhc_turn="@
                        + debug_quoted(rows[rows.len() - segments.len() + at].text)
                        + "; excluding nothing (under-exclusion)"@,
                ],
            }
        } else {
            Exclusion {
                turns: dropped_turns(segments, rows, segments.len() as int),
                notes: Seq::empty(),
            }
        }
    }
}

/// The turns that the rollbacks of a rollout exclude.
pub open spec fn rolled_back(
    prior: Seq<RolloutItemView>,
    messages: Seq<MessageRecordView>,
    turns: Seq<TurnRecordView>,
) -> Exclusion {
    exclusion_of(user_segments(prior), prompt_turns(messages, turns))
}

/// The turns that some user turns of a rollout exclude from those of the store.
pub fn excluded_turns(segments: &Vec<PriorUserSegment>, rows: &Vec<PromptRow>) -> (r: (
    Vec<String>,
    Vec<String>,
))
    ensures
        r.0.deep_view() == exclusion_of(segments.deep_view(), rows.deep_view()).turns,
        r.1.deep_view() == exclusion_of(segments.deep_view(), rows.deep_view()).notes,
{
    let ghost segs = segments.deep_view();
    let ghost lhc = rows.deep_view();
    let mut turns: Vec<String> = Vec::new();
    let mut notes: Vec<String> = Vec::new();
    assert(turns.deep_view() =~= Seq::<Seq<char>>::empty());
    assert(notes.deep_view() =~= Seq::<Seq<char>>::empty());
    let mut any = false;
    let mut k: usize = 0;
    while k < segments.len()
        invariant
            k <= segments.len(),
            segs == segments.deep_view(),
            any <==> exists|j: int| 0 <= j < k && (#[trigger] segs[j]).dropped,
        decreases segments.len() - k,
    {
        assert(segs[k as int] == segments@[k as int]@);
        if segments[k].dropped {
            any = true;
        }
        k = k + 1;
    }
    if !any {
        return (turns, notes);
    }
    if rows.len() < segments.len() {
        let mut note = text("rollback alignment: fewer LHC user-prompt turns (");
        note.append(decimal_text(rows.len() as u128).as_str());
        note.append(") than prior post-boundary segments (");
        note.append(decimal_text(segments.len() as u128).as_str());
        note.append("); excluding nothing (under-exclusion)");
        let ghost said = note@;
        notes.push(note);
        assert(notes.deep_view() =~= seq![said]);
        return (turns, notes);
    }
    let offset: usize = rows.len() - segments.len();
    let mut i: usize = 0;
    while i < segments.len()
        invariant
            i <= segments.len(),
            offset == rows.len() - segments.len(),
            segs == segments.deep_view(),
            lhc == rows.deep_view(),
            notes.deep_view() == Seq::<Seq<char>>::empty(),
            turns.deep_view() == Seq::<Seq<char>>::empty(),
            any_dropped(segs),
            first_mismatch(segs, lhc, 0) == first_mismatch(segs, lhc, i as int),
        decreases segments.len() - i,
    {
        assert(segs[i as int] == segments@[i as int]@);
        assert(lhc[offset + i] == rows@[offset + i]@);
        if !text_eq(segments[i].text.as_str(), rows[offset + i].text.as_str()) {
            let mut note = text("rollback alignment mismatch at position ");
            note.append(decimal_text(i as u128).as_str());
            note.append(": prior_segment=");
            note.append(quote_debug(segments[i].text.as_str()).as_str());
            note.append(" lhc_turn=");
            note.append(quote_debug(rows[offset + i].text.as_str()).as_str());
            note.append("; excluding nothing (under-exclusion)");
            let ghost said = note@;
            notes.push(note);
            assert(notes.deep_view() =~= seq![said]);
            return (turns, notes);
        }
        i = i + 1;
    }
    let mut n: usize = 0;
    while n < segments.len()
        invariant
            n <= segments.len(),
            offset == rows.len() - segments.len(),
            segs == segments.deep_view(),
            lhc == rows.deep_view(),
            turns.deep_view() == dropped_turns(segs, lhc, n as int),
        decreases segments.len() - n,
    {
        let ghost before = turns.deep_view();
        assert(segs[n as int] == segments@[n as int]@);
        assert(lhc[offset + n] == rows@[offset + n]@);
        if segments[n].dropped {
            turns.push(rows[offset + n].turn_id.clone());
            assert(turns.deep_view() =~= before.push(lhc[offset + n].turn_id));
        }
        n = n + 1;
    }
    (turns, notes)
}

/// The turns of the store that the rollbacks of a rollout exclude, and what is
/// to be said where they could not be found.
pub fn rolled_back_turn_ids(
    prior: &Vec<RolloutItem>,
    messages: &Vec<MessageRecord>,
    turns: &Vec<TurnRecord>,
) -> (r: (Vec<String>, Vec<String>))
    ensures
        ({
            let e = rolled_back(prior.deep_view(), messages.deep_view(), turns.deep_view());
            r.0.deep_view() == e.turns && r.1.deep_view() == e.notes
        }),
{
    let segments = prior_user_segments_with_drop(prior);
    let rows = lhc_user_prompt_turns_ordered(messages, turns);
    excluded_turns(&segments, &rows)
}

// ---------------------------------------------------------------------------
// Laws
// ---------------------------------------------------------------------------

/// Where anything is to be said, nothing is excluded.
pub proof fn doubt_excludes_nothing(
    segments: Seq<PriorUserSegmentView>,
    rows: Seq<PromptRowView>,
)
    ensures
        exclusion_of(segments, rows).notes.len() > 0 ==> exclusion_of(segments, rows).turns
            == Seq::<Seq<char>>::empty(),
        exclusion_of(segments, rows).turns.len() <= segments.len(),
{
    lemma_dropped_count(segments, rows, segments.len() as int);
}

proof fn lemma_dropped_count(
    segments: Seq<PriorUserSegmentView>,
    rows: Seq<PromptRowView>,
    n: int,
)
    requires
        n >= 0,
    ensures
        dropped_turns(segments, rows, n).len() <= n,
    decreases n,
{
    if n > 0 {
        lemma_dropped_count(segments, rows, n - 1);
    }
}

/// Every excluded turn is laid against a dropped segment with its text.
pub proof fn excluded_turns_were_dropped(
    segments: Seq<PriorUserSegmentView>,
    rows: Seq<PromptRowView>,
    k: int,
)
    requires
        0 <= k < exclusion_of(segments, rows).turns.len(),
    ensures
        exists|i: int|
            #![trigger segments[i]]
            0 <= i < segments.len() && rows.len() >= segments.len() && segments[i].dropped
                && rows[rows.len() - segments.len() + i].turn_id == exclusion_of(
                segments,
                rows,
            ).turns[k] && rows[rows.len() - segments.len() + i].text == segments[i].text,
{
    let n = segments.len() as int;
    let i = lemma_dropped_source(segments, rows, n, k);
    lemma_no_mismatch(segments, rows, 0, i);
    assert(segments[i].dropped);
}

proof fn lemma_dropped_source(
    segments: Seq<PriorUserSegmentView>,
    rows: Seq<PromptRowView>,
    n: int,
    k: int,
) -> (i: int)
    requires
        0 <= n <= segments.len(),
        0 <= k < dropped_turns(segments, rows, n).len(),
    ensures
        0 <= i < n,
        segments[i].dropped,
        dropped_turns(segments, rows, n)[k] == rows[rows.len() - segments.len() + i].turn_id,
    decreases n,
{
    if segments[n - 1].dropped && k == dropped_turns(segments, rows, n).len() - 1 {
        n - 1
    } else {
        lemma_dropped_source(segments, rows, n - 1, k)
    }
}

proof fn lemma_no_mismatch(
    segments: Seq<PriorUserSegmentView>,
    rows: Seq<PromptRowView>,
    from: int,
    i: int,
)
    requires
        0 <= from <= i < segments.len(),
        first_mismatch(segments, rows, from) >= segments.len(),
    ensures
        segments[i].text == rows[rows.len() - segments.len() + i].text,
    decreases i - from,
{
    if from < i {
        lemma_no_mismatch(segments, rows, from + 1, i);
    }
}

/// Each user turn of the store is listed once.
pub proof fn prompt_turns_are_distinct(
    messages: Seq<MessageRecordView>,
    turns: Seq<TurnRecordView>,
)
    ensures
        forall|i: int, j: int|
            0 <= i < j < prompt_turns(messages, turns).len() ==> (#[trigger] prompt_turns(
                messages,
                turns,
            )[i]).turn_id != (#[trigger] prompt_turns(messages, turns)[j]).turn_id,
{
    let rows = prompt_rows(messages, turns);
    let order = stable_order(prompt_keys(rows));
    lemma_first_prompts_distinct(rows, order, order.len() as int);
}

proof fn lemma_first_prompts_distinct(rows: Seq<PromptRowView>, order: Seq<int>, n: int)
    ensures
        forall|i: int, j: int|
            0 <= i < j < first_prompts(rows, order, n).len() ==> (#[trigger] first_prompts(
                rows,
                order,
                n,
            )[i]).turn_id != (#[trigger] first_prompts(rows, order, n)[j]).turn_id,
    decreases n,
{
    if n > 0 {
        lemma_first_prompts_distinct(rows, order, n - 1);
        let before = first_prompts(rows, order, n - 1);
        let after = first_prompts(rows, order, n);
        assert forall|i: int, j: int| 0 <= i < j < after.len() implies (#[trigger] after[i]).turn_id
            != (#[trigger] after[j]).turn_id by {
            assert(after[i] == before[i]);
            if j < before.len() {
                assert(after[j] == before[j]);
            }
        }
    }
}

} // verus!
