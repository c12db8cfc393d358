//! The part of a rollout behind the compact boundary, rebuilt line by line.
//!
//! Every entry of the tail becomes the native items that it was made of, each
//! followed by the event that shows it. Turns that are over are shown to start
//! where their first message stands and to end where their last one does, under
//! the host's names where these are known, images wait for their result, and what was rolled back or is bookkeeping is left out.

use vstd::prelude::*;
use vstd::string::*;

use crate::compact_marker::{is_compact_marker_idempotency_key, is_marker_key};
use crate::host_ids::{host_id_of_key, is_blank, parse_host_id_from_key};
use crate::host_turn_ids::{display_turn_id, shown_name, HostTurnIds, TurnIdPairView};
use crate::json::{
    json_read,
    lemma_object_view,
    member,
    text_entry,
    get_text,
    Entries,
    Json,
    JsonView,
};
use crate::mapping::{identity_complete, ModelIdentity, ModelIdentityView};
use crate::ordering::{positions, sorted_positions, stable_order};
use crate::protocol::{
    ReasoningItemReasoningSummary, ReasoningItemReasoningSummaryView, ResponseItem,
    ResponseItemView,
};
use crate::records::{
    BlockType, BlockView, MessageKind, MessageRecord, MessageRecordView, TurnOutcome, TurnRecord,
    TurnRecordView, TurnStatus,
};
use crate::reverse::{
    assistant_message, assistant_text_message, complete_image_generation, completed_image,
    item_lines, kept_read, or_empty, push_line, push_response_with_twins, rebuilt_call,
    rebuilt_result, recovered_id, reverse_tool_call, reverse_tool_result, text_or_empty,
    unanswered_image, unanswered_image_item, user_message, user_text_message,
    RecoveredToolCallKind,
};
use crate::rollback::{find_message, find_turn, message_of, stored_text, text_of_message, turn_of};
use crate::rollout::{EventMsg, EventMsgView, RolloutItem, RolloutItemView, TurnAbortReason};
use crate::text::{chars_of, has_occurrence, holds_text, occurs_in, text, text_eq};
use crate::thread_view::{
    SessionAssistantMessage, SessionAssistantMessageView, SessionAssistantPart,
    SessionAssistantPartType, SessionAssistantPartView, SessionThreadViewEntry,
    SessionThreadViewEntrySource, SessionThreadViewEntrySourceView, SessionThreadViewEntryView,
    SessionThreadViewMessage, SessionThreadViewMessageView, SessionThreadViewRuntimeEntry,
    SessionThreadViewRuntimeEntryView, SessionToolResultMessage, SessionToolResultMessageView,
    SessionUserMessage, SessionUserMessageView,
};
use crate::timestamps::{iso_to_unix_secs, secs_of_iso};
use crate::unwire::entries_of;
use crate::usage::{cumulative_usage_at, usage_at, usage_fits};

verus! {

// ---------------------------------------------------------------------------
// What the tail is rebuilt from, and where the rebuilding stands
// ---------------------------------------------------------------------------

/// What the tail is rebuilt from.
pub struct TailContext<'a> {
    pub messages: &'a Vec<MessageRecord>,
    pub turns: &'a Vec<TurnRecord>,
    /// The turns that were rolled back.
    pub rolled_back: &'a Vec<String>,
    /// The host's names of turns.
    pub names: &'a HostTurnIds,
    /// The model that the session runs on now.
    pub live_identity: &'a Option<ModelIdentity>,
}

/// What a [`TailContext`] stands for.
#[verifier::ext_equal]
pub struct TailContextView {
    pub messages: Seq<MessageRecordView>,
    pub turns: Seq<TurnRecordView>,
    pub rolled_back: Seq<Seq<char>>,
    pub names: Seq<TurnIdPairView>,
    pub live_identity: Option<ModelIdentityView>,
}

impl<'a> View for TailContext<'a> {
    type V = TailContextView;

    open spec fn view(&self) -> TailContextView {
        TailContextView {
            messages: self.messages.deep_view(),
            turns: self.turns.deep_view(),
            rolled_back: self.rolled_back.deep_view(),
            names: self.names@,
            live_identity: self.live_identity.deep_view(),
        }
    }
}

/// An image call that waits for its result.
#[derive(Debug)]
pub struct PendingImage {
    pub call_id: String,
    pub revised_prompt: Option<String>,
    pub turn_id: String,
}

/// What a [`PendingImage`] stands for.
#[verifier::ext_equal]
pub struct PendingImageView {
    pub call_id: Seq<char>,
    pub revised_prompt: Option<Seq<char>>,
    pub turn_id: Seq<char>,
}

impl View for PendingImage {
    type V = PendingImageView;

    open spec fn view(&self) -> PendingImageView {
        PendingImageView {
            call_id: self.call_id@,
            revised_prompt: self.revised_prompt.deep_view(),
            turn_id: self.turn_id@,
        }
    }
}

impl DeepView for PendingImage {
    type V = PendingImageView;

    open spec fn deep_view(&self) -> PendingImageView {
        self@
    }
}

impl Clone for PendingImage {
    fn clone(&self) -> (r: Self)
        ensures
            r@ == self@,
    {
        PendingImage {
            call_id: self.call_id.clone(),
            revised_prompt: self.revised_prompt.clone(),
            turn_id: self.turn_id.clone(),
        }
    }
}

/// A call and the kind of item that it was.
#[derive(Debug)]
pub struct KnownCall {
    pub call_id: String,
    pub kind: RecoveredToolCallKind,
}

/// What a [`KnownCall`] stands for.
#[verifier::ext_equal]
pub struct KnownCallView {
    pub call_id: Seq<char>,
    pub kind: RecoveredToolCallKind,
}

impl View for KnownCall {
    type V = KnownCallView;

    open spec fn view(&self) -> KnownCallView {
        KnownCallView { call_id: self.call_id@, kind: self.kind }
    }
}

impl DeepView for KnownCall {
    type V = KnownCallView;

    open spec fn deep_view(&self) -> KnownCallView {
        self@
    }
}

/// Where the rebuilding stands.
pub struct Tail {
    /// The lines so far.
    pub out: Vec<RolloutItem>,
    /// What is to be said of them.
    pub notes: Vec<String>,
    /// The turns that were opened, in this order.
    pub opened: Vec<String>,
    /// The turns that were closed, in this order.
    pub closed: Vec<String>,
    /// The images that wait for their results.
    pub pending: Vec<PendingImage>,
    /// The calls so far.
    pub calls: Vec<KnownCall>,
}

/// What a [`Tail`] stands for.
#[verifier::ext_equal]
pub struct TailView {
    pub out: Seq<RolloutItemView>,
    pub notes: Seq<Seq<char>>,
    pub opened: Seq<Seq<char>>,
    pub closed: Seq<Seq<char>>,
    pub pending: Seq<PendingImageView>,
    pub calls: Seq<KnownCallView>,
}

impl View for Tail {
    type V = TailView;

    open spec fn view(&self) -> TailView {
        TailView {
            out: self.out.deep_view(),
            notes: self.notes.deep_view(),
            opened: self.opened.deep_view(),
            closed: self.closed.deep_view(),
            pending: self.pending.deep_view(),
            calls: self.calls.deep_view(),
        }
    }
}

/// The lines of a tail and some more.
pub open spec fn with_lines(s: TailView, lines: Seq<RolloutItemView>) -> TailView {
    TailView { out: s.out + lines, ..s }
}

/// The lines of a tail and one event more.
pub open spec fn with_event(s: TailView, e: EventMsgView) -> TailView {
    TailView { out: s.out.push(RolloutItemView::EventMsg(e)), ..s }
}

// ---------------------------------------------------------------------------
// Images
// ---------------------------------------------------------------------------

/// The images of turn `id`, or those of the other turns.
pub open spec fn images_of_turn(
    pending: Seq<PendingImageView>,
    id: Seq<char>,
    own: bool,
) -> Seq<PendingImageView>
    decreases pending.len(),
{
    if pending.len() == 0 {
        Seq::empty()
    } else {
        let before = images_of_turn(pending.drop_last(), id, own);
        if (pending.last().turn_id == id) == own {
            before.push(pending.last())
        } else {
            before
        }
    }
}

/// The lines of images that no result answered.
pub open spec fn unanswered_lines(pending: Seq<PendingImageView>) -> Seq<RolloutItemView>
    decreases pending.len(),
{
    if pending.len() == 0 {
        Seq::empty()
    } else {
        unanswered_lines(pending.drop_last()) + item_lines(
            unanswered_image(pending.last().call_id, pending.last().revised_prompt),
        )
    }
}

/// The image that call `id` waits for.
pub open spec fn image_of_call(pending: Seq<PendingImageView>, id: Seq<char>) -> Option<
    PendingImageView,
>
    decreases pending.len(),
{
    if pending.len() == 0 {
        None
    } else if pending.last().call_id == id {
        Some(pending.last())
    } else {
        image_of_call(pending.drop_last(), id)
    }
}

/// The images but that of call `id`.
pub open spec fn without_image(pending: Seq<PendingImageView>, id: Seq<char>) -> Seq<
    PendingImageView,
>
    decreases pending.len(),
{
    if pending.len() == 0 {
        Seq::empty()
    } else if pending.last().call_id == id {
        without_image(pending.drop_last(), id)
    } else {
        without_image(pending.drop_last(), id).push(pending.last())
    }
}

fn pick_images(pending: &Vec<PendingImage>, id: &str, own: bool) -> (r: Vec<PendingImage>)
    ensures
        r.deep_view() == images_of_turn(pending.deep_view(), id@, own),
{
    let ghost view = pending.deep_view();
    let mut out: Vec<PendingImage> = Vec::new();
    assert(out.deep_view() =~= Seq::<PendingImageView>::empty());
    let mut i: usize = 0;
    while i < pending.len()
        invariant
            i <= pending.len(),
            view == pending.deep_view(),
            out.deep_view() == images_of_turn(view.take(i as int), id@, own),
        decreases pending.len() - i,
    {
        let ghost before = out.deep_view();
        assert(view[i as int] == pending@[i as int]@);
        assert(view.take(i + 1).drop_last() =~= view.take(i as int));
        if text_eq(pending[i].turn_id.as_str(), id) == own {
            out.push(pending[i].clone());
            assert(out.deep_view() =~= before.push(view[i as int]));
        }
        i = i + 1;
    }
    assert(view.take(i as int) =~= view);
    out
}

fn drop_image(pending: &Vec<PendingImage>, id: &str) -> (r: Vec<PendingImage>)
    ensures
        r.deep_view() == without_image(pending.deep_view(), id@),
{
    let ghost view = pending.deep_view();
    let mut out: Vec<PendingImage> = Vec::new();
    assert(out.deep_view() =~= Seq::<PendingImageView>::empty());
    let mut i: usize = 0;
    while i < pending.len()
        invariant
            i <= pending.len(),
            view == pending.deep_view(),
            out.deep_view() == without_image(view.take(i as int), id@),
        decreases pending.len() - i,
    {
        let ghost before = out.deep_view();
        assert(view[i as int] == pending@[i as int]@);
        assert(view.take(i + 1).drop_last() =~= view.take(i as int));
        if !text_eq(pending[i].call_id.as_str(), id) {
            out.push(pending[i].clone());
            assert(out.deep_view() =~= before.push(view[i as int]));
        }
        i = i + 1;
    }
    assert(view.take(i as int) =~= view);
    out
}

fn find_image<'a>(pending: &'a Vec<PendingImage>, id: &str) -> (r: Option<&'a PendingImage>)
    ensures
        r.deep_view() == image_of_call(pending.deep_view(), id@),
{
    let ghost view = pending.deep_view();
    let mut n: usize = pending.len();
    assert(view.take(n as int) =~= view);
    while n > 0
        invariant
            n <= pending.len(),
            view == pending.deep_view(),
            image_of_call(view, id@) == image_of_call(view.take(n as int), id@),
        decreases n,
    {
        assert(view.take(n as int).drop_last() =~= view.take(n - 1));
        assert(view.take(n as int).last() == pending@[n - 1]@);
        if text_eq(pending[n - 1].call_id.as_str(), id) {
            return Some(&pending[n - 1]);
        }
        n = n - 1;
    }
    None
}

fn push_unanswered(pending: &Vec<PendingImage>, out: &mut Vec<RolloutItem>)
    ensures
        final(out).deep_view() == old(out).deep_view() + unanswered_lines(pending.deep_view()),
{
    let ghost view = pending.deep_view();
    let ghost start = out.deep_view();
    let mut i: usize = 0;
    assert(start + unanswered_lines(view.take(0)) =~= start);
    while i < pending.len()
        invariant
            i <= pending.len(),
            view == pending.deep_view(),
            out.deep_view() == start + unanswered_lines(view.take(i as int)),
        decreases pending.len() - i,
    {
        let ghost so_far = unanswered_lines(view.take(i as int));
        assert(view[i as int] == pending@[i as int]@);
        assert(view.take(i + 1).drop_last() =~= view.take(i as int));
        let item = unanswered_image_item(
            pending[i].call_id.as_str(),
            pending[i].revised_prompt.clone(),
        );
        let ghost lines = item_lines(item@);
        push_response_with_twins(item, out);
        assert((start + so_far) + lines =~= start + (so_far + lines));
        i = i + 1;
    }
    assert(view.take(i as int) =~= view);
}

/// The kind of the latest call `id`.
pub open spec fn kind_of_call(calls: Seq<KnownCallView>, id: Seq<char>) -> Option<
    RecoveredToolCallKind,
>
    decreases calls.len(),
{
    if calls.len() == 0 {
        None
    } else if calls.last().call_id == id {
        Some(calls.last().kind)
    } else {
        kind_of_call(calls.drop_last(), id)
    }
}

fn find_kind(calls: &Vec<KnownCall>, id: &str) -> (r: Option<RecoveredToolCallKind>)
    ensures
        r == kind_of_call(calls.deep_view(), id@),
{
    let ghost view = calls.deep_view();
    let mut n: usize = calls.len();
    assert(view.take(n as int) =~= view);
    while n > 0
        invariant
            n <= calls.len(),
            view == calls.deep_view(),
            kind_of_call(view, id@) == kind_of_call(view.take(n as int), id@),
        decreases n,
    {
        assert(view.take(n as int).drop_last() =~= view.take(n - 1));
        assert(view.take(n as int).last() == calls@[n - 1]@);
        if text_eq(calls[n - 1].call_id.as_str(), id) {
            return Some(calls[n - 1].kind);
        }
        n = n - 1;
    }
    None
}

// ---------------------------------------------------------------------------
// Turns
// ---------------------------------------------------------------------------

/// A character with ASCII capitals made small.
pub open spec fn lower_char(c: char) -> char {
    if 'A' <= c <= 'Z' {
        (c as u8 + 32) as char
    } else {
        c
    }
}

/// A text with ASCII capitals made small.
pub open spec fn lowered(s: Seq<char>) -> Seq<char> {
    s.map_values(|c: char| lower_char(c))
}

fn to_lower(s: &str) -> (r: String)
    ensures
        r@ == lowered(s@),
{
    let chars = chars_of(s);
    let mut out = String::new();
    let mut i: usize = 0;
    while i < chars.len()
        invariant
            i <= chars.len(),
            chars@ == s@,
            out@ == lowered(chars@).take(i as int),
        decreases chars.len() - i,
    {
        let c = chars[i];
        let low = if 'A' <= c && c <= 'Z' {
            (c as u8 + 32) as char
        } else {
            c
        };
        out.push(low);
        assert(lowered(chars@).take(i + 1) =~= lowered(chars@).take(i as int).push(
            lowered(chars@)[i as int],
        ));
        i = i + 1;
    }
    assert(lowered(chars@).take(i as int) =~= lowered(chars@));
    out
}

/// Why a turn was aborted, as far as the stored reason tells.
pub open spec fn abort_reason(reason: Option<Seq<char>>) -> TurnAbortReason {
    match reason {
        None => TurnAbortReason::Interrupted,
        Some(raw) => if occurs_in(lowered(raw), "replac"@) {
            TurnAbortReason::Replaced
        } else if occurs_in(lowered(raw), "review"@) {
            TurnAbortReason::ReviewEnded
        } else if occurs_in(lowered(raw), "budget"@) {
            TurnAbortReason::BudgetLimited
        } else {
            TurnAbortReason::Interrupted
        },
    }
}

/// Why a turn was aborted, as far as the stored reason tells.
pub fn map_abort_reason(reason: &Option<String>) -> (r: TurnAbortReason)
    ensures
        r == abort_reason(reason.deep_view()),
{
    match reason {
        None => TurnAbortReason::Interrupted,
        Some(raw) => {
            let s = to_lower(raw.as_str());
            if has_occurrence(s.as_str(), "replac") {
                TurnAbortReason::Replaced
            } else if has_occurrence(s.as_str(), "review") {
                TurnAbortReason::ReviewEnded
            } else if has_occurrence(s.as_str(), "budget") {
                TurnAbortReason::BudgetLimited
            } else {
                TurnAbortReason::Interrupted
            }
        },
    }
}

/// The seconds that a stored time denotes.
pub open spec fn opt_secs(iso: Option<Seq<char>>) -> Option<i64> {
    match iso {
        Some(s) => secs_of_iso(s),
        None => None,
    }
}

fn read_secs(iso: &Option<String>) -> (r: Option<i64>)
    ensures
        r == opt_secs(iso.deep_view()),
{
    match iso {
        Some(s) => iso_to_unix_secs(s.as_str()),
        None => None,
    }
}

/// The milliseconds between two times, where the second is not the earlier;
/// no more than a number can hold.
pub open spec fn millis_between(start: Option<i64>, end: Option<i64>) -> Option<i64> {
    match (start, end) {
        (Some(s), Some(e)) => if e < s {
            None
        } else if (e - s) * 1000 <= i64::MAX {
            Some(((e - s) * 1000) as i64)
        } else {
            Some(i64::MAX)
        },
        _ => None,
    }
}

fn duration_between(start: Option<i64>, end: Option<i64>) -> (r: Option<i64>)
    ensures
        r == millis_between(start, end),
{
    match (start, end) {
        (Some(s), Some(e)) => if e < s {
            None
        } else {
            let ms: i128 = (e as i128 - s as i128) * 1000;
            if ms <= i64::MAX as i128 {
                Some(ms as i64)
            } else {
                Some(i64::MAX)
            }
        },
        _ => None,
    }
}

/// The event at the end of a turn that is shown as `name`, `start` and `end`
/// being its times.
pub open spec fn turn_end_of(
    turn: TurnRecordView,
    name: Seq<char>,
    start: Option<i64>,
    end: Option<i64>,
) -> EventMsgView {
    if turn.outcome == Some(TurnOutcome::Aborted) {
        EventMsgView::TurnAborted {
            turn_id: Some(name),
            reason: abort_reason(turn.outcome_reason),
            started_at: start,
            completed_at: end,
            duration_ms: millis_between(start, end),
        }
    } else {
        EventMsgView::TurnComplete {
            turn_id: name,
            started_at: start,
            completed_at: end,
            duration_ms: millis_between(start, end),
        }
    }
}

/// The event at the end of a turn, under the name that the turn is shown by.
pub open spec fn turn_end_event(
    turn: TurnRecordView,
    names: Seq<TurnIdPairView>,
) -> EventMsgView {
    turn_end_of(
        turn,
        shown_name(names, turn.turn_id),
        opt_secs(turn.started_at),
        opt_secs(turn.ended_at),
    )
}

/// The event at the end of a turn that is shown as `name`, given its times.
pub fn turn_end_from_times(
    turn: &TurnRecord,
    name: String,
    start: Option<i64>,
    end: Option<i64>,
) -> (r: EventMsg)
    ensures
        r@ == turn_end_of(turn@, name@, start, end),
{
    let duration_ms = duration_between(start, end);
    match turn.outcome {
        Some(TurnOutcome::Aborted) => EventMsg::TurnAborted {
            turn_id: Some(name),
            reason: map_abort_reason(&turn.outcome_reason),
            started_at: start,
            completed_at: end,
            duration_ms,
        },
        _ => EventMsg::TurnComplete {
            turn_id: name,
            started_at: start,
            completed_at: end,
            duration_ms,
        },
    }
}

/// The event at the end of a turn, under the name that the turn is shown by.
pub fn emit_turn_end(turn: &TurnRecord, names: &HostTurnIds) -> (r: EventMsg)
    ensures
        r@ == turn_end_event(turn@, names@),
{
    turn_end_from_times(
        turn,
        display_turn_id(turn.turn_id.as_str(), names),
        read_secs(&turn.started_at),
        read_secs(&turn.ended_at),
    )
}

/// The tail with a turn closed: its unanswered images, then its end.
pub open spec fn turn_closed(
    s: TailView,
    names: Seq<TurnIdPairView>,
    turn: TurnRecordView,
) -> TailView {
    TailView {
        out: (s.out + unanswered_lines(images_of_turn(s.pending, turn.turn_id, true))).push(
            RolloutItemView::EventMsg(turn_end_event(turn, names)),
        ),
        pending: images_of_turn(s.pending, turn.turn_id, false),
        closed: s.closed.push(turn.turn_id),
        ..s
    }
}

/// The turn is over, and earlier than `order`, and the tail has it open.
pub open spec fn is_closable(
    s: TailView,
    turns: Seq<TurnRecordView>,
    id: Seq<char>,
    order: i64,
) -> bool {
    &&& !s.closed.contains(id)
    &&& turn_of(turns, id) matches Some(t) && t.status == TurnStatus::Closed && t.turn_order < order
}

/// The turns among the first `n` opened that are to be closed before the turn
/// of `order` opens.
pub open spec fn closable_turns(
    s: TailView,
    turns: Seq<TurnRecordView>,
    order: i64,
    n: int,
) -> Seq<TurnRecordView>
    decreases n,
{
    if n <= 0 {
        Seq::empty()
    } else {
        let before = closable_turns(s, turns, order, n - 1);
        if is_closable(s, turns, s.opened[n - 1], order) {
            before.push(turn_of(turns, s.opened[n - 1])->0)
        } else {
            before
        }
    }
}

/// What turns are ordered by.
pub open spec fn turn_keys(turns: Seq<TurnRecordView>) -> Seq<(i64, i64)> {
    turns.map_values(|t: TurnRecordView| (t.turn_order, 0i64))
}

/// The tail with the first `n` turns of an order closed.
pub open spec fn turns_closed(
    s: TailView,
    names: Seq<TurnIdPairView>,
    turns: Seq<TurnRecordView>,
    order: Seq<int>,
    n: int,
) -> TailView
    decreases n,
{
    if n <= 0 {
        s
    } else {
        turn_closed(turns_closed(s, names, turns, order, n - 1), names, turns[order[n - 1]])
    }
}

/// The tail with some turns closed, in their order.
pub open spec fn all_closed(
    s: TailView,
    names: Seq<TurnIdPairView>,
    turns: Seq<TurnRecordView>,
) -> TailView {
    let order = stable_order(turn_keys(turns));
    turns_closed(s, names, turns, order, order.len() as int)
}

/// The order of a turn; an unknown one comes last.
pub open spec fn order_of(turns: Seq<TurnRecordView>, id: Seq<char>) -> i64 {
    match turn_of(turns, id) {
        Some(t) => t.turn_order,
        None => i64::MAX,
    }
}

/// The store says that the turn is over.
pub open spec fn is_over(turns: Seq<TurnRecordView>, id: Seq<char>) -> bool {
    turn_of(turns, id) matches Some(t) && t.status == TurnStatus::Closed
}

/// The event at the start of a turn, under the name that the turn is shown by.
pub open spec fn turn_start_event(ctx: TailContextView, id: Seq<char>) -> EventMsgView {
    EventMsgView::TurnStarted {
        turn_id: shown_name(ctx.names, id),
        started_at: match turn_of(ctx.turns, id) {
            Some(t) => opt_secs(t.started_at),
            None => None,
        },
    }
}

/// The tail with a turn open: earlier turns that are over are closed first.
/// Only a turn that is over is shown to start.
pub open spec fn turn_opened(s: TailView, ctx: TailContextView, id: Seq<char>) -> TailView {
    if s.opened.contains(id) {
        s
    } else {
        let c = all_closed(
            s,
            ctx.names,
            closable_turns(s, ctx.turns, order_of(ctx.turns, id), s.opened.len() as int),
        );
        let o = TailView { opened: c.opened.push(id), ..c };
        if is_over(ctx.turns, id) {
            with_event(o, turn_start_event(ctx, id))
        } else {
            o
        }
    }
}

/// The tail behind a message: where it is the last of a turn that is over, the
/// turn is closed.
pub open spec fn closed_behind(
    s: TailView,
    ctx: TailContextView,
    m: MessageRecordView,
) -> TailView {
    match turn_of(ctx.turns, m.turn_id) {
        Some(t) => if !s.closed.contains(t.turn_id) && s.opened.contains(t.turn_id)
            && t.member_message_ids.len() > 0 && t.member_message_ids.last() == m.message_id
            && t.status == TurnStatus::Closed {
            turn_closed(s, ctx.names, t)
        } else {
            s
        },
        None => s,
    }
}

impl Tail {
    /// An empty tail that goes on behind some lines and notes.
    pub fn new(out: Vec<RolloutItem>, notes: Vec<String>) -> (r: Self)
        ensures
            r@ == started(out.deep_view(), notes.deep_view()),
    {
        let r = Tail {
            out,
            notes,
            opened: Vec::new(),
            closed: Vec::new(),
            pending: Vec::new(),
            calls: Vec::new(),
        };
        assert(r@ =~= started(out.deep_view(), notes.deep_view()));
        r
    }

    fn close_turn(&mut self, turn: &TurnRecord, names: &HostTurnIds)
        ensures
            final(self)@ == turn_closed(old(self)@, names@, turn@),
    {
        let own = pick_images(&self.pending, turn.turn_id.as_str(), true);
        let others = pick_images(&self.pending, turn.turn_id.as_str(), false);
        push_unanswered(&own, &mut self.out);
        self.pending = others;
        push_line(&mut self.out, RolloutItem::EventMsg(emit_turn_end(turn, names)));
        let ghost before = self.closed.deep_view();
        self.closed.push(turn.turn_id.clone());
        assert(self.closed.deep_view() =~= before.push(turn@.turn_id));
        assert(self@ =~= turn_closed(old(self)@, names@, turn@));
    }

    fn close_all(&mut self, turns: &Vec<TurnRecord>, names: &HostTurnIds)
        ensures
            final(self)@ == all_closed(old(self)@, names@, turns.deep_view()),
    {
        let ghost view = turns.deep_view();
        let ghost start = self@;
        let mut keys: Vec<(i64, i64)> = Vec::new();
        let mut i: usize = 0;
        while i < turns.len()
            invariant
                i <= turns.len(),
                view == turns.deep_view(),
                keys@ == turn_keys(view).take(i as int),
            decreases turns.len() - i,
        {
            assert(view[i as int] == turns@[i as int]@);
            keys.push((turns[i].turn_order, 0i64));
            assert(turn_keys(view).take(i + 1) =~= turn_keys(view).take(i as int).push(
                turn_keys(view)[i as int],
            ));
            i = i + 1;
        }
        assert(turn_keys(view).take(i as int) =~= turn_keys(view));
        let order = sorted_positions(&keys);
        let ghost places = positions(order@);
        let mut k: usize = 0;
        while k < order.len()
            invariant
                k <= order.len(),
                view == turns.deep_view(),
                places == positions(order@),
                keys.len() == turns.len(),
                forall|p: int| 0 <= p < order.len() ==> #[trigger] order@[p] < keys.len(),
                self@ == turns_closed(start, names@, view, places, k as int),
            decreases order.len() - k,
        {
            assert(places[k as int] == order@[k as int]);
            let turn = &turns[order[k]];
            assert(view[places[k as int]] == turn@);
            self.close_turn(turn, names);
            k = k + 1;
        }
    }

    /// Opens a turn, unless it is open.
    fn open_turn(&mut self, ctx: &TailContext, id: &str)
        ensures
            final(self)@ == turn_opened(old(self)@, ctx@, id@),
    {
        if holds_text(&self.opened, id) {
            return ;
        }
        let ghost start = self@;
        let ghost turns = ctx@.turns;
        let own = find_turn(ctx.turns, id);
        let order: i64 = match own {
            Some(t) => t.turn_order,
            None => i64::MAX,
        };
        let mut closing: Vec<TurnRecord> = Vec::new();
        assert(closing.deep_view() =~= Seq::<TurnRecordView>::empty());
        let mut i: usize = 0;
        while i < self.opened.len()
            invariant
                i <= self.opened.len(),
                self@ == start,
                turns == ctx@.turns,
                closing.deep_view() == closable_turns(start, turns, order, i as int),
            decreases self.opened.len() - i,
        {
            let ghost before = closing.deep_view();
            let other = &self.opened[i];
            assert(start.opened[i as int] == other@);
            if !holds_text(&self.closed, other.as_str()) {
                if let Some(t) = find_turn(ctx.turns, other.as_str()) {
                    if t.status == TurnStatus::Closed && t.turn_order < order {
                        closing.push(t.clone());
                        assert(closing.deep_view() =~= before.push(t@));
                    }
                }
            }
            i = i + 1;
        }
        self.close_all(&closing, ctx.names);
        let ghost closed = self@;
        self.opened.push(text(id));
        assert(self.opened.deep_view() =~= closed.opened.push(id@));
        if let Some(t) = own {
            if t.status == TurnStatus::Closed {
                let turn_id = display_turn_id(id, ctx.names);
                let started_at = read_secs(&t.started_at);
                push_line(
                    &mut self.out,
                    RolloutItem::EventMsg(EventMsg::TurnStarted { turn_id, started_at }),
                );
            }
        }
        assert(self@ =~= turn_opened(start, ctx@, id@));
    }

    /// Closes the turn of a message that is its last, where it is over.
    fn close_behind(&mut self, ctx: &TailContext, m: &MessageRecord)
        ensures
            final(self)@ == closed_behind(old(self)@, ctx@, m@),
    {
        if let Some(t) = find_turn(ctx.turns, m.turn_id.as_str()) {
            if !holds_text(&self.closed, t.turn_id.as_str()) && holds_text(
                &self.opened,
                t.turn_id.as_str(),
            ) && t.status == TurnStatus::Closed {
                let n: usize = t.member_message_ids.len();
                if n > 0 {
                    assert(t@.member_message_ids.last() == t.member_message_ids@[n - 1]@);
                    if text_eq(t.member_message_ids[n - 1].as_str(), m.message_id.as_str()) {
                        self.close_turn(t, ctx.names);
                    }
                }
            }
        }
    }
}

/// An empty tail that goes on behind some lines and notes.
pub open spec fn started(out: Seq<RolloutItemView>, notes: Seq<Seq<char>>) -> TailView {
    TailView {
        out,
        notes,
        opened: Seq::empty(),
        closed: Seq::empty(),
        pending: Seq::empty(),
        calls: Seq::empty(),
    }
}

// ---------------------------------------------------------------------------
// Sources
// ---------------------------------------------------------------------------

/// The stored messages that an entry was made of.
pub open spec fn sources_of(entry: SessionThreadViewEntryView) -> Seq<
    SessionThreadViewEntrySourceView,
> {
    match entry {
        SessionThreadViewEntryView::Message(m) => match m {
            SessionThreadViewMessageView::User(u) => u.source_messages,
            SessionThreadViewMessageView::Assistant(a) => a.source_messages,
            SessionThreadViewMessageView::ToolResult(t) => t.source_messages,
        },
        SessionThreadViewEntryView::Runtime(r) => match r {
            SessionThreadViewRuntimeEntryView::ModelChange { source_messages } => source_messages,
            SessionThreadViewRuntimeEntryView::ThinkingLevelChange { source_messages } =>
                source_messages,
        },
    }
}

fn entry_sources(entry: &SessionThreadViewEntry) -> (r: &Vec<SessionThreadViewEntrySource>)
    ensures
        r.deep_view() == sources_of(entry@),
{
    match entry {
        SessionThreadViewEntry::Message(m) => match m {
            SessionThreadViewMessage::User(u) => &u.source_messages,
            SessionThreadViewMessage::Assistant(a) => &a.source_messages,
            SessionThreadViewMessage::ToolResult(t) => &t.source_messages,
        },
        SessionThreadViewEntry::Runtime(r) => match r {
            SessionThreadViewRuntimeEntry::ModelChange { source_messages } => source_messages,
            SessionThreadViewRuntimeEntry::ThinkingLevelChange { source_messages } =>
                source_messages,
        },
    }
}

/// The source is the key of a compact marker.
pub open spec fn is_marker_source(source: SessionThreadViewEntrySourceView) -> bool {
    source.idempotency_key matches Some(key) && is_marker_key(key)
}

/// The entry is bookkeeping of a compact.
pub open spec fn is_marker_entry(entry: SessionThreadViewEntryView) -> bool {
    exists|k: int|
        0 <= k < sources_of(entry).len() && is_marker_source(#[trigger] sources_of(entry)[k])
}

fn entry_is_fork_compact_marker(entry: &SessionThreadViewEntry) -> (r: bool)
    ensures
        r == is_marker_entry(entry@),
{
    let sources = entry_sources(entry);
    let ghost view = sources.deep_view();
    let mut k: usize = 0;
    while k < sources.len()
        invariant
            k <= sources.len(),
            view == sources.deep_view(),
            view == sources_of(entry@),
            forall|j: int| 0 <= j < k ==> !is_marker_source(#[trigger] view[j]),
        decreases sources.len() - k,
    {
        assert(view[k as int] == sources@[k as int]@);
        if let Some(key) = &sources[k].idempotency_key {
            if is_compact_marker_idempotency_key(key.as_str()) {
                assert(is_marker_source(view[k as int]));
                return true;
            }
        }
        k = k + 1;
    }
    false
}

/// The message of a source belongs to a turn that was rolled back.
pub open spec fn is_rolled_back_source(
    ctx: TailContextView,
    source: SessionThreadViewEntrySourceView,
) -> bool {
    message_of(ctx.messages, source.message_id) matches Some(m) && ctx.rolled_back.contains(
        m.turn_id,
    )
}

/// The entry belongs to turns that were rolled back alone.
pub open spec fn is_rolled_back_entry(
    ctx: TailContextView,
    entry: SessionThreadViewEntryView,
) -> bool {
    sources_of(entry).len() > 0 && forall|k: int|
        0 <= k < sources_of(entry).len() ==> is_rolled_back_source(
            ctx,
            #[trigger] sources_of(entry)[k],
        )
}

fn entry_belongs_to_rolled_back(ctx: &TailContext, entry: &SessionThreadViewEntry) -> (r: bool)
    ensures
        r == is_rolled_back_entry(ctx@, entry@),
{
    let sources = entry_sources(entry);
    let ghost view = sources.deep_view();
    if sources.len() == 0 {
        return false;
    }
    let mut k: usize = 0;
    while k < sources.len()
        invariant
            k <= sources.len(),
            view == sources.deep_view(),
            view == sources_of(entry@),
            forall|j: int| 0 <= j < k ==> is_rolled_back_source(ctx@, #[trigger] view[j]),
        decreases sources.len() - k,
    {
        assert(view[k as int] == sources@[k as int]@);
        let gone = match find_message(ctx.messages, sources[k].message_id.as_str()) {
            Some(m) => holds_text(ctx.rolled_back, m.turn_id.as_str()),
            None => false,
        };
        if !gone {
            assert(!is_rolled_back_source(ctx@, view[k as int]));
            return false;
        }
        k = k + 1;
    }
    true
}

/// The tail with the turns of the first `n` sources open.
pub open spec fn sources_opened(
    s: TailView,
    ctx: TailContextView,
    sources: Seq<SessionThreadViewEntrySourceView>,
    n: int,
) -> TailView
    decreases n,
{
    if n <= 0 {
        s
    } else {
        let before = sources_opened(s, ctx, sources, n - 1);
        match message_of(ctx.messages, sources[n - 1].message_id) {
            Some(m) => if ctx.rolled_back.contains(m.turn_id) {
                before
            } else {
                turn_opened(before, ctx, m.turn_id)
            },
            None => before,
        }
    }
}

/// The tail behind the first `n` sources.
pub open spec fn sources_closed(
    s: TailView,
    ctx: TailContextView,
    sources: Seq<SessionThreadViewEntrySourceView>,
    n: int,
) -> TailView
    decreases n,
{
    if n <= 0 {
        s
    } else {
        let before = sources_closed(s, ctx, sources, n - 1);
        match message_of(ctx.messages, sources[n - 1].message_id) {
            Some(m) => if ctx.rolled_back.contains(m.turn_id) {
                before
            } else {
                closed_behind(before, ctx, m)
            },
            None => before,
        }
    }
}

// ---------------------------------------------------------------------------
// User entries
// ---------------------------------------------------------------------------

/// The text of the first source that is a runtime note.
pub open spec fn note_text(
    ctx: TailContextView,
    sources: Seq<SessionThreadViewEntrySourceView>,
    i: int,
) -> Option<Seq<char>>
    decreases sources.len() - i,
{
    if i < 0 || i >= sources.len() {
        None
    } else {
        match message_of(ctx.messages, sources[i].message_id) {
            Some(m) => if m.kind == MessageKind::RuntimeNote {
                Some(text_of_message(m))
            } else {
                note_text(ctx, sources, i + 1)
            },
            None => note_text(ctx, sources, i + 1),
        }
    }
}

fn find_note_text(ctx: &TailContext, sources: &Vec<SessionThreadViewEntrySource>) -> (r: Option<
    String,
>)
    ensures
        r.deep_view() == note_text(ctx@, sources.deep_view(), 0),
{
    let ghost view = sources.deep_view();
    let mut i: usize = 0;
    while i < sources.len()
        invariant
            i <= sources.len(),
            view == sources.deep_view(),
            note_text(ctx@, view, 0) == note_text(ctx@, view, i as int),
        decreases sources.len() - i,
    {
        assert(view[i as int] == sources@[i as int]@);
        if let Some(m) = find_message(ctx.messages, sources[i].message_id.as_str()) {
            if m.kind == MessageKind::RuntimeNote {
                return Some(stored_text(m));
            }
        }
        i = i + 1;
    }
    None
}

/// What the user said: as it was stored, else as the entry shows it.
pub open spec fn user_text(ctx: TailContextView, u: SessionUserMessageView) -> Seq<char> {
    if u.source_messages.len() == 0 {
        u.content
    } else {
        match message_of(ctx.messages, u.source_messages[0].message_id) {
            Some(m) => if text_of_message(m).len() > 0 {
                text_of_message(m)
            } else {
                u.content
            },
            None => u.content,
        }
    }
}

/// The lines of a user entry; none when there is nothing to show. A runtime
/// note is an item without an event that shows it.
pub open spec fn user_lines(ctx: TailContextView, u: SessionUserMessageView) -> Option<
    Seq<RolloutItemView>,
> {
    match note_text(ctx, u.source_messages, 0) {
        Some(t) => if t.len() == 0 {
            None
        } else {
            Some(seq![RolloutItemView::ResponseItem(user_message(t))])
        },
        None => if u.content.len() == 0 {
            None
        } else {
            Some(item_lines(user_message(user_text(ctx, u))))
        },
    }
}

// ---------------------------------------------------------------------------
// Assistant entries
// ---------------------------------------------------------------------------

/// The host identity in the key of a source.
pub open spec fn host_id_of_source(source: Option<SessionThreadViewEntrySourceView>) -> Option<
    Seq<char>,
> {
    match source {
        Some(s) => match s.idempotency_key {
            Some(key) => host_id_of_key(key),
            None => None,
        },
        None => None,
    }
}

fn read_host_id(source: Option<&SessionThreadViewEntrySource>) -> (r: Option<String>)
    ensures
        r.deep_view() == host_id_of_source(source.deep_view()),
{
    match source {
        Some(s) => match &s.idempotency_key {
            Some(key) => parse_host_id_from_key(key.as_str()),
            None => None,
        },
        None => None,
    }
}

/// A thought as an item: its text, and its signature where the model that
/// signed it is the one that runs.
pub open spec fn thought_item(
    id: Option<Seq<char>>,
    thought: Seq<char>,
    signature: Option<Seq<char>>,
    stored: ModelIdentityView,
    live: Option<ModelIdentityView>,
) -> ResponseItemView {
    ResponseItemView::Reasoning {
        id,
        summary: if thought.len() == 0 {
            Seq::empty()
        } else {
            seq![ReasoningItemReasoningSummaryView::SummaryText { text: thought }]
        },
        content: None,
        encrypted_content: if identity_complete(stored) && live == Some(stored) {
            signature
        } else {
            None
        },
        internal_chat_message_metadata_passthrough: None,
    }
}

/// A signature that is not empty.
pub open spec fn real_signature(signature: Option<Seq<char>>) -> Option<Seq<char>> {
    match signature {
        Some(s) => if s.len() == 0 {
            None
        } else {
            Some(s)
        },
        None => None,
    }
}

fn make_thought(
    id: Option<String>,
    thought: &str,
    signature: Option<String>,
    stored: &ModelIdentity,
    live: &Option<ModelIdentity>,
) -> (r: ResponseItem)
    ensures
        r@ == thought_item(
            id.deep_view(),
            thought@,
            signature.deep_view(),
            stored@,
            live.deep_view(),
        ),
{
    let mut summary: Vec<ReasoningItemReasoningSummary> = Vec::new();
    assert(summary.deep_view() =~= Seq::<ReasoningItemReasoningSummaryView>::empty());
    if !is_blank(thought) {
        let part = ReasoningItemReasoningSummary::SummaryText { text: text(thought) };
        let ghost view = part@;
        summary.push(part);
        assert(summary.deep_view() =~= seq![view]);
    }
    let same = match live {
        Some(l) => stored.is_complete() && stored.matches(l),
        None => false,
    };
    let encrypted_content = if same {
        signature
    } else {
        None
    };
    ResponseItem::Reasoning {
        id,
        summary,
        content: None,
        encrypted_content,
        internal_chat_message_metadata_passthrough: None,
    }
}

/// The arguments of a part.
pub open spec fn part_arguments(part: SessionAssistantPartView) -> Entries {
    match part.arguments {
        Some(j) => entries_of(j),
        None => Seq::empty(),
    }
}

fn copy_arguments(part: &SessionAssistantPart) -> (r: Vec<(String, Json)>)
    ensures
        r.deep_view() == part_arguments(part@),
{
    broadcast use lemma_object_view;

    match part.arguments.clone() {
        Some(Json::Object(e)) => e,
        _ => {
            let none: Vec<(String, Json)> = Vec::new();
            assert(none.deep_view() =~= Seq::<(Seq<char>, JsonView)>::empty());
            none
        },
    }
}

/// The tool that a part calls.
pub open spec fn part_tool(part: SessionAssistantPartView) -> Seq<char> {
    match part.tool_name {
        Some(n) => n,
        None => "tool"@,
    }
}

/// The tail behind one part of an assistant entry.
pub open spec fn part_emitted(
    s: TailView,
    part: SessionAssistantPartView,
    id_hint: Option<Seq<char>>,
    turn_id: Seq<char>,
    stored: ModelIdentityView,
    live: Option<ModelIdentityView>,
) -> TailView {
    match part.type_ {
        SessionAssistantPartType::Text => {
            let t = or_empty(part.text);
            if t.len() == 0 {
                s
            } else {
                with_lines(s, item_lines(assistant_message(recovered_id(id_hint), t)))
            }
        },
        SessionAssistantPartType::Thinking => {
            let t = or_empty(part.thinking);
            let signature = real_signature(part.thinking_signature);
            if t.len() == 0 && signature is None {
                s
            } else {
                with_lines(
                    s,
                    item_lines(thought_item(recovered_id(id_hint), t, signature, stored, live)),
                )
            }
        },
        SessionAssistantPartType::ToolCall => {
            let call_id = or_empty(part.tool_call_id);
            let arguments = part_arguments(part);
            if part_tool(part) == "image_generation"@ {
                TailView {
                    pending: without_image(s.pending, call_id).push(
                        PendingImageView {
                            call_id,
                            revised_prompt: text_entry(arguments, "revisedPrompt"@),
                            turn_id,
                        },
                    ),
                    ..s
                }
            } else {
                let c = rebuilt_call(
                    part_tool(part),
                    call_id,
                    arguments,
                    id_hint,
                    kept_read(arguments),
                );
                with_lines(
                    TailView {
                        notes: s.notes + c.notes,
                        calls: if call_id.len() == 0 {
                            s.calls
                        } else {
                            s.calls.push(KnownCallView { call_id, kind: c.kind })
                        },
                        ..s
                    },
                    item_lines(c.item),
                )
            }
        },
    }
}

/// The tail with the usage of a message told.
pub open spec fn usage_told(s: TailView, ctx: TailContextView, id: Seq<char>) -> TailView {
    match usage_at(ctx.messages, ctx.rolled_back, id) {
        Some((total, last)) => with_event(
            s,
            EventMsgView::TokenCount { total_token_usage: total, last_token_usage: last },
        ),
        None => s,
    }
}

/// The source of part `k`.
pub open spec fn source_at(sources: Seq<SessionThreadViewEntrySourceView>, k: int) -> Option<
    SessionThreadViewEntrySourceView,
> {
    if 0 <= k < sources.len() {
        Some(sources[k])
    } else {
        None
    }
}

/// The message of a source.
pub open spec fn message_of_source(
    ctx: TailContextView,
    source: Option<SessionThreadViewEntrySourceView>,
) -> Option<MessageRecordView> {
    match source {
        Some(s) => message_of(ctx.messages, s.message_id),
        None => None,
    }
}

/// The identity of the message of a source.
pub open spec fn source_id(source: Option<SessionThreadViewEntrySourceView>) -> Option<Seq<char>> {
    match source {
        Some(s) => Some(s.message_id),
        None => None,
    }
}

/// The identity of the model that an assistant entry names.
pub open spec fn stored_identity(a: SessionAssistantMessageView) -> ModelIdentityView {
    ModelIdentityView { provider: a.provider, model: a.model, api: a.api }
}

/// The tail behind the first `n` parts of an assistant entry. Behind the last
/// part of a message its usage is told.
pub open spec fn parts_emitted(
    s: TailView,
    ctx: TailContextView,
    a: SessionAssistantMessageView,
    n: int,
) -> TailView
    decreases n,
{
    if n <= 0 {
        s
    } else {
        let before = parts_emitted(s, ctx, a, n - 1);
        let source = source_at(a.source_messages, n - 1);
        let msg = message_of_source(ctx, source);
        if msg is Some && ctx.rolled_back.contains(msg->0.turn_id) {
            before
        } else {
            let emitted = part_emitted(
                before,
                a.content[n - 1],
                host_id_of_source(source),
                match msg {
                    Some(m) => m.turn_id,
                    None => Seq::empty(),
                },
                stored_identity(a),
                ctx.live_identity,
            );
            if msg is Some && source_id(source) != source_id(source_at(a.source_messages, n)) {
                usage_told(emitted, ctx, msg->0.message_id)
            } else {
                emitted
            }
        }
    }
}

// ---------------------------------------------------------------------------
// Result entries
// ---------------------------------------------------------------------------

/// Whether a stored result says that it is an error, from block `i` on.
pub open spec fn error_in_blocks(blocks: Seq<BlockView>, i: int) -> Option<bool>
    decreases blocks.len() - i,
{
    if i < 0 || i >= blocks.len() {
        None
    } else if blocks[i].block_type == BlockType::ToolResult {
        match member(blocks[i].content, "isError"@) {
            Some(JsonView::Bool(b)) => Some(b),
            _ => None,
        }
    } else {
        error_in_blocks(blocks, i + 1)
    }
}

/// Whether a stored result says that it is an error.
pub open spec fn message_is_error(m: Option<MessageRecordView>) -> Option<bool> {
    match m {
        Some(x) => error_in_blocks(x.blocks, 0),
        None => None,
    }
}

fn stored_tool_is_error(m: &MessageRecord) -> (r: Option<bool>)
    ensures
        r == error_in_blocks(m@.blocks, 0),
{
    let ghost view = m.blocks.deep_view();
    let mut i: usize = 0;
    while i < m.blocks.len()
        invariant
            i <= m.blocks.len(),
            view == m.blocks.deep_view(),
            error_in_blocks(view, 0) == error_in_blocks(view, i as int),
        decreases m.blocks.len() - i,
    {
        assert(view[i as int] == m.blocks@[i as int]@);
        if m.blocks[i].block_type == BlockType::ToolResult {
            return match m.blocks[i].content.get("isError") {
                Some(Json::Bool(b)) => Some(*b),
                _ => None,
            };
        }
        i = i + 1;
    }
    None
}

/// The tail behind a result entry: an image is completed, any other result
/// becomes the output that it was.
pub open spec fn result_emitted(
    s: TailView,
    ctx: TailContextView,
    t: SessionToolResultMessageView,
    msg: Option<MessageRecordView>,
) -> TailView {
    let waiting = image_of_call(s.pending, t.tool_call_id);
    let emitted = if t.tool_name == Some("image_generation"@) || waiting is Some {
        with_lines(
            TailView { pending: without_image(s.pending, t.tool_call_id), ..s },
            item_lines(
                completed_image(
                    t.tool_call_id,
                    t.content,
                    match waiting {
                        Some(p) => p.revised_prompt,
                        None => None,
                    },
                    message_is_error(msg),
                    json_read(t.content),
                ),
            ),
        )
    } else {
        let c = rebuilt_result(
            t.tool_call_id,
            t.tool_name,
            t.content,
            match message_is_error(msg) {
                Some(b) => Some(b),
                None => t.is_error,
            },
            host_id_of_source(source_at(t.source_messages, 0)),
            kind_of_call(s.calls, t.tool_call_id),
            json_read(t.content),
        );
        with_lines(TailView { notes: s.notes + c.notes, ..s }, item_lines(c.item))
    };
    match msg {
        Some(m) => usage_told(emitted, ctx, m.message_id),
        None => emitted,
    }
}

// ---------------------------------------------------------------------------
// Entries
// ---------------------------------------------------------------------------

/// The tail with an entry put in; `None` when the entry shows nothing, and
/// then closes nothing.
pub open spec fn entry_emitted(
    s: TailView,
    ctx: TailContextView,
    entry: SessionThreadViewEntryView,
) -> (TailView, bool) {
    match entry {
        SessionThreadViewEntryView::Runtime(_) => (s, true),
        SessionThreadViewEntryView::Message(SessionThreadViewMessageView::User(u)) =>
        match user_lines(ctx, u) {
            Some(lines) => (with_lines(s, lines), true),
            None => (s, false),
        },
        SessionThreadViewEntryView::Message(SessionThreadViewMessageView::Assistant(a)) => (
            parts_emitted(s, ctx, a, a.content.len() as int),
            true,
        ),
        SessionThreadViewEntryView::Message(SessionThreadViewMessageView::ToolResult(t)) => {
            let msg = message_of_source(ctx, source_at(t.source_messages, 0));
            if msg is Some && ctx.rolled_back.contains(msg->0.turn_id) {
                (s, false)
            } else {
                (result_emitted(s, ctx, t, msg), true)
            }
        },
    }
}

/// The tail behind one entry.
pub open spec fn entry_step(
    s: TailView,
    ctx: TailContextView,
    entry: SessionThreadViewEntryView,
) -> TailView {
    if is_rolled_back_entry(ctx, entry) || is_marker_entry(entry) {
        s
    } else {
        let sources = sources_of(entry);
        let opened = sources_opened(s, ctx, sources, sources.len() as int);
        let (emitted, shown) = entry_emitted(opened, ctx, entry);
        if shown {
            sources_closed(emitted, ctx, sources, sources.len() as int)
        } else {
            emitted
        }
    }
}

/// The tail behind the entries `from` to `n`.
pub open spec fn entries_emitted(
    s: TailView,
    ctx: TailContextView,
    entries: Seq<SessionThreadViewEntryView>,
    from: int,
    n: int,
) -> TailView
    decreases n - from,
{
    if n <= from {
        s
    } else {
        entry_step(entries_emitted(s, ctx, entries, from, n - 1), ctx, entries[n - 1])
    }
}

/// The turns that are over and still open, among the first `n`.
pub open spec fn left_open(
    s: TailView,
    ctx: TailContextView,
    n: int,
) -> Seq<TurnRecordView>
    decreases n,
{
    if n <= 0 {
        Seq::empty()
    } else {
        let before = left_open(s, ctx, n - 1);
        let t = ctx.turns[n - 1];
        if t.status == TurnStatus::Closed && s.opened.contains(t.turn_id) && !s.closed.contains(
            t.turn_id,
        ) && !ctx.rolled_back.contains(t.turn_id) {
            before.push(t)
        } else {
            before
        }
    }
}

/// The tail at its end: images that no result answered, then the ends of turns
/// that are over.
pub open spec fn finished(s: TailView, ctx: TailContextView) -> TailView {
    let flushed = TailView {
        out: s.out + unanswered_lines(s.pending),
        pending: Seq::empty(),
        ..s
    };
    all_closed(flushed, ctx.names, left_open(flushed, ctx, ctx.turns.len() as int))
}

/// The whole tail: the entries from `from` on, and the end.
pub open spec fn whole_tail(
    s: TailView,
    ctx: TailContextView,
    entries: Seq<SessionThreadViewEntryView>,
    from: int,
) -> TailView {
    finished(entries_emitted(s, ctx, entries, from, entries.len() as int), ctx)
}

impl Tail {
    fn open_sources(&mut self, ctx: &TailContext, sources: &Vec<SessionThreadViewEntrySource>)
        ensures
            final(self)@ == sources_opened(
                old(self)@,
                ctx@,
                sources.deep_view(),
                sources.len() as int,
            ),
    {
        let ghost view = sources.deep_view();
        let ghost start = self@;
        let mut i: usize = 0;
        while i < sources.len()
            invariant
                i <= sources.len(),
                view == sources.deep_view(),
                self@ == sources_opened(start, ctx@, view, i as int),
            decreases sources.len() - i,
        {
            assert(view[i as int] == sources@[i as int]@);
            if let Some(m) = find_message(ctx.messages, sources[i].message_id.as_str()) {
                if !holds_text(ctx.rolled_back, m.turn_id.as_str()) {
                    self.open_turn(ctx, m.turn_id.as_str());
                }
            }
            i = i + 1;
        }
    }

    fn close_sources(&mut self, ctx: &TailContext, sources: &Vec<SessionThreadViewEntrySource>)
        ensures
            final(self)@ == sources_closed(
                old(self)@,
                ctx@,
                sources.deep_view(),
                sources.len() as int,
            ),
    {
        let ghost view = sources.deep_view();
        let ghost start = self@;
        let mut i: usize = 0;
        while i < sources.len()
            invariant
                i <= sources.len(),
                view == sources.deep_view(),
                self@ == sources_closed(start, ctx@, view, i as int),
            decreases sources.len() - i,
        {
            assert(view[i as int] == sources@[i as int]@);
            if let Some(m) = find_message(ctx.messages, sources[i].message_id.as_str()) {
                if !holds_text(ctx.rolled_back, m.turn_id.as_str()) {
                    self.close_behind(ctx, m);
                }
            }
            i = i + 1;
        }
    }

    fn emit_user(&mut self, ctx: &TailContext, u: &SessionUserMessage) -> (shown: bool)
        ensures
            match user_lines(ctx@, u@) {
                Some(lines) => shown && final(self)@ == with_lines(old(self)@, lines),
                None => !shown && final(self)@ == old(self)@,
            },
    {
        let ghost start = self@;
        if let Some(t) = find_note_text(ctx, &u.source_messages) {
            if is_blank(t.as_str()) {
                return false;
            }
            let item = user_text_message(t.as_str());
            let ghost view = item@;
            push_line(&mut self.out, RolloutItem::ResponseItem(item));
            assert(self@ =~= with_lines(start, seq![RolloutItemView::ResponseItem(view)]));
            return true;
        }
        if is_blank(u.content.as_str()) {
            return false;
        }
        let mut said = u.content.clone();
        if u.source_messages.len() > 0 {
            assert(u@.source_messages[0] == u.source_messages@[0]@);
            if let Some(m) = find_message(ctx.messages, u.source_messages[0].message_id.as_str()) {
                let t = stored_text(m);
                if !is_blank(t.as_str()) {
                    said = t;
                }
            }
        }
        push_response_with_twins(user_text_message(said.as_str()), &mut self.out);
        assert(self@ =~= with_lines(start, item_lines(user_message(user_text(ctx@, u@)))));
        true
    }

    fn tell_usage(&mut self, ctx: &TailContext, id: &str)
        requires
            usage_fits(ctx@.messages, ctx@.rolled_back),
        ensures
            final(self)@ == usage_told(old(self)@, ctx@, id@),
    {
        if let Some((total, last)) = cumulative_usage_at(ctx.messages, ctx.rolled_back, id) {
            push_line(
                &mut self.out,
                RolloutItem::EventMsg(
                    EventMsg::TokenCount { total_token_usage: total, last_token_usage: last },
                ),
            );
        }
    }

    /// Puts one part of an assistant entry in.
    fn reverse_assistant_part(
        &mut self,
        part: &SessionAssistantPart,
        id_hint: &Option<String>,
        turn_id: &str,
        stored: &ModelIdentity,
        live: &Option<ModelIdentity>,
    )
        ensures
            final(self)@ == part_emitted(
                old(self)@,
                part@,
                id_hint.deep_view(),
                turn_id@,
                stored@,
                live.deep_view(),
            ),
    {
        let ghost start = self@;
        match part.type_ {
            SessionAssistantPartType::Text => {
                let t = text_or_empty(&part.text);
                if is_blank(t.as_str()) {
                    return ;
                }
                let id = match id_hint {
                    Some(i) => crate::host_ids::sanitize_id(i.as_str()),
                    None => None,
                };
                push_response_with_twins(assistant_text_message(id, t.as_str()), &mut self.out);
            },
            SessionAssistantPartType::Thinking => {
                let t = text_or_empty(&part.thinking);
                let signature = match &part.thinking_signature {
                    Some(s) => if is_blank(s.as_str()) {
                        None
                    } else {
                        Some(s.clone())
                    },
                    None => None,
                };
                if is_blank(t.as_str()) && signature.is_none() {
                    return ;
                }
                let id = match id_hint {
                    Some(i) => crate::host_ids::sanitize_id(i.as_str()),
                    None => None,
                };
                push_response_with_twins(
                    make_thought(id, t.as_str(), signature, stored, live),
                    &mut self.out,
                );
            },
            SessionAssistantPartType::ToolCall => {
                let call_id = text_or_empty(&part.tool_call_id);
                let name = match &part.tool_name {
                    Some(n) => n.clone(),
                    None => text("tool"),
                };
                let arguments = copy_arguments(part);
                if text_eq(name.as_str(), "image_generation") {
                    let revised_prompt = match get_text(&arguments, "revisedPrompt") {
                        Some(s) => Some(s.clone()),
                        None => None,
                    };
                    let mut pending = drop_image(&self.pending, call_id.as_str());
                    let ghost before = pending.deep_view();
                    let image = PendingImage { call_id, revised_prompt, turn_id: text(turn_id) };
                    let ghost view = image@;
                    pending.push(image);
                    assert(pending.deep_view() =~= before.push(view));
                    self.pending = pending;
                    return ;
                }
                let (item, kind) = reverse_tool_call(
                    name.as_str(),
                    call_id.as_str(),
                    &arguments,
                    id_hint,
                    &mut self.notes,
                );
                if !is_blank(call_id.as_str()) {
                    let ghost before = self.calls.deep_view();
                    let call = KnownCall { call_id, kind };
                    let ghost view = call@;
                    self.calls.push(call);
                    assert(self.calls.deep_view() =~= before.push(view));
                }
                push_response_with_twins(item, &mut self.out);
            },
        }
    }

    fn emit_assistant(&mut self, ctx: &TailContext, a: &SessionAssistantMessage)
        requires
            usage_fits(ctx@.messages, ctx@.rolled_back),
        ensures
            final(self)@ == parts_emitted(old(self)@, ctx@, a@, a.content.len() as int),
    {
        let ghost start = self@;
        let ghost view = a@;
        let stored = ModelIdentity {
            provider: a.provider.clone(),
            model: a.model.clone(),
            api: a.api.clone(),
        };
        let mut i: usize = 0;
        while i < a.content.len()
            invariant
                i <= a.content.len(),
                view == a@,
                stored@ == stored_identity(view),
                usage_fits(ctx@.messages, ctx@.rolled_back),
                self@ == parts_emitted(start, ctx@, view, i as int),
            decreases a.content.len() - i,
        {
            assert(view.content[i as int] == a.content@[i as int]@);
            let source: Option<&SessionThreadViewEntrySource> = if i < a.source_messages.len() {
                assert(view.source_messages[i as int] == a.source_messages@[i as int]@);
                Some(&a.source_messages[i])
            } else {
                None
            };
            assert(source.deep_view() == source_at(view.source_messages, i as int));
            let msg = match source {
                Some(s) => find_message(ctx.messages, s.message_id.as_str()),
                None => None,
            };
            let gone = match msg {
                Some(m) => holds_text(ctx.rolled_back, m.turn_id.as_str()),
                None => false,
            };
            if !gone {
                let id_hint = read_host_id(source);
                let turn_id = match msg {
                    Some(m) => m.turn_id.clone(),
                    None => String::new(),
                };
                assert(turn_id@ =~= (match message_of_source(ctx@, source.deep_view()) {
                    Some(m) => m.turn_id,
                    None => Seq::empty(),
                }));
                self.reverse_assistant_part(
                    &a.content[i],
                    &id_hint,
                    turn_id.as_str(),
                    &stored,
                    ctx.live_identity,
                );
                if let Some(m) = msg {
                    let last_of_message = if i + 1 < a.source_messages.len() {
                        assert(view.source_messages[i + 1] == a.source_messages@[i + 1]@);
                        match source {
                            Some(s) => !text_eq(
                                s.message_id.as_str(),
                                a.source_messages[i + 1].message_id.as_str(),
                            ),
                            None => true,
                        }
                    } else {
                        true
                    };
                    if last_of_message {
                        self.tell_usage(ctx, m.message_id.as_str());
                    }
                }
            }
            i = i + 1;
        }
    }

    fn emit_result(
        &mut self,
        ctx: &TailContext,
        t: &SessionToolResultMessage,
        msg: Option<&MessageRecord>,
    )
        requires
            usage_fits(ctx@.messages, ctx@.rolled_back),
        ensures
            final(self)@ == result_emitted(old(self)@, ctx@, t@, msg.deep_view()),
    {
        let ghost start = self@;
        let is_error = match msg {
            Some(m) => stored_tool_is_error(m),
            None => None,
        };
        let named = match &t.tool_name {
            Some(n) => text_eq(n.as_str(), "image_generation"),
            None => false,
        };
        let (waits, prompt) = match find_image(&self.pending, t.tool_call_id.as_str()) {
            Some(p) => (true, p.revised_prompt.clone()),
            None => (false, None),
        };
        if named || waits {
            let rest = drop_image(&self.pending, t.tool_call_id.as_str());
            self.pending = rest;
            let item = complete_image_generation(
                t.tool_call_id.as_str(),
                t.content.as_str(),
                prompt,
                is_error,
            );
            push_response_with_twins(item, &mut self.out);
        } else {
            let failed = match is_error {
                Some(b) => Some(b),
                None => t.is_error,
            };
            let source: Option<&SessionThreadViewEntrySource> = if t.source_messages.len() > 0 {
                assert(t@.source_messages[0] == t.source_messages@[0]@);
                Some(&t.source_messages[0])
            } else {
                None
            };
            let id_hint = read_host_id(source);
            let kind = find_kind(&self.calls, t.tool_call_id.as_str());
            let item = reverse_tool_result(
                t.tool_call_id.as_str(),
                &t.tool_name,
                t.content.as_str(),
                failed,
                &id_hint,
                kind,
                &mut self.notes,
            );
            push_response_with_twins(item, &mut self.out);
        }
        if let Some(m) = msg {
            self.tell_usage(ctx, m.message_id.as_str());
        }
    }

    fn emit_entry(&mut self, ctx: &TailContext, entry: &SessionThreadViewEntry)
        requires
            usage_fits(ctx@.messages, ctx@.rolled_back),
        ensures
            final(self)@ == entry_step(old(self)@, ctx@, entry@),
    {
        if entry_belongs_to_rolled_back(ctx, entry) || entry_is_fork_compact_marker(entry) {
            return ;
        }
        let sources = entry_sources(entry);
        self.open_sources(ctx, sources);
        let shown = match entry {
            SessionThreadViewEntry::Runtime(_) => true,
            SessionThreadViewEntry::Message(SessionThreadViewMessage::User(u)) => self.emit_user(
                ctx,
                u,
            ),
            SessionThreadViewEntry::Message(SessionThreadViewMessage::Assistant(a)) => {
                self.emit_assistant(ctx, a);
                true
            },
            SessionThreadViewEntry::Message(SessionThreadViewMessage::ToolResult(t)) => {
                let msg = if t.source_messages.len() > 0 {
                    assert(t@.source_messages[0] == t.source_messages@[0]@);
                    find_message(ctx.messages, t.source_messages[0].message_id.as_str())
                } else {
                    None
                };
                let gone = match msg {
                    Some(m) => holds_text(ctx.rolled_back, m.turn_id.as_str()),
                    None => false,
                };
                if gone {
                    false
                } else {
                    self.emit_result(ctx, t, msg);
                    true
                }
            },
        };
        if shown {
            self.close_sources(ctx, sources);
        }
    }

    fn finish(&mut self, ctx: &TailContext)
        ensures
            final(self)@ == finished(old(self)@, ctx@),
    {
        push_unanswered(&self.pending, &mut self.out);
        self.pending = Vec::new();
        assert(self.pending.deep_view() =~= Seq::<PendingImageView>::empty());
        let ghost flushed = self@;
        let ghost turns = ctx@.turns;
        let mut rest: Vec<TurnRecord> = Vec::new();
        assert(rest.deep_view() =~= Seq::<TurnRecordView>::empty());
        let mut i: usize = 0;
        while i < ctx.turns.len()
            invariant
                i <= ctx.turns.len(),
                turns == ctx@.turns,
                self@ == flushed,
                rest.deep_view() == left_open(flushed, ctx@, i as int),
            decreases ctx.turns.len() - i,
        {
            let ghost before = rest.deep_view();
            let t = &ctx.turns[i];
            assert(turns[i as int] == t@);
            if t.status == TurnStatus::Closed && holds_text(&self.opened, t.turn_id.as_str())
                && !holds_text(&self.closed, t.turn_id.as_str()) && !holds_text(
                ctx.rolled_back,
                t.turn_id.as_str(),
            ) {
                rest.push(t.clone());
                assert(rest.deep_view() =~= before.push(t@));
            }
            i = i + 1;
        }
        self.close_all(&rest, ctx.names);
    }

    /// Puts the entries from `from` on in, and ends the tail.
    pub fn emit_tail(
        &mut self,
        ctx: &TailContext,
        entries: &Vec<SessionThreadViewEntry>,
        from: usize,
    )
        requires
            from <= entries.len(),
            usage_fits(ctx@.messages, ctx@.rolled_back),
        ensures
            final(self)@ == whole_tail(old(self)@, ctx@, entries.deep_view(), from as int),
    {
        let ghost view = entries.deep_view();
        let ghost start = self@;
        let mut i: usize = from;
        while i < entries.len()
            invariant
                from <= i <= entries.len(),
                view == entries.deep_view(),
                usage_fits(ctx@.messages, ctx@.rolled_back),
                self@ == entries_emitted(start, ctx@, view, from as int, i as int),
            decreases entries.len() - i,
        {
            assert(view[i as int] == entries@[i as int]@);
            self.emit_entry(ctx, &entries[i]);
            i = i + 1;
        }
        self.finish(ctx);
    }
}

} // verus!
