//! Rollouts rebuilt from what the store shows of a thread.
//!
//! A rebuilt rollout opens with the session, the settings and the goal that
//! stand, and the first prompt of the user as it is displayed. Then comes the
//! compacted history as plain text, one boundary record that holds the same
//! history again, the world state, the mark of the compact and the turn
//! context. Behind the boundary the tail is native: tool calls keep their
//! identities, results stand with their calls, and reasoning keeps its
//! signature where the same model runs. What only the old rollout knows is
//! carried over; a rollback is applied by leaving the turns out.

use vstd::prelude::*;
use vstd::string::*;

use crate::host_ids::is_blank;
use crate::host_turn_ids::{
    has_turn_id, is_one_to_one, shown_name, shown_names_differ, HostTurnIds, TurnIdPairView,
};
use crate::json::{Json, JsonView};
use crate::mapping::{ModelIdentity, ModelIdentityView};
use crate::protocol::{ResponseItem, ResponseItemView};
use crate::records::{
    MessageKind, MessageRecord, MessageRecordView, TurnRecord, TurnRecordView, TurnStatus,
};
use crate::reverse::{push_line, user_message, user_text_message};
use crate::rollback::{rolled_back, rolled_back_turn_ids, stored_text, text_of_message};
use crate::rollout::{
    CompactedItem, CompactedItemView, CompletedItem, EventMsg, EventMsgView, RolloutItem,
    RolloutItemView,
};
use crate::tail::{is_over, started, whole_tail, Tail, TailContext, TailContextView, TailView};
use crate::tail_laws::{
    is_name_of_closed, is_of_closed_turn, is_sound, is_tail_line, started_turns_are_ended,
    turn_ended_by, turn_started_by, turns_differ, whole_tail_goes_on, whole_tail_is_sound,
};
use crate::text::text;
use crate::thread_view::{
    SessionThreadViewEntry, SessionThreadViewEntryView, SessionThreadViewMessage,
    SessionThreadViewMessageView,
};
use crate::usage::{usage_fits, usage_totals_fit};

verus! {

/// What the boundary record says.
#[derive(Debug, PartialEq, Eq)]
pub struct CompactBoundaryMeta {
    pub message: String,
    pub window_number: u64,
    pub first_window_id: String,
    pub previous_window_id: Option<String>,
    pub window_id: String,
}

/// What a [`CompactBoundaryMeta`] stands for.
#[verifier::ext_equal]
pub struct CompactBoundaryMetaView {
    pub message: Seq<char>,
    pub window_number: u64,
    pub first_window_id: Seq<char>,
    pub previous_window_id: Option<Seq<char>>,
    pub window_id: Seq<char>,
}

impl View for CompactBoundaryMeta {
    type V = CompactBoundaryMetaView;

    open spec fn view(&self) -> CompactBoundaryMetaView {
        CompactBoundaryMetaView {
            message: self.message@,
            window_number: self.window_number,
            first_window_id: self.first_window_id@,
            previous_window_id: self.previous_window_id.deep_view(),
            window_id: self.window_id@,
        }
    }
}

/// What a rollout is rebuilt from.
#[derive(Debug)]
pub struct MaterializeInput {
    pub session_meta: Json,
    pub entries: Vec<SessionThreadViewEntry>,
    pub messages: Vec<MessageRecord>,
    pub turns: Vec<TurnRecord>,
    /// The host's names of turns.
    pub host_turn_ids: HostTurnIds,
    /// The rollout so far.
    pub prior_generation: Vec<RolloutItem>,
    pub boundary: CompactBoundaryMeta,
    pub world_state: Option<Json>,
    pub turn_context: Option<Json>,
    /// What a guardian had seen of the history when it was compacted.
    pub guardian_history: Option<Json>,
    /// The model that the session runs on now.
    pub live_identity: Option<ModelIdentity>,
}

/// What a [`MaterializeInput`] stands for.
#[verifier::ext_equal]
pub struct MaterializeInputView {
    pub session_meta: JsonView,
    pub entries: Seq<SessionThreadViewEntryView>,
    pub messages: Seq<MessageRecordView>,
    pub turns: Seq<TurnRecordView>,
    pub host_turn_ids: Seq<TurnIdPairView>,
    pub prior_generation: Seq<RolloutItemView>,
    pub boundary: CompactBoundaryMetaView,
    pub world_state: Option<JsonView>,
    pub turn_context: Option<JsonView>,
    pub guardian_history: Option<JsonView>,
    pub live_identity: Option<ModelIdentityView>,
}

impl View for MaterializeInput {
    type V = MaterializeInputView;

    open spec fn view(&self) -> MaterializeInputView {
        MaterializeInputView {
            session_meta: self.session_meta@,
            entries: self.entries.deep_view(),
            messages: self.messages.deep_view(),
            turns: self.turns.deep_view(),
            host_turn_ids: self.host_turn_ids@,
            prior_generation: self.prior_generation.deep_view(),
            boundary: self.boundary@,
            world_state: self.world_state.deep_view(),
            turn_context: self.turn_context.deep_view(),
            guardian_history: self.guardian_history.deep_view(),
            live_identity: self.live_identity.deep_view(),
        }
    }
}

/// A rebuilt rollout, and what is to be said of it.
#[derive(Debug)]
pub struct MaterializeResult {
    pub items: Vec<RolloutItem>,
    pub gap_notes: Vec<String>,
}

/// What a [`MaterializeResult`] stands for.
#[verifier::ext_equal]
pub struct MaterializeResultView {
    pub items: Seq<RolloutItemView>,
    pub gap_notes: Seq<Seq<char>>,
}

impl View for MaterializeResult {
    type V = MaterializeResultView;

    open spec fn view(&self) -> MaterializeResultView {
        MaterializeResultView {
            items: self.items.deep_view(),
            gap_notes: self.gap_notes.deep_view(),
        }
    }
}

// ---------------------------------------------------------------------------
// Head
// ---------------------------------------------------------------------------

/// The earliest prompt of the user among the first `n` messages.
pub open spec fn first_prompt(messages: Seq<MessageRecordView>, n: int) -> Option<int>
    decreases n,
{
    if n <= 0 {
        None
    } else {
        let before = first_prompt(messages, n - 1);
        if messages[n - 1].kind != MessageKind::UserPrompt {
            before
        } else {
            match before {
                Some(k) => if messages[n - 1].source_event_order < messages[k].source_event_order {
                    Some(n - 1)
                } else {
                    before
                },
                None => Some(n - 1),
            }
        }
    }
}

/// The text of the earliest prompt of the user.
pub open spec fn first_prompt_text(messages: Seq<MessageRecordView>) -> Option<Seq<char>> {
    match first_prompt(messages, messages.len() as int) {
        Some(k) => Some(text_of_message(messages[k])),
        None => None,
    }
}

fn first_user_prompt_text(messages: &Vec<MessageRecord>) -> (r: Option<String>)
    ensures
        r.deep_view() == first_prompt_text(messages.deep_view()),
{
    let ghost view = messages.deep_view();
    let mut best: Option<usize> = None;
    let mut i: usize = 0;
    while i < messages.len()
        invariant
            i <= messages.len(),
            view == messages.deep_view(),
            match best {
                Some(k) => k < i && first_prompt(view, i as int) == Some(k as int),
                None => first_prompt(view, i as int) is None,
            },
        decreases messages.len() - i,
    {
        assert(view[i as int] == messages@[i as int]@);
        if messages[i].kind == MessageKind::UserPrompt {
            let earlier = match best {
                Some(k) => {
                    assert(view[k as int] == messages@[k as int]@);
                    messages[i].source_event_order < messages[k].source_event_order
                },
                None => true,
            };
            if earlier {
                best = Some(i);
            }
        }
        i = i + 1;
    }
    match best {
        Some(k) => {
            assert(view[k as int] == messages@[k as int]@);
            Some(stored_text(&messages[k]))
        },
        None => None,
    }
}

/// The entry is compacted history: it has no source of its own.
pub open spec fn is_band(entry: SessionThreadViewEntryView) -> bool {
    match entry {
        SessionThreadViewEntryView::Message(SessionThreadViewMessageView::User(u)) =>
            u.source_messages.len() == 0,
        _ => false,
    }
}

fn is_band_entry(entry: &SessionThreadViewEntry) -> (r: bool)
    ensures
        r == is_band(entry@),
{
    match entry {
        SessionThreadViewEntry::Message(SessionThreadViewMessage::User(u)) => {
            assert(u@.source_messages.len() == u.source_messages.len());
            u.source_messages.len() == 0
        },
        _ => false,
    }
}

/// Where the tail begins, from entry `i` on: behind the compacted history.
pub open spec fn tail_start(entries: Seq<SessionThreadViewEntryView>, i: int) -> int
    decreases entries.len() - i,
{
    if i < 0 || i >= entries.len() {
        entries.len() as int
    } else if is_band(entries[i]) {
        tail_start(entries, i + 1)
    } else {
        i
    }
}

fn find_tail_start(entries: &Vec<SessionThreadViewEntry>) -> (r: usize)
    ensures
        r == tail_start(entries.deep_view(), 0),
        r <= entries.len(),
{
    let ghost view = entries.deep_view();
    let mut i: usize = 0;
    while i < entries.len()
        invariant
            i <= entries.len(),
            view == entries.deep_view(),
            tail_start(view, 0) == tail_start(view, i as int),
        decreases entries.len() - i,
    {
        assert(view[i as int] == entries@[i as int]@);
        if !is_band_entry(&entries[i]) {
            return i;
        }
        i = i + 1;
    }
    i
}

/// The text of an entry that the user made.
pub open spec fn band_text(entry: SessionThreadViewEntryView) -> Seq<char> {
    match entry {
        SessionThreadViewEntryView::Message(SessionThreadViewMessageView::User(u)) => u.content,
        _ => Seq::empty(),
    }
}

/// The compacted history of the first `n` entries, as items.
pub open spec fn band_items(entries: Seq<SessionThreadViewEntryView>, n: int) -> Seq<
    ResponseItemView,
>
    decreases n,
{
    if n <= 0 {
        Seq::empty()
    } else if band_text(entries[n - 1]).len() == 0 {
        band_items(entries, n - 1)
    } else {
        band_items(entries, n - 1).push(user_message(band_text(entries[n - 1])))
    }
}

/// Items as lines.
pub open spec fn as_lines(items: Seq<ResponseItemView>) -> Seq<RolloutItemView> {
    items.map_values(|item: ResponseItemView| RolloutItemView::ResponseItem(item))
}

fn emit_bands(
    entries: &Vec<SessionThreadViewEntry>,
    n: usize,
    out: &mut Vec<RolloutItem>,
) -> (r: Vec<ResponseItem>)
    requires
        n <= entries.len(),
    ensures
        r.deep_view() == band_items(entries.deep_view(), n as int),
        final(out).deep_view() == old(out).deep_view() + as_lines(
            band_items(entries.deep_view(), n as int),
        ),
{
    let ghost view = entries.deep_view();
    let ghost start = out.deep_view();
    let mut items: Vec<ResponseItem> = Vec::new();
    assert(items.deep_view() =~= Seq::<ResponseItemView>::empty());
    assert(start + as_lines(Seq::empty()) =~= start);
    let mut i: usize = 0;
    while i < n
        invariant
            i <= n <= entries.len(),
            view == entries.deep_view(),
            items.deep_view() == band_items(view, i as int),
            out.deep_view() == start + as_lines(items.deep_view()),
        decreases n - i,
    {
        let ghost before = items.deep_view();
        assert(view[i as int] == entries@[i as int]@);
        if let SessionThreadViewEntry::Message(SessionThreadViewMessage::User(u)) = &entries[i] {
            if !is_blank(u.content.as_str()) {
                let item = user_text_message(u.content.as_str());
                let ghost item_view = item@;
                push_line(out, RolloutItem::ResponseItem(item.clone()));
                items.push(item);
                assert(items.deep_view() =~= before.push(item_view));
                assert(start + as_lines(before.push(item_view)) =~= (start + as_lines(
                    before,
                )).push(RolloutItemView::ResponseItem(item_view)));
            }
        }
        i = i + 1;
    }
    items
}

// ---------------------------------------------------------------------------
// Carried lines
// ---------------------------------------------------------------------------

/// The line tells the settings or the goal of the thread.
pub open spec fn is_settings_or_goal(line: RolloutItemView) -> bool {
    match line {
        RolloutItemView::EventMsg(e) => e is ThreadSettingsApplied || e is ThreadGoalUpdated,
        _ => false,
    }
}

/// The line tells something that only a rollout knows. A rollback is not
/// carried: it was applied.
pub open spec fn is_carried_end(line: RolloutItemView) -> bool {
    match line {
        RolloutItemView::EventMsg(e) => match e {
            EventMsgView::EnteredReviewMode(_) => true,
            EventMsgView::ExitedReviewMode(_) => true,
            EventMsgView::PatchApplyEnd(_) => true,
            EventMsgView::McpToolCallEnd(_) => true,
            EventMsgView::SubAgentActivity(_) => true,
            EventMsgView::ItemCompleted { item, .. } => item == CompletedItem::Plan || item
                == CompletedItem::Extension,
            _ => false,
        },
        RolloutItemView::InterAgentCommunication(_) => true,
        RolloutItemView::InterAgentCommunicationMetadata(_) => true,
        _ => false,
    }
}

/// The lines among the first `n` that are carried: the settings and the goal,
/// or the rest.
pub open spec fn carried(prior: Seq<RolloutItemView>, n: int, settings: bool) -> Seq<
    RolloutItemView,
>
    decreases n,
{
    if n <= 0 {
        Seq::empty()
    } else {
        let before = carried(prior, n - 1, settings);
        if (settings && is_settings_or_goal(prior[n - 1])) || (!settings && is_carried_end(
            prior[n - 1],
        )) {
            before.push(prior[n - 1])
        } else {
            before
        }
    }
}

fn is_carried(line: &RolloutItem, settings: bool) -> (r: bool)
    ensures
        r == ((settings && is_settings_or_goal(line@)) || (!settings && is_carried_end(line@))),
{
    match line {
        RolloutItem::EventMsg(e) => match e {
            EventMsg::ThreadSettingsApplied(_) => settings,
            EventMsg::ThreadGoalUpdated(_) => settings,
            EventMsg::EnteredReviewMode(_) => !settings,
            EventMsg::ExitedReviewMode(_) => !settings,
            EventMsg::PatchApplyEnd(_) => !settings,
            EventMsg::McpToolCallEnd(_) => !settings,
            EventMsg::SubAgentActivity(_) => !settings,
            EventMsg::ItemCompleted { item, .. } => !settings && (*item == CompletedItem::Plan
                || *item == CompletedItem::Extension),
            _ => false,
        },
        RolloutItem::InterAgentCommunication(_) => !settings,
        RolloutItem::InterAgentCommunicationMetadata(_) => !settings,
        _ => false,
    }
}

fn push_carried(prior: &Vec<RolloutItem>, settings: bool, out: &mut Vec<RolloutItem>)
    ensures
        final(out).deep_view() == old(out).deep_view() + carried(
            prior.deep_view(),
            prior.len() as int,
            settings,
        ),
{
    let ghost view = prior.deep_view();
    let ghost start = out.deep_view();
    let mut i: usize = 0;
    assert(start + carried(view, 0, settings) =~= start);
    while i < prior.len()
        invariant
            i <= prior.len(),
            view == prior.deep_view(),
            out.deep_view() == start + carried(view, i as int, settings),
        decreases prior.len() - i,
    {
        assert(view[i as int] == prior@[i as int]@);
        if is_carried(&prior[i], settings) {
            push_line(out, prior[i].clone());
        }
        i = i + 1;
        assert(out.deep_view() =~= start + carried(view, i as int, settings));
    }
}

// ---------------------------------------------------------------------------
// The whole
// ---------------------------------------------------------------------------

/// What is said when the world state cannot be kept.
pub open spec fn world_state_note(state: Option<JsonView>) -> Seq<Seq<char>> {
    match state {
        Some(JsonView::Object(_)) => Seq::empty(),
        Some(_) => seq!["world_state snapshot was not an object; omitted from rebuilt rollout"@],
        None => Seq::empty(),
    }
}

/// The line of the world state.
pub open spec fn world_state_line(state: Option<JsonView>) -> Seq<RolloutItemView> {
    match state {
        Some(JsonView::Object(e)) => seq![RolloutItemView::WorldState(JsonView::Object(e))],
        _ => Seq::empty(),
    }
}

/// The first prompt as it is displayed.
pub open spec fn first_prompt_line(messages: Seq<MessageRecordView>) -> Seq<RolloutItemView> {
    match first_prompt_text(messages) {
        Some(t) => seq![RolloutItemView::EventMsg(EventMsgView::UserMessage { message: t })],
        None => Seq::empty(),
    }
}

/// The turn context.
pub open spec fn context_line(context: Option<JsonView>) -> Seq<RolloutItemView> {
    match context {
        Some(j) => seq![RolloutItemView::TurnContext(j)],
        None => Seq::empty(),
    }
}

/// The boundary record.
pub open spec fn boundary_record(
    b: CompactBoundaryMetaView,
    history: Seq<ResponseItemView>,
    guardian: Option<JsonView>,
) -> CompactedItemView {
    CompactedItemView {
        message: b.message,
        replacement_history: Some(history),
        window_number: Some(b.window_number),
        first_window_id: Some(b.first_window_id),
        previous_window_id: b.previous_window_id,
        window_id: Some(b.window_id),
        guardian_history: guardian,
    }
}

/// The compacted history of a view.
pub open spec fn history_of(input: MaterializeInputView) -> Seq<ResponseItemView> {
    band_items(input.entries, tail_start(input.entries, 0))
}

/// The boundary record of a rebuilt rollout.
pub open spec fn record_of(input: MaterializeInputView) -> CompactedItemView {
    boundary_record(input.boundary, history_of(input), input.guardian_history)
}

/// The lines before the boundary.
pub open spec fn lines_before_boundary(input: MaterializeInputView) -> Seq<RolloutItemView> {
    seq![RolloutItemView::SessionMeta(input.session_meta)] + carried(
        input.prior_generation,
        input.prior_generation.len() as int,
        true,
    ) + first_prompt_line(input.messages) + as_lines(history_of(input))
}

/// The lines from the boundary to the tail.
pub open spec fn boundary_lines(input: MaterializeInputView) -> Seq<RolloutItemView> {
    seq![RolloutItemView::Compacted(record_of(input))]
        + world_state_line(input.world_state) + seq![
        RolloutItemView::EventMsg(EventMsgView::ContextCompacted),
    ] + context_line(input.turn_context)
}

/// The lines before the tail.
pub open spec fn head_lines(input: MaterializeInputView) -> Seq<RolloutItemView> {
    lines_before_boundary(input) + boundary_lines(input)
}

/// What the tail is rebuilt from.
pub open spec fn tail_context(input: MaterializeInputView) -> TailContextView {
    TailContextView {
        messages: input.messages,
        turns: input.turns,
        rolled_back: rolled_back(input.prior_generation, input.messages, input.turns).turns,
        names: input.host_turn_ids,
        live_identity: input.live_identity,
    }
}

/// The tail behind the head.
pub open spec fn rebuilt_tail(input: MaterializeInputView) -> TailView {
    whole_tail(
        started(
            head_lines(input),
            rolled_back(input.prior_generation, input.messages, input.turns).notes
                + world_state_note(input.world_state),
        ),
        tail_context(input),
        input.entries,
        tail_start(input.entries, 0),
    )
}

/// The rebuilt rollout.
pub open spec fn materialized(input: MaterializeInputView) -> MaterializeResultView {
    MaterializeResultView {
        items: rebuilt_tail(input).out + carried(
            input.prior_generation,
            input.prior_generation.len() as int,
            false,
        ),
        gap_notes: rebuilt_tail(input).notes,
    }
}

/// The tokens that the thread has used can be told.
pub open spec fn usage_can_be_told(input: MaterializeInputView) -> bool {
    usage_fits(input.messages, tail_context(input).rolled_back)
}

/// Whether the tokens that the thread has used can be told.
pub fn can_tell_usage(input: &MaterializeInput) -> (r: bool)
    ensures
        r == usage_can_be_told(input@),
{
    let (excluded, _) = rolled_back_turn_ids(
        &input.prior_generation,
        &input.messages,
        &input.turns,
    );
    usage_totals_fit(&input.messages, &excluded)
}

/// Rebuilds a rollout.
pub fn materialize_rollout(input: &MaterializeInput) -> (r: MaterializeResult)
    requires
        usage_can_be_told(input@),
    ensures
        r@ == materialized(input@),
{
    let ghost view = input@;
    let (excluded, mut notes) = rolled_back_turn_ids(
        &input.prior_generation,
        &input.messages,
        &input.turns,
    );
    let start: usize = find_tail_start(&input.entries);
    let mut out: Vec<RolloutItem> = Vec::new();
    assert(out.deep_view() =~= Seq::<RolloutItemView>::empty());
    push_line(&mut out, RolloutItem::SessionMeta(input.session_meta.clone()));
    assert(out.deep_view() =~= seq![RolloutItemView::SessionMeta(view.session_meta)]);
    push_carried(&input.prior_generation, true, &mut out);
    let ghost settled = out.deep_view();
    if let Some(first) = first_user_prompt_text(&input.messages) {
        push_line(&mut out, RolloutItem::EventMsg(EventMsg::UserMessage { message: first }));
    }
    assert(out.deep_view() =~= settled + first_prompt_line(view.messages));
    let history = emit_bands(&input.entries, start, &mut out);
    assert(out.deep_view() =~= lines_before_boundary(view));
    let record = CompactedItem {
        message: input.boundary.message.clone(),
        replacement_history: Some(history),
        window_number: Some(input.boundary.window_number),
        first_window_id: Some(input.boundary.first_window_id.clone()),
        previous_window_id: input.boundary.previous_window_id.clone(),
        window_id: Some(input.boundary.window_id.clone()),
        guardian_history: input.guardian_history.clone(),
    };
    assert(record@ == record_of(view));
    push_line(&mut out, RolloutItem::Compacted(record));
    let ghost bounded = out.deep_view();
    let ghost noted = notes.deep_view();
    match &input.world_state {
        Some(state) => match state {
            Json::Object(_) => {
                push_line(&mut out, RolloutItem::WorldState(state.clone()));
            },
            _ => {
                let said = text(
                    "world_state snapshot was not an object; omitted from rebuilt rollout",
                );
                let ghost said_view = said@;
                notes.push(said);
                assert(notes.deep_view() =~= noted.push(said_view));
            },
        },
        None => {},
    }
    assert(out.deep_view() =~= bounded + world_state_line(view.world_state));
    assert(notes.deep_view() =~= noted + world_state_note(view.world_state));
    push_line(&mut out, RolloutItem::EventMsg(EventMsg::ContextCompacted));
    let ghost marked = out.deep_view();
    if let Some(context) = &input.turn_context {
        push_line(&mut out, RolloutItem::TurnContext(context.clone()));
    }
    assert(out.deep_view() =~= marked + context_line(view.turn_context));
    assert(out.deep_view() =~= head_lines(view));
    let ctx = TailContext {
        messages: &input.messages,
        turns: &input.turns,
        rolled_back: &excluded,
        names: &input.host_turn_ids,
        live_identity: &input.live_identity,
    };
    assert(ctx@ =~= tail_context(view));
    let mut tail = Tail::new(out, notes);
    tail.emit_tail(&ctx, &input.entries, start);
    let mut items = tail.out;
    push_carried(&input.prior_generation, false, &mut items);
    MaterializeResult { items, gap_notes: tail.notes }
}

/// Rebuilds a rollout where the tokens that the thread has used can be told.
pub fn try_materialize_rollout(input: &MaterializeInput) -> (r: Option<MaterializeResult>)
    ensures
        match r {
            Some(m) => usage_can_be_told(input@) && m@ == materialized(input@),
            None => !usage_can_be_told(input@),
        },
{
    if can_tell_usage(input) {
        Some(materialize_rollout(input))
    } else {
        None
    }
}

// ---------------------------------------------------------------------------
// Inspection
// ---------------------------------------------------------------------------

/// The boundary records among some lines.
pub open spec fn boundary_records(items: Seq<RolloutItemView>) -> Seq<CompactedItemView>
    decreases items.len(),
{
    if items.len() == 0 {
        Seq::empty()
    } else {
        match items.last() {
            RolloutItemView::Compacted(c) => boundary_records(items.drop_last()).push(c),
            _ => boundary_records(items.drop_last()),
        }
    }
}

/// What is missing in some boundary records.
pub open spec fn records_error(records: Seq<CompactedItemView>) -> Option<Seq<char>> {
    if records.len() == 0 {
        Some("missing Compacted boundary record"@)
    } else if records.len() > 1 {
        Some("expected exactly one Compacted boundary record"@)
    } else {
        match records[0].replacement_history {
            None => Some("Compacted.replacement_history is None"@),
            Some(h) => if h.len() == 0 {
                Some("Compacted.replacement_history is empty"@)
            } else if records[0].window_number is None {
                Some("Compacted.window_number is None"@)
            } else {
                None
            },
        }
    }
}

/// What a rollout lacks to be resumed from: exactly one boundary record with a
/// history and a window.
pub fn boundary_completeness_error(items: &Vec<RolloutItem>) -> (r: Option<&'static str>)
    ensures
        r.deep_view() == records_error(boundary_records(items.deep_view())),
{
    let ghost view = items.deep_view();
    let mut count: usize = 0;
    let mut first: usize = 0;
    let mut i: usize = 0;
    while i < items.len()
        invariant
            i <= items.len(),
            view == items.deep_view(),
            count <= i,
            count == boundary_records(view.take(i as int)).len(),
            count > 0 ==> first < i && (view[first as int] matches RolloutItemView::Compacted(c)
                && boundary_records(view.take(i as int))[0] == c),
        decreases items.len() - i,
    {
        assert(view[i as int] == items@[i as int]@);
        assert(view.take(i + 1).drop_last() =~= view.take(i as int));
        if let RolloutItem::Compacted(_) = &items[i] {
            if count == 0 {
                first = i;
            }
            count = count + 1;
        }
        i = i + 1;
    }
    assert(view.take(i as int) =~= view);
    if count == 0 {
        return Some("missing Compacted boundary record");
    }
    if count > 1 {
        return Some("expected exactly one Compacted boundary record");
    }
    assert(view[first as int] == items@[first as int]@);
    match &items[first] {
        RolloutItem::Compacted(c) => match &c.replacement_history {
            None => Some("Compacted.replacement_history is None"),
            Some(h) => {
                assert(h.deep_view().len() == h.len());
                if h.len() == 0 {
                    Some("Compacted.replacement_history is empty")
                } else if c.window_number.is_none() {
                    Some("Compacted.window_number is None")
                } else {
                    None
                }
            },
        },
        _ => None,
    }
}

/// The items before the first boundary record, from line `i` on.
pub open spec fn stream_len(items: Seq<RolloutItemView>, i: int) -> nat
    decreases items.len() - i,
{
    if i < 0 || i >= items.len() || items[i] is Compacted {
        0
    } else if items[i] is ResponseItem {
        1 + stream_len(items, i + 1)
    } else {
        stream_len(items, i + 1)
    }
}

/// How many items stand before the boundary record.
pub fn model_stream_response_item_count(items: &Vec<RolloutItem>) -> (r: usize)
    ensures
        r == stream_len(items.deep_view(), 0),
{
    let ghost view = items.deep_view();
    let mut n: usize = 0;
    let mut i: usize = 0;
    while i < items.len()
        invariant
            i <= items.len(),
            n <= i,
            view == items.deep_view(),
            stream_len(view, 0) == n + stream_len(view, i as int),
        decreases items.len() - i,
    {
        assert(view[i as int] == items@[i as int]@);
        match &items[i] {
            RolloutItem::Compacted(_) => {
                return n;
            },
            RolloutItem::ResponseItem(_) => {
                n = n + 1;
            },
            _ => {},
        }
        i = i + 1;
    }
    n
}

// ---------------------------------------------------------------------------
// Laws
// ---------------------------------------------------------------------------

proof fn lemma_records_concat(a: Seq<RolloutItemView>, b: Seq<RolloutItemView>)
    ensures
        boundary_records(a + b) == boundary_records(a) + boundary_records(b),
    decreases b.len(),
{
    if b.len() == 0 {
        assert(a + b =~= a);
        assert(boundary_records(a) + boundary_records(b) =~= boundary_records(a));
    } else {
        lemma_records_concat(a, b.drop_last());
        assert((a + b).drop_last() =~= a + b.drop_last());
        assert((a + b).last() == b.last());
        assert(boundary_records(a + b) =~= boundary_records(a) + boundary_records(b));
    }
}

proof fn lemma_no_records(lines: Seq<RolloutItemView>)
    requires
        forall|i: int| 0 <= i < lines.len() ==> !(#[trigger] lines[i] is Compacted),
    ensures
        boundary_records(lines) == Seq::<CompactedItemView>::empty(),
    decreases lines.len(),
{
    if lines.len() > 0 {
        assert(!(lines[lines.len() - 1] is Compacted));
        assert forall|i: int| 0 <= i < lines.drop_last().len() implies !(
        #[trigger] lines.drop_last()[i] is Compacted) by {
            assert(!(lines[i] is Compacted));
        }
        lemma_no_records(lines.drop_last());
    }
}

proof fn lemma_carried(prior: Seq<RolloutItemView>, n: int, settings: bool)
    requires
        0 <= n <= prior.len(),
    ensures
        forall|i: int|
            0 <= i < carried(prior, n, settings).len() ==> is_carried_line(
                #[trigger] carried(prior, n, settings)[i],
            ) && prior.contains(carried(prior, n, settings)[i]),
    decreases n,
{
    if n > 0 {
        lemma_carried(prior, n - 1, settings);
        let before = carried(prior, n - 1, settings);
        let after = carried(prior, n, settings);
        assert forall|i: int| 0 <= i < after.len() implies is_carried_line(#[trigger] after[i])
            && prior.contains(after[i]) by {
            if i < before.len() {
                assert(after[i] == before[i]);
            } else {
                assert(after[i] == prior[n - 1]);
            }
        }
    }
}

/// The line is one of those that are carried over.
pub open spec fn is_carried_line(line: RolloutItemView) -> bool {
    is_settings_or_goal(line) || is_carried_end(line)
}

/// A rebuilt rollout has exactly one boundary record: the one that holds the
/// compacted history and the window.
pub proof fn rebuilt_rollout_has_one_boundary(input: MaterializeInputView)
    ensures
        boundary_records(materialized(input).items) == seq![
            record_of(input),
        ],
        history_of(input).len() > 0 ==> records_error(boundary_records(materialized(input).items))
            is None,
{
    let prior = input.prior_generation;
    let n = prior.len() as int;
    let before = lines_before_boundary(input);
    let head = head_lines(input);
    let all = materialized(input).items;
    lemma_carried(prior, n, true);
    lemma_carried(prior, n, false);
    assert forall|i: int| 0 <= i < before.len() implies !(#[trigger] before[i] is Compacted) by {
        let a = seq![RolloutItemView::SessionMeta(input.session_meta)];
        let b = carried(prior, n, true);
        let c = first_prompt_line(input.messages);
        if i < a.len() {
        } else if i < a.len() + b.len() {
            assert(before[i] == b[i - a.len()]);
        }
    }
    lemma_no_records(before);
    let record = RolloutItemView::Compacted(record_of(input));
    let rest = world_state_line(input.world_state) + seq![
        RolloutItemView::EventMsg(EventMsgView::ContextCompacted),
    ] + context_line(input.turn_context);
    lemma_no_records(rest);
    assert(boundary_lines(input) =~= seq![record] + rest);
    lemma_records_concat(seq![record], rest);
    assert(boundary_records(seq![record]) =~= seq![
        record_of(input),
    ]) by {
        assert(seq![record].drop_last() =~= Seq::<RolloutItemView>::empty());
        assert(boundary_records(Seq::<RolloutItemView>::empty()) =~= Seq::<
            CompactedItemView,
        >::empty());
    }
    lemma_records_concat(before, boundary_lines(input));
    whole_tail_goes_on(
        head,
        rolled_back(prior, input.messages, input.turns).notes + world_state_note(
            input.world_state,
        ),
        tail_context(input),
        input.entries,
        tail_start(input.entries, 0),
    );
    let tail = rebuilt_tail(input).out;
    let added = tail.skip(head.len() as int);
    assert forall|i: int| 0 <= i < added.len() implies !(#[trigger] added[i] is Compacted) by {
        assert(is_tail_line(tail_context(input), tail[i + head.len()]));
    }
    lemma_no_records(added);
    assert(tail =~= tail.take(head.len() as int) + added);
    lemma_records_concat(head, added);
    let ends = carried(prior, n, false);
    assert forall|i: int| 0 <= i < ends.len() implies !(#[trigger] ends[i] is Compacted) by {
        assert(is_carried_line(ends[i]));
    }
    lemma_no_records(ends);
    lemma_records_concat(tail, ends);
    assert(boundary_records(all) =~= seq![record_of(input)]);
}

/// The line is the mark of a compact.
pub open spec fn is_compact_mark(line: RolloutItemView) -> bool {
    line == RolloutItemView::EventMsg(EventMsgView::ContextCompacted)
}

/// A rebuilt rollout holds the mark of a compact exactly once: behind the
/// boundary record, with at most the world state between them.
pub proof fn rebuilt_rollout_has_one_mark(input: MaterializeInputView, i: int)
    requires
        0 <= i < materialized(input).items.len(),
    ensures
        ({
            let items = materialized(input).items;
            let boundary = lines_before_boundary(input).len() as int;
            let mark = boundary + 1 + world_state_line(input.world_state).len();
            &&& mark < items.len()
            &&& items[boundary] == RolloutItemView::Compacted(record_of(input))
            &&& is_compact_mark(items[i]) <==> i == mark
        }),
{
    let prior = input.prior_generation;
    let n = prior.len() as int;
    let head = head_lines(input);
    let before = lines_before_boundary(input);
    lemma_carried(prior, n, true);
    lemma_carried(prior, n, false);
    whole_tail_goes_on(
        head,
        rolled_back(prior, input.messages, input.turns).notes + world_state_note(
            input.world_state,
        ),
        tail_context(input),
        input.entries,
        tail_start(input.entries, 0),
    );
    let tail = rebuilt_tail(input).out;
    let ends = carried(prior, n, false);
    let items = materialized(input).items;
    let boundary = before.len() as int;
    let mark = boundary + 1 + world_state_line(input.world_state).len();
    assert(tail.take(head.len() as int)[boundary] == boundary_lines(input)[0]);
    assert(tail.take(head.len() as int)[mark] == boundary_lines(input)[mark - boundary]);
    if i < head.len() {
        assert(items[i] == tail.take(head.len() as int)[i]);
        let a = seq![RolloutItemView::SessionMeta(input.session_meta)];
        let b = carried(prior, n, true);
        if i < before.len() {
            assert(head[i] == before[i]);
            if a.len() <= i < a.len() + b.len() {
                assert(before[i] == b[i - a.len()]);
                assert(is_carried_line(b[i - a.len()]));
            }
        } else {
            assert(head[i] == boundary_lines(input)[i - before.len()]);
        }
    } else if i < tail.len() {
        assert(items[i] == tail[i]);
        assert(is_tail_line(tail_context(input), tail[i]));
    } else {
        assert(items[i] == ends[i - tail.len()]);
        assert(is_carried_line(ends[i - tail.len()]));
    }
}

/// A rebuilt rollout never holds a rollback: it was applied.
pub proof fn rebuilt_rollout_has_no_rollback(input: MaterializeInputView, i: int)
    requires
        0 <= i < materialized(input).items.len(),
    ensures
        !(materialized(input).items[i] matches RolloutItemView::EventMsg(e)
            && e is ThreadRolledBack),
{
    lemma_line(input, i);
}

/// A rebuilt rollout starts and ends only turns that are over, under the host's
/// name where it is known and under the store's where it is not.
pub proof fn only_closed_turns_are_told(input: MaterializeInputView, i: int)
    requires
        0 <= i < materialized(input).items.len(),
    ensures
        is_of_closed_turn(input.turns, input.host_turn_ids, materialized(input).items[i]),
{
    lemma_line(input, i);
}

/// A rebuilt rollout neither starts nor ends a turn that is open. The names of
/// the turns are one to one, and no host's name is the store's name of a turn.
pub proof fn open_turns_are_not_told(input: MaterializeInputView, i: int, k: int)
    requires
        turns_differ(input.turns),
        is_one_to_one(input.host_turn_ids),
        forall|p: int|
            0 <= p < input.host_turn_ids.len() ==> !has_turn_id(
                input.turns,
                (#[trigger] input.host_turn_ids[p]).host,
            ),
        0 <= i < materialized(input).items.len(),
        0 <= k < input.turns.len(),
        input.turns[k].status == TurnStatus::Open,
    ensures
        turn_started_by(materialized(input).items[i]) != Some(
            shown_name(input.host_turn_ids, input.turns[k].turn_id),
        ),
        turn_ended_by(materialized(input).items[i]) != Some(
            shown_name(input.host_turn_ids, input.turns[k].turn_id),
        ),
{
    let names = input.host_turn_ids;
    let turns = input.turns;
    let name = shown_name(names, turns[k].turn_id);
    lemma_line(input, i);
    if is_name_of_closed(turns, names, name) {
        let j = choose|j: int|
            0 <= j < turns.len() && (#[trigger] turns[j]).status == TurnStatus::Closed
                && shown_name(names, turns[j].turn_id) == name;
        assert(has_turn_id(turns, turns[j].turn_id));
        assert(has_turn_id(turns, turns[k].turn_id));
        shown_names_differ(names, turns[j].turn_id, turns[k].turn_id);
        if j < k {
            assert(turns[j].turn_id != turns[k].turn_id);
        } else {
            assert(turns[k].turn_id != turns[j].turn_id);
        }
    }
}

/// Every line of a rebuilt rollout is none of a rollback, and starts and ends
/// only turns that are over.
proof fn lemma_line(input: MaterializeInputView, i: int)
    requires
        0 <= i < materialized(input).items.len(),
    ensures
        !(materialized(input).items[i] matches RolloutItemView::EventMsg(e)
            && e is ThreadRolledBack),
        is_of_closed_turn(input.turns, input.host_turn_ids, materialized(input).items[i]),
{
    let prior = input.prior_generation;
    let n = prior.len() as int;
    let head = head_lines(input);
    lemma_carried(prior, n, true);
    lemma_carried(prior, n, false);
    whole_tail_goes_on(
        head,
        rolled_back(prior, input.messages, input.turns).notes + world_state_note(
            input.world_state,
        ),
        tail_context(input),
        input.entries,
        tail_start(input.entries, 0),
    );
    let tail = rebuilt_tail(input).out;
    let ends = carried(prior, n, false);
    if i < head.len() {
        assert(materialized(input).items[i] == tail.take(head.len() as int)[i]);
        let a = seq![RolloutItemView::SessionMeta(input.session_meta)];
        let b = carried(prior, n, true);
        let before = lines_before_boundary(input);
        if i < before.len() {
            assert(head[i] == before[i]);
            if a.len() <= i < a.len() + b.len() {
                assert(before[i] == b[i - a.len()]);
                assert(is_carried_line(b[i - a.len()]));
            }
        } else {
            assert(head[i] == boundary_lines(input)[i - before.len()]);
        }
    } else if i < tail.len() {
        assert(materialized(input).items[i] == tail[i]);
        assert(is_tail_line(tail_context(input), tail[i]));
    } else {
        assert(materialized(input).items[i] == ends[i - tail.len()]);
        assert(is_carried_line(ends[i - tail.len()]));
    }
}

/// Behind its head a rebuilt rollout starts and ends every turn that is over at
/// most once, starts none that was rolled back, ends what it started and nothing
/// else, and ends an earlier turn before it starts a later one.
pub proof fn rebuilt_turns_are_whole(input: MaterializeInputView)
    requires
        turns_differ(input.turns),
    ensures
        is_sound(head_lines(input), tail_context(input), rebuilt_tail(input)),
        forall|id: Seq<char>| #[trigger]
            rebuilt_tail(input).opened.contains(id) && is_over(input.turns, id)
                ==> rebuilt_tail(input).closed.contains(id),
{
    assert forall|id: Seq<char>| #[trigger]
        rebuilt_tail(input).opened.contains(id) && is_over(input.turns, id) implies rebuilt_tail(
        input,
    ).closed.contains(id) by {
        started_turns_are_ended(
            head_lines(input),
            rolled_back(input.prior_generation, input.messages, input.turns).notes
                + world_state_note(input.world_state),
            tail_context(input),
            input.entries,
            tail_start(input.entries, 0),
            id,
        );
    }
    whole_tail_is_sound(
        head_lines(input),
        rolled_back(input.prior_generation, input.messages, input.turns).notes + world_state_note(
            input.world_state,
        ),
        tail_context(input),
        input.entries,
        tail_start(input.entries, 0),
    );
}

/// The compacted history stands in a rebuilt rollout twice: line by line before
/// the boundary, and whole inside the boundary record.
pub proof fn history_stands_before_the_boundary(input: MaterializeInputView)
    ensures
        stream_len(head_lines(input), 0) == history_of(input).len(),
{
    let before = lines_before_boundary(input);
    let head = head_lines(input);
    let prior = input.prior_generation;
    let n = prior.len() as int;
    let a = seq![RolloutItemView::SessionMeta(input.session_meta)];
    let b = carried(prior, n, true);
    let c = first_prompt_line(input.messages);
    let d = as_lines(history_of(input));
    let first = (a.len() + b.len() + c.len()) as int;
    lemma_carried(prior, n, true);
    lemma_carried_settings(prior, n);
    assert forall|i: int| 0 <= i < first implies !(#[trigger] head[i] is ResponseItem) && !(head[i]
        is Compacted) by {
        assert(head[i] == before[i]);
        if a.len() <= i < a.len() + b.len() {
            assert(before[i] == b[i - a.len()]);
        }
    }
    lemma_stream_skip(head, 0, first);
    assert forall|i: int| first <= i < before.len() implies #[trigger] head[i] is ResponseItem by {
        assert(head[i] == before[i]);
        assert(before[i] == d[i - first]);
    }
    lemma_stream_run(head, first, before.len() as int);
    assert(head[before.len() as int] == boundary_lines(input)[0]);
}

proof fn lemma_carried_settings(prior: Seq<RolloutItemView>, n: int)
    requires
        0 <= n <= prior.len(),
    ensures
        forall|i: int|
            0 <= i < carried(prior, n, true).len() ==> is_settings_or_goal(
                #[trigger] carried(prior, n, true)[i],
            ),
    decreases n,
{
    if n > 0 {
        lemma_carried_settings(prior, n - 1);
        let before = carried(prior, n - 1, true);
        let after = carried(prior, n, true);
        assert forall|i: int| 0 <= i < after.len() implies is_settings_or_goal(
            #[trigger] after[i],
        ) by {
            if i < before.len() {
                assert(after[i] == before[i]);
            }
        }
    }
}

proof fn lemma_stream_skip(items: Seq<RolloutItemView>, from: int, to: int)
    requires
        0 <= from <= to <= items.len(),
        forall|i: int|
            from <= i < to ==> !(#[trigger] items[i] is ResponseItem) && !(items[i] is Compacted),
    ensures
        stream_len(items, from) == stream_len(items, to),
    decreases to - from,
{
    if from < to {
        assert(!(items[from] is ResponseItem));
        lemma_stream_skip(items, from + 1, to);
    }
}

proof fn lemma_stream_run(items: Seq<RolloutItemView>, from: int, to: int)
    requires
        0 <= from <= to <= items.len(),
        forall|i: int| from <= i < to ==> #[trigger] items[i] is ResponseItem,
    ensures
        stream_len(items, from) == to - from + stream_len(items, to),
    decreases to - from,
{
    if from < to {
        assert(items[from] is ResponseItem);
        lemma_stream_run(items, from + 1, to);
    }
}

} // verus!
