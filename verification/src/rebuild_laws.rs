//! What a rebuilt rollout holds around its tail: the compacted history, the
//! boundary, and what is carried over from the rollout before.

use vstd::prelude::*;
use vstd::string::*;

use crate::materialize::{
    band_items, carried, first_prompt, first_prompt_line, head_lines, lines_before_boundary,
    materialized, rebuilt_tail, record_of, tail_context, tail_start, MaterializeInputView,
};
use crate::protocol::{ContentItemView, ResponseItemView};
use crate::records::{MessageKind, MessageRecordView};
use crate::rollback::{rolled_back, text_of_message};
use crate::rollout::{CompactedItemView, CompletedItem, EventMsgView, RolloutItemView};
use crate::tail_laws::whole_tail_goes_on;
use crate::thread_view::{SessionThreadViewEntryView, SessionThreadViewMessageView};

verus! {

// ---------------------------------------------------------------------------
// The compacted history
// ---------------------------------------------------------------------------

/// The entry is something in the user's name that no message stands behind, and
/// says `content`.
pub open spec fn is_sourceless(entry: SessionThreadViewEntryView) -> bool {
    entry matches SessionThreadViewEntryView::Message(SessionThreadViewMessageView::User(u))
        && u.source_messages.len() == 0
}

/// What an entry in the user's name says.
pub open spec fn content_of(entry: SessionThreadViewEntryView) -> Seq<char> {
    entry->Message_0->User_0.content
}

/// The first `k` entries, and no more, are compacted history.
pub open spec fn leads(entries: Seq<SessionThreadViewEntryView>, k: int) -> bool {
    &&& 0 <= k <= entries.len()
    &&& forall|i: int| 0 <= i < k ==> is_sourceless(#[trigger] entries[i])
    &&& k < entries.len() ==> !is_sourceless(entries[k])
}

/// Something that the user says.
pub open spec fn said_by_user(text: Seq<char>) -> ResponseItemView {
    ResponseItemView::Message {
        id: None,
        role: "user"@,
        content: seq![ContentItemView::InputText { text }],
        phase: None,
        internal_chat_message_metadata_passthrough: None,
    }
}

/// The compacted history that the first `k` entries are: one message of the user
/// for each of them that says something, in order.
pub open spec fn history_from(
    entries: Seq<SessionThreadViewEntryView>,
    k: int,
) -> Seq<ResponseItemView> {
    entries.take(k).filter(
        |e: SessionThreadViewEntryView| content_of(e).len() > 0,
    ).map_values(|e: SessionThreadViewEntryView| said_by_user(content_of(e)))
}

proof fn lemma_tail_start(entries: Seq<SessionThreadViewEntryView>, i: int, k: int)
    requires
        leads(entries, k),
        0 <= i <= k,
    ensures
        tail_start(entries, i) == k,
    decreases k - i,
{
    if i < k {
        assert(is_sourceless(entries[i]));
        lemma_tail_start(entries, i + 1, k);
    }
}

proof fn lemma_band_items(entries: Seq<SessionThreadViewEntryView>, n: int)
    requires
        0 <= n <= entries.len(),
        forall|i: int| 0 <= i < n ==> is_sourceless(#[trigger] entries[i]),
    ensures
        band_items(entries, n) == history_from(entries, n),
    decreases n,
{
    let says = |e: SessionThreadViewEntryView| content_of(e).len() > 0;
    let item = |e: SessionThreadViewEntryView| said_by_user(content_of(e));
    reveal(Seq::filter);
    if n == 0 {
        assert(entries.take(0).filter(says).map_values(item) =~= Seq::<ResponseItemView>::empty());
    } else {
        lemma_band_items(entries, n - 1);
        let e = entries[n - 1];
        assert(is_sourceless(e));
        assert(entries.take(n).drop_last() =~= entries.take(n - 1));
        assert(entries.take(n).last() == e);
        let before = entries.take(n - 1).filter(says);
        assert(before.push(e).map_values(item) =~= before.map_values(item).push(item(e)));
    }
}

// ---------------------------------------------------------------------------
// The head
// ---------------------------------------------------------------------------

/// The line tells the settings or the goal of the thread.
pub open spec fn tells_settings(line: RolloutItemView) -> bool {
    line matches RolloutItemView::EventMsg(e) && (e is ThreadSettingsApplied || e
        is ThreadGoalUpdated)
}

/// The line tells something that only a rollout can know.
pub open spec fn tells_what_no_store_holds(line: RolloutItemView) -> bool {
    ||| line is InterAgentCommunication
    ||| line is InterAgentCommunicationMetadata
    ||| line matches RolloutItemView::EventMsg(e) && (e is EnteredReviewMode || e
        is ExitedReviewMode || e is PatchApplyEnd || e is McpToolCallEnd || e is SubAgentActivity
        || (e matches EventMsgView::ItemCompleted { item, .. } && (item == CompletedItem::Plan
        || item == CompletedItem::Extension)))
}

proof fn lemma_carried_is_filtered(prior: Seq<RolloutItemView>, n: int)
    requires
        0 <= n <= prior.len(),
    ensures
        carried(prior, n, true) == prior.take(n).filter(
            |l: RolloutItemView| tells_settings(l),
        ),
        carried(prior, n, false) == prior.take(n).filter(
            |l: RolloutItemView| tells_what_no_store_holds(l),
        ),
    decreases n,
{
    reveal(Seq::filter);
    if n > 0 {
        lemma_carried_is_filtered(prior, n - 1);
        assert(prior.take(n).drop_last() =~= prior.take(n - 1));
        assert(prior.take(n).last() == prior[n - 1]);
    }
}

/// The message is the earliest prompt of the user; of several, the first.
pub open spec fn is_earliest_prompt(messages: Seq<MessageRecordView>, k: int) -> bool {
    &&& 0 <= k < messages.len()
    &&& messages[k].kind == MessageKind::UserPrompt
    &&& forall|i: int|
        0 <= i < messages.len() && (#[trigger] messages[i]).kind == MessageKind::UserPrompt
            ==> messages[k].source_event_order <= messages[i].source_event_order && (i < k
            ==> messages[k].source_event_order < messages[i].source_event_order)
}

proof fn lemma_first_prompt(messages: Seq<MessageRecordView>, n: int)
    requires
        0 <= n <= messages.len(),
    ensures
        match first_prompt(messages, n) {
            Some(k) => is_earliest_prompt(messages.take(n), k),
            None => forall|i: int|
                0 <= i < n ==> (#[trigger] messages[i]).kind != MessageKind::UserPrompt,
        },
    decreases n,
{
    if n > 0 {
        lemma_first_prompt(messages, n - 1);
        let a = messages.take(n - 1);
        let b = messages.take(n);
        assert forall|i: int| 0 <= i < n - 1 implies #[trigger] a[i] == b[i] by {}
        if let Some(k) = first_prompt(messages, n) {
            assert(b[k].kind == MessageKind::UserPrompt);
            assert forall|i: int|
                0 <= i < b.len() && (#[trigger] b[i]).kind == MessageKind::UserPrompt implies b[k].source_event_order
                <= b[i].source_event_order && (i < k ==> b[k].source_event_order
                < b[i].source_event_order) by {
                if i < n - 1 {
                    assert(a[i] == b[i]);
                    assert(messages[i] == a[i]);
                }
            }
        }
    }
}

/// What stands before the boundary of a rebuilt rollout, line by line: the session,
/// the settings and goals of the rollout before, the first prompt ever as it is
/// displayed, and the compacted history.
pub proof fn rebuilt_rollout_begins_with_the_history(input: MaterializeInputView, k: int)
    requires
        leads(input.entries, k),
    ensures
        ({
            let items = materialized(input).items;
            let history = history_from(input.entries, k);
            let settings = input.prior_generation.filter(|l: RolloutItemView| tells_settings(l));
            let prompt = first_prompt_line(input.messages);
            let before = seq![RolloutItemView::SessionMeta(input.session_meta)] + settings + prompt
                + history.map_values(|i: ResponseItemView| RolloutItemView::ResponseItem(i));
            let at = before.len() as int;
            &&& items.len() > at
            &&& items.take(at) == before
            &&& items[at] == RolloutItemView::Compacted(
                CompactedItemView {
                    message: input.boundary.message,
                    replacement_history: Some(history),
                    window_number: Some(input.boundary.window_number),
                    first_window_id: Some(input.boundary.first_window_id),
                    previous_window_id: input.boundary.previous_window_id,
                    window_id: Some(input.boundary.window_id),
                    guardian_history: input.guardian_history,
                },
            )
        }),
{
    let prior = input.prior_generation;
    let n = prior.len() as int;
    let items = materialized(input).items;
    lemma_tail_start(input.entries, 0, k);
    lemma_band_items(input.entries, k);
    lemma_carried_is_filtered(prior, n);
    assert(prior.take(n) =~= prior);
    lemma_head_stands_first(input);
    let history = history_from(input.entries, k);
    let before = seq![RolloutItemView::SessionMeta(input.session_meta)] + prior.filter(
        |l: RolloutItemView| tells_settings(l),
    ) + first_prompt_line(input.messages) + history.map_values(
        |i: ResponseItemView| RolloutItemView::ResponseItem(i),
    );
    assert(lines_before_boundary(input) =~= before);
    let head = head_lines(input);
    assert(items.take(before.len() as int) =~= before) by {
        assert forall|i: int| 0 <= i < before.len() implies items[i] == before[i] by {
            assert(items[i] == items.take(head.len() as int)[i]);
            assert(head[i] == before[i]);
        }
    }
    let at = before.len() as int;
    assert(items[at] == items.take(head.len() as int)[at]);
    assert(head[at] == crate::materialize::boundary_lines(input)[0]);
}

proof fn lemma_head_stands_first(input: MaterializeInputView)
    ensures
        materialized(input).items.len() >= head_lines(input).len(),
        materialized(input).items.take(head_lines(input).len() as int) == head_lines(input),
{
    let head = head_lines(input);
    whole_tail_goes_on(
        head,
        rolled_back(input.prior_generation, input.messages, input.turns).notes
            + crate::materialize::world_state_note(input.world_state),
        tail_context(input),
        input.entries,
        tail_start(input.entries, 0),
    );
    let tail = rebuilt_tail(input).out;
    assert(tail.take(head.len() as int) == head);
    assert(materialized(input).items.take(head.len() as int) =~= tail.take(head.len() as int));
}

/// What stands behind the boundary before the tail: the world state where there is
/// one, the mark of the compact, and the context of the turn where there is one.
pub proof fn boundary_is_followed_by_its_mark(input: MaterializeInputView)
    ensures
        ({
            let items = materialized(input).items;
            let at = lines_before_boundary(input).len() as int;
            let world: Seq<RolloutItemView> = match input.world_state {
                Some(state) => if state is Object {
                    seq![RolloutItemView::WorldState(state)]
                } else {
                    Seq::empty()
                },
                None => Seq::empty(),
            };
            let context: Seq<RolloutItemView> = match input.turn_context {
                Some(c) => seq![RolloutItemView::TurnContext(c)],
                None => Seq::empty(),
            };
            let rest = world + seq![RolloutItemView::EventMsg(EventMsgView::ContextCompacted)]
                + context;
            &&& items[at] is Compacted
            &&& at + 1 + rest.len() <= items.len()
            &&& items.subrange(at + 1, at + 1 + rest.len()) == rest
        }),
{
    let items = materialized(input).items;
    lemma_head_stands_first(input);
    let head = head_lines(input);
    let at = lines_before_boundary(input).len() as int;
    let bounds = crate::materialize::boundary_lines(input);
    assert forall|i: int| at <= i < head.len() implies #[trigger] items[i] == bounds[i - at] by {
        assert(items[i] == items.take(head.len() as int)[i]);
        assert(head[i] == bounds[i - at]);
    }
    let world: Seq<RolloutItemView> = match input.world_state {
        Some(state) => if state is Object {
            seq![RolloutItemView::WorldState(state)]
        } else {
            Seq::empty()
        },
        None => Seq::empty(),
    };
    let context: Seq<RolloutItemView> = match input.turn_context {
        Some(c) => seq![RolloutItemView::TurnContext(c)],
        None => Seq::empty(),
    };
    let rest = world + seq![RolloutItemView::EventMsg(EventMsgView::ContextCompacted)] + context;
    assert(bounds =~= seq![RolloutItemView::Compacted(record_of(input))] + rest);
    assert(items.subrange(at + 1, at + 1 + rest.len()) =~= rest) by {
        assert forall|i: int| 0 <= i < rest.len() implies items[at + 1 + i] == rest[i] by {
            assert(items[at + 1 + i] == bounds[1 + i]);
        }
    }
}

/// The prompt that is displayed first is the earliest prompt of the user in the
/// store, with all its text; there is none exactly where the user never prompted.
pub proof fn first_displayed_prompt_is_the_earliest(messages: Seq<MessageRecordView>)
    ensures
        (forall|i: int|
            0 <= i < messages.len() ==> (#[trigger] messages[i]).kind != MessageKind::UserPrompt)
            ==> first_prompt_line(messages).len() == 0,
        (exists|i: int|
            0 <= i < messages.len() && (#[trigger] messages[i]).kind == MessageKind::UserPrompt)
            ==> exists|k: int| #[trigger]
            is_earliest_prompt(messages, k) && first_prompt_line(messages) == seq![
                RolloutItemView::EventMsg(
                    EventMsgView::UserMessage { message: text_of_message(messages[k]) },
                ),
            ],
{
    let n = messages.len() as int;
    lemma_first_prompt(messages, n);
    assert(messages.take(n) =~= messages);
    if let Some(k) = first_prompt(messages, n) {
        assert(is_earliest_prompt(messages, k));
        assert(messages[k].kind == MessageKind::UserPrompt);
    }
}

/// What only a rollout can know is carried over from the rollout before, all of it
/// and in order, to the end of the new one.
pub proof fn what_no_store_holds_is_carried_over(input: MaterializeInputView)
    ensures
        ({
            let items = materialized(input).items;
            let ends = input.prior_generation.filter(
                |l: RolloutItemView| tells_what_no_store_holds(l),
            );
            &&& ends.len() <= items.len()
            &&& items.skip(items.len() - ends.len()) == ends
        }),
{
    let prior = input.prior_generation;
    let n = prior.len() as int;
    lemma_carried_is_filtered(prior, n);
    assert(prior.take(n) =~= prior);
    let items = materialized(input).items;
    let ends = carried(prior, n, false);
    assert(items.skip(items.len() - ends.len()) =~= ends);
}

} // verus!
