//! What the tail of a rebuilt rollout tells of each entry of the thread view.

use vstd::prelude::*;
use vstd::string::*;

use crate::json::{json_read, text_entry, JsonView};
use crate::mapping::ModelIdentityView;
use crate::materialize::{
    head_lines, materialized, rebuilt_tail, tail_context, tail_start, world_state_note,
    MaterializeInputView,
};
use crate::protocol::{ContentItemView, ReasoningItemReasoningSummaryView, ResponseItemView};
use crate::records::{BlockType, MessageKind, MessageRecordView, TurnRecordView};
use crate::reverse::{item_lines, rebuilt_call, rebuilt_result, recovered_id};
use crate::reverse_laws::worn;
use crate::rollback::{message_of, rolled_back, text_of_message, turn_of};
use crate::rollout::{EventMsgView, RolloutItemView};
use crate::tail::{
    all_closed, closed_behind, entries_emitted, entry_emitted, entry_step, finished,
    host_id_of_source, is_marker_entry, is_rolled_back_entry, left_open, note_text, part_emitted,
    parts_emitted, result_emitted, source_at, sources_closed, sources_of, sources_opened, started,
    stored_identity, turn_closed, turn_opened, turns_closed, usage_told, user_lines, user_text,
    TailContextView, TailView,
};
use crate::tail_turn_laws::{errors_are_what_the_store_says, is_first_result};
use crate::thread_view::{
    SessionAssistantMessageView, SessionAssistantPartType, SessionAssistantPartView,
    SessionThreadViewEntrySourceView, SessionThreadViewEntryView, SessionThreadViewMessageView,
    SessionThreadViewRuntimeEntryView, SessionToolResultMessageView, SessionUserMessageView,
};

verus! {

// ---------------------------------------------------------------------------
// Nothing is taken back
// ---------------------------------------------------------------------------

/// What was told before is told still, and nothing before it.
pub open spec fn grows(s: TailView, r: TailView) -> bool {
    &&& s.out.len() <= r.out.len()
    &&& r.out.take(s.out.len() as int) == s.out
    &&& s.notes.len() <= r.notes.len()
    &&& r.notes.take(s.notes.len() as int) == s.notes
}

proof fn lemma_grows_on(a: TailView, b: TailView, c: TailView)
    requires
        grows(a, b),
        grows(b, c),
    ensures
        grows(a, c),
{
    assert(c.out.take(a.out.len() as int) =~= b.out.take(a.out.len() as int));
    assert(c.notes.take(a.notes.len() as int) =~= b.notes.take(a.notes.len() as int));
}

/// A line that was told stands where it stood.
proof fn lemma_line_stays(s: TailView, r: TailView, i: int)
    requires
        grows(s, r),
        0 <= i < s.out.len(),
    ensures
        r.out[i] == s.out[i],
{
    assert(r.out.take(s.out.len() as int)[i] == r.out[i]);
}

proof fn lemma_same_grows(s: TailView)
    ensures
        grows(s, s),
{
    assert(s.out.take(s.out.len() as int) =~= s.out);
    assert(s.notes.take(s.notes.len() as int) =~= s.notes);
}

proof fn lemma_more_lines(
    s: TailView,
    r: TailView,
    lines: Seq<RolloutItemView>,
    notes: Seq<Seq<char>>,
)
    requires
        r.out == s.out + lines,
        r.notes == s.notes + notes,
    ensures
        grows(s, r),
{
    assert(r.out.take(s.out.len() as int) =~= s.out);
    assert(r.notes.take(s.notes.len() as int) =~= s.notes);
}

proof fn lemma_closed_grows(
    s: TailView,
    names: Seq<crate::host_turn_ids::TurnIdPairView>,
    turns: Seq<TurnRecordView>,
    order: Seq<int>,
    n: int,
)
    ensures
        grows(s, turns_closed(s, names, turns, order, n)),
    decreases n,
{
    if n <= 0 {
        lemma_same_grows(s);
    } else {
        let before = turns_closed(s, names, turns, order, n - 1);
        let after = turns_closed(s, names, turns, order, n);
        lemma_closed_grows(s, names, turns, order, n - 1);
        lemma_turn_closed_grows(before, names, turns[order[n - 1]]);
        lemma_grows_on(s, before, after);
    }
}

proof fn lemma_turn_closed_grows(
    s: TailView,
    names: Seq<crate::host_turn_ids::TurnIdPairView>,
    turn: TurnRecordView,
)
    ensures
        grows(s, turn_closed(s, names, turn)),
{
    let r = turn_closed(s, names, turn);
    let lines = crate::tail::unanswered_lines(
        crate::tail::images_of_turn(s.pending, turn.turn_id, true),
    ).push(RolloutItemView::EventMsg(crate::tail::turn_end_event(turn, names)));
    assert(r.out =~= s.out + lines);
    assert(r.notes =~= s.notes + Seq::<Seq<char>>::empty());
    lemma_more_lines(s, r, lines, Seq::empty());
}

proof fn lemma_opened_grows(s: TailView, ctx: TailContextView, id: Seq<char>)
    ensures
        grows(s, turn_opened(s, ctx, id)),
{
    if s.opened.contains(id) {
        lemma_same_grows(s);
    } else {
        let turns = crate::tail::closable_turns(
            s,
            ctx.turns,
            crate::tail::order_of(ctx.turns, id),
            s.opened.len() as int,
        );
        let order = crate::ordering::stable_order(crate::tail::turn_keys(turns));
        let c = all_closed(s, ctx.names, turns);
        let r = turn_opened(s, ctx, id);
        lemma_closed_grows(s, ctx.names, turns, order, order.len() as int);
        let lines = if crate::tail::is_over(ctx.turns, id) {
            seq![RolloutItemView::EventMsg(crate::tail::turn_start_event(ctx, id))]
        } else {
            Seq::empty()
        };
        assert(r.out =~= c.out + lines);
        assert(r.notes =~= c.notes + Seq::<Seq<char>>::empty());
        lemma_more_lines(c, r, lines, Seq::empty());
        lemma_grows_on(s, c, r);
    }
}

proof fn lemma_sources_opened_grows(
    s: TailView,
    ctx: TailContextView,
    sources: Seq<SessionThreadViewEntrySourceView>,
    n: int,
)
    ensures
        grows(s, sources_opened(s, ctx, sources, n)),
    decreases n,
{
    if n <= 0 {
        lemma_same_grows(s);
    } else {
        let before = sources_opened(s, ctx, sources, n - 1);
        lemma_sources_opened_grows(s, ctx, sources, n - 1);
        if let Some(m) = message_of(ctx.messages, sources[n - 1].message_id) {
            if !ctx.rolled_back.contains(m.turn_id) {
                lemma_opened_grows(before, ctx, m.turn_id);
                lemma_grows_on(s, before, turn_opened(before, ctx, m.turn_id));
            }
        }
    }
}

proof fn lemma_sources_closed_grows(
    s: TailView,
    ctx: TailContextView,
    sources: Seq<SessionThreadViewEntrySourceView>,
    n: int,
)
    ensures
        grows(s, sources_closed(s, ctx, sources, n)),
    decreases n,
{
    if n <= 0 {
        lemma_same_grows(s);
    } else {
        let before = sources_closed(s, ctx, sources, n - 1);
        lemma_sources_closed_grows(s, ctx, sources, n - 1);
        if let Some(m) = message_of(ctx.messages, sources[n - 1].message_id) {
            if !ctx.rolled_back.contains(m.turn_id) {
                lemma_same_grows(before);
                if let Some(t) = turn_of(ctx.turns, m.turn_id) {
                    lemma_turn_closed_grows(before, ctx.names, t);
                }
                lemma_grows_on(s, before, closed_behind(before, ctx, m));
            }
        }
    }
}

proof fn lemma_usage_grows(s: TailView, ctx: TailContextView, id: Seq<char>)
    ensures
        grows(s, usage_told(s, ctx, id)),
{
    let r = usage_told(s, ctx, id);
    lemma_same_grows(s);
    if r != s {
        let line = r.out.last();
        assert(r.out =~= s.out + seq![line]);
        assert(r.notes =~= s.notes + Seq::<Seq<char>>::empty());
        lemma_more_lines(s, r, seq![line], Seq::empty());
    }
}

proof fn lemma_part_grows(
    s: TailView,
    part: SessionAssistantPartView,
    id_hint: Option<Seq<char>>,
    turn_id: Seq<char>,
    stored: ModelIdentityView,
    live: Option<ModelIdentityView>,
)
    ensures
        grows(s, part_emitted(s, part, id_hint, turn_id, stored, live)),
{
    let r = part_emitted(s, part, id_hint, turn_id, stored, live);
    let lines = r.out.skip(s.out.len() as int);
    let notes = r.notes.skip(s.notes.len() as int);
    assert(r.out =~= s.out + lines);
    assert(r.notes =~= s.notes + notes);
    lemma_more_lines(s, r, lines, notes);
}

proof fn lemma_parts_grow(
    s: TailView,
    ctx: TailContextView,
    a: SessionAssistantMessageView,
    j: int,
    n: int,
)
    requires
        0 <= j <= n,
    ensures
        grows(parts_emitted(s, ctx, a, j), parts_emitted(s, ctx, a, n)),
    decreases n - j,
{
    lemma_same_grows(parts_emitted(s, ctx, a, j));
    if j < n {
        lemma_parts_grow(s, ctx, a, j, n - 1);
        let before = parts_emitted(s, ctx, a, n - 1);
        let source = source_at(a.source_messages, n - 1);
        let msg = crate::tail::message_of_source(ctx, source);
        lemma_same_grows(before);
        if !(msg is Some && ctx.rolled_back.contains(msg->0.turn_id)) {
            let turn_id = match msg {
                Some(m) => m.turn_id,
                None => Seq::empty(),
            };
            let emitted = part_emitted(
                before,
                a.content[n - 1],
                host_id_of_source(source),
                turn_id,
                stored_identity(a),
                ctx.live_identity,
            );
            lemma_part_grows(
                before,
                a.content[n - 1],
                host_id_of_source(source),
                turn_id,
                stored_identity(a),
                ctx.live_identity,
            );
            if msg is Some {
                lemma_usage_grows(emitted, ctx, msg->0.message_id);
            }
            lemma_same_grows(emitted);
            lemma_grows_on(before, emitted, parts_emitted(s, ctx, a, n));
        }
        lemma_grows_on(parts_emitted(s, ctx, a, j), before, parts_emitted(s, ctx, a, n));
    }
}

proof fn lemma_result_grows(
    s: TailView,
    ctx: TailContextView,
    t: SessionToolResultMessageView,
    msg: Option<MessageRecordView>,
)
    ensures
        grows(s, result_emitted(s, ctx, t, msg)),
{
    let r = result_emitted(s, ctx, t, msg);
    let lines = r.out.skip(s.out.len() as int);
    let notes = r.notes.skip(s.notes.len() as int);
    assert(r.out =~= s.out + lines);
    assert(r.notes =~= s.notes + notes);
    lemma_more_lines(s, r, lines, notes);
}

proof fn lemma_entry_grows(s: TailView, ctx: TailContextView, entry: SessionThreadViewEntryView)
    ensures
        grows(s, entry_step(s, ctx, entry)),
        !is_rolled_back_entry(ctx, entry) && !is_marker_entry(entry) ==> {
            let opened = sources_opened(s, ctx, sources_of(entry), sources_of(entry).len() as int);
            &&& grows(s, opened)
            &&& grows(opened, entry_emitted(opened, ctx, entry).0)
            &&& grows(entry_emitted(opened, ctx, entry).0, entry_step(s, ctx, entry))
        },
{
    let sources = sources_of(entry);
    let n = sources.len() as int;
    let opened = sources_opened(s, ctx, sources, n);
    let (emitted, shown) = entry_emitted(opened, ctx, entry);
    lemma_same_grows(s);
    lemma_sources_opened_grows(s, ctx, sources, n);
    lemma_same_grows(opened);
    match entry {
        SessionThreadViewEntryView::Message(SessionThreadViewMessageView::User(u)) => {
            if let Some(lines) = user_lines(ctx, u) {
                assert(emitted.notes =~= opened.notes + Seq::<Seq<char>>::empty());
                lemma_more_lines(opened, emitted, lines, Seq::empty());
            }
        },
        SessionThreadViewEntryView::Message(SessionThreadViewMessageView::Assistant(a)) => {
            lemma_parts_grow(opened, ctx, a, 0, a.content.len() as int);
        },
        SessionThreadViewEntryView::Message(SessionThreadViewMessageView::ToolResult(t)) => {
            lemma_result_grows(
                opened,
                ctx,
                t,
                crate::tail::message_of_source(ctx, source_at(t.source_messages, 0)),
            );
        },
        _ => {},
    }
    lemma_same_grows(emitted);
    lemma_sources_closed_grows(emitted, ctx, sources, n);
    if !is_rolled_back_entry(ctx, entry) && !is_marker_entry(entry) {
        lemma_grows_on(s, opened, emitted);
        lemma_grows_on(s, emitted, entry_step(s, ctx, entry));
    }
}

proof fn lemma_entries_grow(
    s: TailView,
    ctx: TailContextView,
    entries: Seq<SessionThreadViewEntryView>,
    from: int,
    k: int,
    n: int,
)
    requires
        from <= k <= n,
    ensures
        grows(entries_emitted(s, ctx, entries, from, k), entries_emitted(s, ctx, entries, from, n)),
    decreases n - k,
{
    lemma_same_grows(entries_emitted(s, ctx, entries, from, k));
    if k < n {
        lemma_entries_grow(s, ctx, entries, from, k, n - 1);
        let before = entries_emitted(s, ctx, entries, from, n - 1);
        lemma_entry_grows(before, ctx, entries[n - 1]);
        lemma_grows_on(
            entries_emitted(s, ctx, entries, from, k),
            before,
            entries_emitted(s, ctx, entries, from, n),
        );
    }
}

proof fn lemma_finished_grows(s: TailView, ctx: TailContextView)
    ensures
        grows(s, finished(s, ctx)),
{
    let lines = crate::tail::unanswered_lines(s.pending);
    let flushed = TailView { out: s.out + lines, pending: Seq::empty(), ..s };
    assert(flushed.notes =~= s.notes + Seq::<Seq<char>>::empty());
    lemma_more_lines(s, flushed, lines, Seq::empty());
    let turns = left_open(flushed, ctx, ctx.turns.len() as int);
    let order = crate::ordering::stable_order(crate::tail::turn_keys(turns));
    lemma_closed_grows(flushed, ctx.names, turns, order, order.len() as int);
    lemma_grows_on(s, flushed, finished(s, ctx));
}

/// At the end the images that wait are told right behind what was told.
pub proof fn lemma_finished_flushes(s: TailView, ctx: TailContextView)
    ensures
        ({
            let told = s.out + crate::tail::unanswered_lines(s.pending);
            &&& told.len() <= finished(s, ctx).out.len()
            &&& finished(s, ctx).out.take(told.len() as int) == told
        }),
{
    let lines = crate::tail::unanswered_lines(s.pending);
    let flushed = TailView { out: s.out + lines, pending: Seq::empty(), ..s };
    let turns = left_open(flushed, ctx, ctx.turns.len() as int);
    let order = crate::ordering::stable_order(crate::tail::turn_keys(turns));
    lemma_closed_grows(flushed, ctx.names, turns, order, order.len() as int);
}

// ---------------------------------------------------------------------------
// Entry by entry
// ---------------------------------------------------------------------------

/// How far the rollout has come when the entries before `k` are told.
pub open spec fn told_before(input: MaterializeInputView, k: int) -> TailView {
    entries_emitted(
        started(
            head_lines(input),
            rolled_back(input.prior_generation, input.messages, input.turns).notes
                + world_state_note(input.world_state),
        ),
        tail_context(input),
        input.entries,
        tail_start(input.entries, 0),
        k,
    )
}

/// Every entry behind the compacted history is told, one behind the other: the
/// lines that tell entry `k` stand behind those of the entries before it and before
/// those of the entries behind it, and nothing that was told is taken back.
pub proof fn entries_are_told_in_order(input: MaterializeInputView, k: int)
    requires
        0 <= tail_start(input.entries, 0) <= k < input.entries.len(),
    ensures
        ({
            let items = materialized(input).items;
            let s = told_before(input, k);
            let r = told_before(input, k + 1);
            &&& r == entry_step(s, tail_context(input), input.entries[k])
            &&& head_lines(input).len() <= s.out.len() <= r.out.len() <= items.len()
            &&& forall|i: int| 0 <= i < r.out.len() ==> #[trigger] items[i] == r.out[i]
            &&& forall|i: int| 0 <= i < s.out.len() ==> #[trigger] r.out[i] == s.out[i]
        }),
{
    let from = tail_start(input.entries, 0);
    let ctx = tail_context(input);
    let first = started(
        head_lines(input),
        rolled_back(input.prior_generation, input.messages, input.turns).notes + world_state_note(
            input.world_state,
        ),
    );
    let s = told_before(input, k);
    let r = told_before(input, k + 1);
    let n = input.entries.len() as int;
    lemma_entries_grow(first, ctx, input.entries, from, from, k);
    lemma_entries_grow(first, ctx, input.entries, from, k, k + 1);
    lemma_entries_grow(first, ctx, input.entries, from, k + 1, n);
    let last = entries_emitted(first, ctx, input.entries, from, n);
    lemma_finished_grows(last, ctx);
    lemma_grows_on(r, last, rebuilt_tail(input));
    let items = materialized(input).items;
    assert forall|i: int| 0 <= i < r.out.len() implies #[trigger] items[i] == r.out[i] by {
        lemma_line_stays(r, rebuilt_tail(input), i);
    }
    assert forall|i: int| 0 <= i < s.out.len() implies #[trigger] r.out[i] == s.out[i] by {
        lemma_line_stays(s, r, i);
    }
}

/// What is to be said of a rebuilt rollout is never taken back: a world state that
/// is no object, and a doubtful rollback.
pub proof fn notes_are_never_taken_back(input: MaterializeInputView, note: Seq<char>)
    requires
        0 <= tail_start(input.entries, 0) <= input.entries.len(),
    ensures
        rolled_back(input.prior_generation, input.messages, input.turns).notes.contains(note)
            ==> materialized(input).gap_notes.contains(note),
        input.world_state matches Some(state) && !(state is Object)
            ==> materialized(input).gap_notes.contains(
            "world_state snapshot was not an object; omitted from rebuilt rollout"@,
        ),
{
    let from = tail_start(input.entries, 0);
    let ctx = tail_context(input);
    let doubts = rolled_back(input.prior_generation, input.messages, input.turns).notes;
    let notes = doubts + world_state_note(input.world_state);
    let first = started(head_lines(input), notes);
    let n = input.entries.len() as int;
    lemma_entries_grow(first, ctx, input.entries, from, from, n);
    let last = entries_emitted(first, ctx, input.entries, from, n);
    lemma_finished_grows(last, ctx);
    lemma_grows_on(first, last, rebuilt_tail(input));
    let all = materialized(input).gap_notes;
    assert forall|i: int| 0 <= i < notes.len() implies #[trigger] all[i] == notes[i] by {
        assert(all.take(notes.len() as int)[i] == all[i]);
    }
    if doubts.contains(note) {
        let i = choose|i: int| 0 <= i < doubts.len() && doubts[i] == note;
        assert(all[i] == notes[i]);
    }
    if notes.len() > doubts.len() {
        assert(all[doubts.len() as int] == notes[doubts.len() as int]);
    }
}

// ---------------------------------------------------------------------------
// What is left out
// ---------------------------------------------------------------------------

/// The stored messages that an entry was made of.
pub open spec fn made_of(entry: SessionThreadViewEntryView) -> Seq<
    SessionThreadViewEntrySourceView,
> {
    match entry {
        SessionThreadViewEntryView::Message(SessionThreadViewMessageView::User(u)) =>
            u.source_messages,
        SessionThreadViewEntryView::Message(SessionThreadViewMessageView::Assistant(a)) =>
            a.source_messages,
        SessionThreadViewEntryView::Message(SessionThreadViewMessageView::ToolResult(t)) =>
            t.source_messages,
        SessionThreadViewEntryView::Runtime(
            SessionThreadViewRuntimeEntryView::ModelChange { source_messages },
        ) => source_messages,
        SessionThreadViewEntryView::Runtime(
            SessionThreadViewRuntimeEntryView::ThinkingLevelChange { source_messages },
        ) => source_messages,
    }
}

/// Message `i` is the one named `id`: the last of that name.
pub open spec fn is_message(messages: Seq<MessageRecordView>, id: Seq<char>, i: int) -> bool {
    &&& 0 <= i < messages.len()
    &&& messages[i].message_id == id
    &&& forall|j: int| i < j < messages.len() ==> (#[trigger] messages[j]).message_id != id
}

/// A message is found by its name exactly when the store holds it, and of several
/// the last is found.
pub proof fn messages_are_found_by_name(messages: Seq<MessageRecordView>, id: Seq<char>)
    ensures
        (forall|i: int| 0 <= i < messages.len() ==> (#[trigger] messages[i]).message_id != id)
            ==> message_of(messages, id) is None,
        forall|i: int| #[trigger]
            is_message(messages, id, i) ==> message_of(messages, id) == Some(messages[i]),
        message_of(messages, id) matches Some(m) ==> exists|i: int| #[trigger]
            is_message(messages, id, i) && m == messages[i],
    decreases messages.len(),
{
    if messages.len() > 0 {
        let front = messages.drop_last();
        messages_are_found_by_name(front, id);
        let n = messages.len() - 1;
        if messages.last().message_id == id {
            assert(messages[n].message_id == id);
            assert(is_message(messages, id, n));
            assert forall|i: int| #[trigger] is_message(messages, id, i) implies message_of(
                messages,
                id,
            ) == Some(messages[i]) by {
                assert(i == n);
            }
        } else {
            assert forall|i: int| #[trigger] is_message(messages, id, i) implies message_of(
                messages,
                id,
            ) == Some(messages[i]) by {
                assert(i != n);
                assert(front[i] == messages[i]);
                assert forall|j: int| i < j < front.len() implies (#[trigger] front[j]).message_id
                    != id by {
                    assert(front[j] == messages[j]);
                }
                assert(is_message(front, id, i));
            }
            if forall|i: int| 0 <= i < messages.len() ==> (#[trigger] messages[i]).message_id
                != id {
                assert forall|i: int| 0 <= i < front.len() implies (
                #[trigger] front[i]).message_id != id by {
                    assert(front[i] == messages[i]);
                }
            }
            if let Some(m) = message_of(messages, id) {
                let i = choose|i: int| #[trigger] is_message(front, id, i) && m == front[i];
                assert(messages[i] == front[i]);
                assert forall|j: int| i < j < messages.len() implies (
                #[trigger] messages[j]).message_id != id by {
                    if j < n {
                        assert(front[j] == messages[j]);
                    }
                }
                assert(is_message(messages, id, i));
            }
        }
    }
}

/// The source is of a message of a turn that was rolled back.
pub open spec fn is_of_a_dropped_turn(
    ctx: TailContextView,
    source: SessionThreadViewEntrySourceView,
) -> bool {
    exists|i: int| #[trigger]
        is_message(ctx.messages, source.message_id, i) && ctx.rolled_back.contains(
            ctx.messages[i].turn_id,
        )
}

/// The entry is left out: all that it was made of was rolled back, or it is the
/// bookkeeping of a compact.
pub open spec fn is_left_out(ctx: TailContextView, entry: SessionThreadViewEntryView) -> bool {
    ||| made_of(entry).len() > 0 && forall|k: int|
        0 <= k < made_of(entry).len() ==> is_of_a_dropped_turn(ctx, #[trigger] made_of(entry)[k])
    ||| exists|k: int|
        0 <= k < made_of(entry).len() && ((#[trigger] made_of(entry)[k]).idempotency_key matches
            Some(key) && crate::compact_marker::is_marker_key(key))
}

proof fn lemma_dropped(ctx: TailContextView, source: SessionThreadViewEntrySourceView)
    ensures
        crate::tail::is_rolled_back_source(ctx, source) <==> is_of_a_dropped_turn(ctx, source),
{
    messages_are_found_by_name(ctx.messages, source.message_id);
    if is_of_a_dropped_turn(ctx, source) {
        let i = choose|i: int| #[trigger]
            is_message(ctx.messages, source.message_id, i) && ctx.rolled_back.contains(
                ctx.messages[i].turn_id,
            );
        assert(message_of(ctx.messages, source.message_id) == Some(ctx.messages[i]));
    }
}

proof fn lemma_left_out(ctx: TailContextView, entry: SessionThreadViewEntryView)
    ensures
        is_left_out(ctx, entry) <==> is_rolled_back_entry(ctx, entry) || is_marker_entry(entry),
        made_of(entry) == sources_of(entry),
{
    let sources = sources_of(entry);
    assert(made_of(entry) == sources);
    assert forall|k: int| 0 <= k < sources.len() implies (crate::tail::is_rolled_back_source(
        ctx,
        #[trigger] sources[k],
    ) <==> is_of_a_dropped_turn(ctx, sources[k])) by {
        lemma_dropped(ctx, sources[k]);
    }
}

/// An entry that is left out leaves no trace.
pub proof fn left_out_entries_leave_no_trace(
    s: TailView,
    ctx: TailContextView,
    entry: SessionThreadViewEntryView,
)
    requires
        is_left_out(ctx, entry),
    ensures
        entry_step(s, ctx, entry) == s,
{
    lemma_left_out(ctx, entry);
}

// ---------------------------------------------------------------------------
// What is told of an entry
// ---------------------------------------------------------------------------

/// Behind what was told before, these lines are told, one right behind the other.
pub open spec fn tells(s: TailView, r: TailView, lines: Seq<RolloutItemView>) -> bool {
    exists|p: int|
        s.out.len() <= p && p + lines.len() <= r.out.len() && #[trigger] r.out.subrange(
            p,
            p + lines.len(),
        ) == lines
}

proof fn lemma_tells(
    s: TailView,
    before: TailView,
    after: TailView,
    r: TailView,
    lines: Seq<RolloutItemView>,
    more: Seq<RolloutItemView>,
)
    requires
        grows(s, before),
        after.out == before.out + (lines + more),
        grows(after, r),
    ensures
        tells(s, r, lines),
{
    let p = before.out.len() as int;
    assert(r.out.subrange(p, p + lines.len()) =~= lines) by {
        assert forall|i: int| 0 <= i < lines.len() implies r.out[p + i] == lines[i] by {
            lemma_line_stays(after, r, p + i);
        }
    }
}

/// Something that the user says.
pub open spec fn users_words(text: Seq<char>) -> ResponseItemView {
    ResponseItemView::Message {
        id: None,
        role: "user"@,
        content: seq![ContentItemView::InputText { text }],
        phase: None,
        internal_chat_message_metadata_passthrough: None,
    }
}

proof fn lemma_one_part(part: ContentItemView, text: Seq<char>)
    requires
        part == (ContentItemView::InputText { text }) || part == (ContentItemView::OutputText {
            text,
        }),
    ensures
        crate::rollback::content_text_of(seq![part]) == text,
{
    reveal_with_fuel(crate::text::joined, 2);
}

/// None of the sources is a note of the host.
pub open spec fn has_no_note(
    ctx: TailContextView,
    sources: Seq<SessionThreadViewEntrySourceView>,
) -> bool {
    forall|k: int, i: int|
        0 <= k < sources.len() && #[trigger] is_message(
            ctx.messages,
            (#[trigger] sources[k]).message_id,
            i,
        ) ==> ctx.messages[i].kind != MessageKind::RuntimeNote
}

proof fn lemma_no_note(
    ctx: TailContextView,
    sources: Seq<SessionThreadViewEntrySourceView>,
    k: int,
)
    requires
        has_no_note(ctx, sources),
        0 <= k <= sources.len(),
    ensures
        note_text(ctx, sources, k) is None,
    decreases sources.len() - k,
{
    if k < sources.len() {
        messages_are_found_by_name(ctx.messages, sources[k].message_id);
        if let Some(m) = message_of(ctx.messages, sources[k].message_id) {
            let i = choose|i: int| #[trigger]
                is_message(ctx.messages, sources[k].message_id, i) && m == ctx.messages[i];
            assert(ctx.messages[i].kind != MessageKind::RuntimeNote);
        }
        lemma_no_note(ctx, sources, k + 1);
    }
}

/// What the user said is told as an item and shown by an event, with the text that
/// the store holds of it, or that of the entry where the store holds none.
pub proof fn words_of_the_user_are_told(
    s: TailView,
    ctx: TailContextView,
    u: SessionUserMessageView,
    text: Seq<char>,
)
    requires
        ({
            let entry = SessionThreadViewEntryView::Message(SessionThreadViewMessageView::User(u));
            &&& !is_left_out(ctx, entry)
            &&& has_no_note(ctx, u.source_messages)
            &&& u.content.len() > 0
        }),
        text.len() > 0,
        (u.source_messages.len() > 0 && exists|i: int| #[trigger]
            is_message(ctx.messages, u.source_messages[0].message_id, i) && text_of_message(
                ctx.messages[i],
            ) == text) || (text == u.content && (u.source_messages.len() == 0 || forall|i: int|
            #[trigger]
            is_message(ctx.messages, u.source_messages[0].message_id, i) ==> text_of_message(
                ctx.messages[i],
            ).len() == 0)),
    ensures
        tells(
            s,
            entry_step(
                s,
                ctx,
                SessionThreadViewEntryView::Message(SessionThreadViewMessageView::User(u)),
            ),
            seq![
                RolloutItemView::ResponseItem(users_words(text)),
                RolloutItemView::EventMsg(EventMsgView::UserMessage { message: text }),
            ],
        ),
{
    let entry = SessionThreadViewEntryView::Message(SessionThreadViewMessageView::User(u));
    lemma_left_out(ctx, entry);
    lemma_entry_grows(s, ctx, entry);
    lemma_no_note(ctx, u.source_messages, 0);
    if u.source_messages.len() > 0 {
        let id = u.source_messages[0].message_id;
        messages_are_found_by_name(ctx.messages, id);
        if let Some(m) = message_of(ctx.messages, id) {
            let i = choose|i: int| #[trigger] is_message(ctx.messages, id, i) && m == ctx.messages[i];
            assert(is_message(ctx.messages, id, i));
        }
    }
    assert(user_text(ctx, u) == text);
    lemma_one_part(ContentItemView::InputText { text }, text);
    let lines = seq![
        RolloutItemView::ResponseItem(users_words(text)),
        RolloutItemView::EventMsg(EventMsgView::UserMessage { message: text }),
    ];
    let opened = sources_opened(s, ctx, sources_of(entry), sources_of(entry).len() as int);
    let emitted = entry_emitted(opened, ctx, entry).0;
    assert(item_lines(users_words(text)) =~= lines);
    assert(lines + Seq::<RolloutItemView>::empty() =~= lines);
    lemma_tells(s, opened, emitted, entry_step(s, ctx, entry), lines, Seq::empty());
}

/// A note of the host is told as an item, with its text, and shown by nothing.
pub proof fn notes_of_the_host_are_told(
    s: TailView,
    ctx: TailContextView,
    u: SessionUserMessageView,
    k: int,
    i: int,
)
    requires
        !is_left_out(
            ctx,
            SessionThreadViewEntryView::Message(SessionThreadViewMessageView::User(u)),
        ),
        0 <= k < u.source_messages.len(),
        has_no_note(ctx, u.source_messages.take(k)),
        is_message(ctx.messages, u.source_messages[k].message_id, i),
        ctx.messages[i].kind == MessageKind::RuntimeNote,
        text_of_message(ctx.messages[i]).len() > 0,
    ensures
        tells(
            s,
            entry_step(
                s,
                ctx,
                SessionThreadViewEntryView::Message(SessionThreadViewMessageView::User(u)),
            ),
            seq![
                RolloutItemView::ResponseItem(users_words(text_of_message(ctx.messages[i]))),
            ],
        ),
{
    let entry = SessionThreadViewEntryView::Message(SessionThreadViewMessageView::User(u));
    lemma_left_out(ctx, entry);
    lemma_entry_grows(s, ctx, entry);
    lemma_first_note(ctx, u.source_messages, 0, k);
    messages_are_found_by_name(ctx.messages, u.source_messages[k].message_id);
    assert(message_of(ctx.messages, u.source_messages[k].message_id) == Some(ctx.messages[i]));
    let lines = seq![
        RolloutItemView::ResponseItem(users_words(text_of_message(ctx.messages[i]))),
    ];
    let opened = sources_opened(s, ctx, sources_of(entry), sources_of(entry).len() as int);
    let emitted = entry_emitted(opened, ctx, entry).0;
    assert(lines + Seq::<RolloutItemView>::empty() =~= lines);
    lemma_tells(s, opened, emitted, entry_step(s, ctx, entry), lines, Seq::empty());
}

proof fn lemma_first_note(
    ctx: TailContextView,
    sources: Seq<SessionThreadViewEntrySourceView>,
    j: int,
    k: int,
)
    requires
        0 <= j <= k < sources.len(),
        has_no_note(ctx, sources.take(k)),
    ensures
        note_text(ctx, sources, j) == note_text(ctx, sources, k),
    decreases k - j,
{
    if j < k {
        assert(sources.take(k)[j] == sources[j]);
        messages_are_found_by_name(ctx.messages, sources[j].message_id);
        if let Some(m) = message_of(ctx.messages, sources[j].message_id) {
            let i = choose|i: int| #[trigger]
                is_message(ctx.messages, sources[j].message_id, i) && m == ctx.messages[i];
            assert(is_message(ctx.messages, sources.take(k)[j].message_id, i));
            assert(ctx.messages[i].kind != MessageKind::RuntimeNote);
        }
        lemma_first_note(ctx, sources, j + 1, k);
    }
}

// ---------------------------------------------------------------------------
// What the assistant did
// ---------------------------------------------------------------------------

/// Part `j` of an entry of the assistant is told: its message was not rolled back.
pub open spec fn part_is_told(
    ctx: TailContextView,
    a: SessionAssistantMessageView,
    j: int,
) -> bool {
    &&& 0 <= j < a.content.len()
    &&& j < a.source_messages.len() ==> !is_of_a_dropped_turn(ctx, a.source_messages[j])
}

/// The identity that the host gave to what part `j` was made of, as its key holds it.
pub open spec fn id_of_part(a: SessionAssistantMessageView, j: int) -> Option<Seq<char>> {
    if 0 <= j < a.source_messages.len() && a.source_messages[j].idempotency_key is Some {
        crate::host_ids::host_id_of_key(a.source_messages[j].idempotency_key->0)
    } else {
        None
    }
}

proof fn lemma_part_told(
    s: TailView,
    ctx: TailContextView,
    a: SessionAssistantMessageView,
    j: int,
    lines: Seq<RolloutItemView>,
)
    requires
        !is_left_out(
            ctx,
            SessionThreadViewEntryView::Message(SessionThreadViewMessageView::Assistant(a)),
        ),
        part_is_told(ctx, a, j),
        forall|t: TailView, turn_id: Seq<char>|
            (#[trigger] part_emitted(
                t,
                a.content[j],
                id_of_part(a, j),
                turn_id,
                stored_identity(a),
                ctx.live_identity,
            )).out == t.out + lines,
    ensures
        tells(
            s,
            entry_step(
                s,
                ctx,
                SessionThreadViewEntryView::Message(SessionThreadViewMessageView::Assistant(a)),
            ),
            lines,
        ),
{
    let entry = SessionThreadViewEntryView::Message(SessionThreadViewMessageView::Assistant(a));
    lemma_left_out(ctx, entry);
    lemma_entry_grows(s, ctx, entry);
    let opened = sources_opened(s, ctx, sources_of(entry), sources_of(entry).len() as int);
    let n = a.content.len() as int;
    let before = parts_emitted(opened, ctx, a, j);
    let source = source_at(a.source_messages, j);
    let msg = crate::tail::message_of_source(ctx, source);
    if j < a.source_messages.len() {
        lemma_dropped(ctx, a.source_messages[j]);
    }
    assert(host_id_of_source(source) == id_of_part(a, j));
    let turn_id = match msg {
        Some(m) => m.turn_id,
        None => Seq::empty(),
    };
    let emitted = part_emitted(
        before,
        a.content[j],
        id_of_part(a, j),
        turn_id,
        stored_identity(a),
        ctx.live_identity,
    );
    let after = parts_emitted(opened, ctx, a, j + 1);
    lemma_same_grows(emitted);
    if msg is Some {
        lemma_usage_grows(emitted, ctx, msg->0.message_id);
    }
    assert(grows(emitted, after));
    lemma_parts_grow(opened, ctx, a, 0, j);
    lemma_parts_grow(opened, ctx, a, j + 1, n);
    let all = parts_emitted(opened, ctx, a, n);
    let r = entry_step(s, ctx, entry);
    lemma_grows_on(s, opened, before);
    lemma_grows_on(emitted, after, all);
    lemma_grows_on(emitted, all, r);
    assert(lines + Seq::<RolloutItemView>::empty() =~= lines);
    lemma_tells(s, before, emitted, r, lines, Seq::empty());
}

/// What the assistant said is told as an item, under its identity, and shown by an
/// event.
pub proof fn words_of_the_assistant_are_told(
    s: TailView,
    ctx: TailContextView,
    a: SessionAssistantMessageView,
    j: int,
    text: Seq<char>,
)
    requires
        !is_left_out(
            ctx,
            SessionThreadViewEntryView::Message(SessionThreadViewMessageView::Assistant(a)),
        ),
        part_is_told(ctx, a, j),
        a.content[j].type_ == SessionAssistantPartType::Text,
        a.content[j].text == Some(text),
        text.len() > 0,
    ensures
        tells(
            s,
            entry_step(
                s,
                ctx,
                SessionThreadViewEntryView::Message(SessionThreadViewMessageView::Assistant(a)),
            ),
            seq![
                RolloutItemView::ResponseItem(
                    ResponseItemView::Message {
                        id: worn(id_of_part(a, j)),
                        role: "assistant"@,
                        content: seq![ContentItemView::OutputText { text }],
                        phase: None,
                        internal_chat_message_metadata_passthrough: None,
                    },
                ),
                RolloutItemView::EventMsg(EventMsgView::AgentMessage { message: text }),
            ],
        ),
{
    reveal_strlit("user");
    reveal_strlit("assistant");
    assert("user"@.len() != "assistant"@.len());
    let item = ResponseItemView::Message {
        id: worn(id_of_part(a, j)),
        role: "assistant"@,
        content: seq![ContentItemView::OutputText { text }],
        phase: None,
        internal_chat_message_metadata_passthrough: None,
    };
    let lines = seq![
        RolloutItemView::ResponseItem(item),
        RolloutItemView::EventMsg(EventMsgView::AgentMessage { message: text }),
    ];
    lemma_one_part(ContentItemView::OutputText { text }, text);
    assert(recovered_id(id_of_part(a, j)) == worn(id_of_part(a, j)));
    assert(item_lines(item) =~= lines);
    lemma_part_told(s, ctx, a, j, lines);
}

/// What the assistant thought is told as an item, under its identity, and shown by
/// an event where it has words. Its signature is given back exactly when the model
/// that signed it is known in full and is the one that runs.
pub proof fn thoughts_of_the_assistant_are_told(
    s: TailView,
    ctx: TailContextView,
    a: SessionAssistantMessageView,
    j: int,
    text: Seq<char>,
    signed: Option<Seq<char>>,
)
    requires
        !is_left_out(
            ctx,
            SessionThreadViewEntryView::Message(SessionThreadViewMessageView::Assistant(a)),
        ),
        part_is_told(ctx, a, j),
        a.content[j].type_ == SessionAssistantPartType::Thinking,
        a.content[j].thinking == Some(text) || (a.content[j].thinking is None && text.len() == 0),
        signed is Some ==> signed->0.len() > 0,
        a.content[j].thinking_signature == signed || (signed is None
            && a.content[j].thinking_signature == Some(Seq::<char>::empty())),
        text.len() > 0 || signed is Some,
    ensures
        ({
            let known = |name: Option<Seq<char>>| name is Some && name->0.len() > 0;
            let same = ctx.live_identity matches Some(live) && live.provider == a.provider
                && live.model == a.model && live.api == a.api && known(a.provider) && known(a.model)
                && known(a.api);
            let item = RolloutItemView::ResponseItem(
                ResponseItemView::Reasoning {
                    id: worn(id_of_part(a, j)),
                    summary: if text.len() == 0 {
                        Seq::empty()
                    } else {
                        seq![ReasoningItemReasoningSummaryView::SummaryText { text }]
                    },
                    content: None,
                    encrypted_content: if same {
                        signed
                    } else {
                        None
                    },
                    internal_chat_message_metadata_passthrough: None,
                },
            );
            tells(
                s,
                entry_step(
                    s,
                    ctx,
                    SessionThreadViewEntryView::Message(SessionThreadViewMessageView::Assistant(a)),
                ),
                if text.len() == 0 {
                    seq![item]
                } else {
                    seq![item, RolloutItemView::EventMsg(EventMsgView::AgentReasoning { text })]
                },
            )
        }),
{
    let known = |name: Option<Seq<char>>| name is Some && name->0.len() > 0;
    let same = ctx.live_identity matches Some(live) && live.provider == a.provider && live.model
        == a.model && live.api == a.api && known(a.provider) && known(a.model) && known(a.api);
    let summary = if text.len() == 0 {
        Seq::empty()
    } else {
        seq![ReasoningItemReasoningSummaryView::SummaryText { text }]
    };
    let item = ResponseItemView::Reasoning {
        id: worn(id_of_part(a, j)),
        summary,
        content: None,
        encrypted_content: if same {
            signed
        } else {
            None
        },
        internal_chat_message_metadata_passthrough: None,
    };
    let lines = if text.len() == 0 {
        seq![RolloutItemView::ResponseItem(item)]
    } else {
        seq![
            RolloutItemView::ResponseItem(item),
            RolloutItemView::EventMsg(EventMsgView::AgentReasoning { text }),
        ]
    };
    assert(recovered_id(id_of_part(a, j)) == worn(id_of_part(a, j)));
    let stored = stored_identity(a);
    assert(same <==> crate::mapping::identity_complete(stored) && ctx.live_identity == Some(stored))
        by {
        if let Some(live) = ctx.live_identity {
            if live.provider == a.provider && live.model == a.model && live.api == a.api {
                assert(live =~= stored);
            }
        }
    }
    assert(crate::reverse::summary_text(summary) == text) by {
        reveal_with_fuel(crate::text::joined, 2);
        let texts = summary.map_values(
            |s: ReasoningItemReasoningSummaryView|
                match s {
                    ReasoningItemReasoningSummaryView::SummaryText { text } => text,
                },
        );
        if text.len() == 0 {
            assert(texts.len() == 0);
            assert(crate::reverse::summary_text(summary) =~= text);
        } else {
            assert(texts.len() == 1 && texts[0] == text);
        }
    }
    assert(item_lines(item) =~= lines);
    assert forall|t: TailView, turn_id: Seq<char>|
        (#[trigger] part_emitted(
            t,
            a.content[j],
            id_of_part(a, j),
            turn_id,
            stored,
            ctx.live_identity,
        )).out == t.out + lines by {
        let part = a.content[j];
        assert(crate::reverse::or_empty(part.thinking) =~= text);
        assert(crate::tail::real_signature(part.thinking_signature) == signed);
        assert(crate::tail::thought_item(
            recovered_id(id_of_part(a, j)),
            text,
            signed,
            stored,
            ctx.live_identity,
        ) == item);
    }
    lemma_part_told(s, ctx, a, j, lines);
}

/// What the assistant called is told as the call that it was.
pub proof fn calls_of_the_assistant_are_told(
    s: TailView,
    ctx: TailContextView,
    a: SessionAssistantMessageView,
    j: int,
    name: Seq<char>,
    call_id: Seq<char>,
    arguments: crate::json::Entries,
)
    requires
        !is_left_out(
            ctx,
            SessionThreadViewEntryView::Message(SessionThreadViewMessageView::Assistant(a)),
        ),
        part_is_told(ctx, a, j),
        a.content[j].type_ == SessionAssistantPartType::ToolCall,
        a.content[j].tool_name == Some(name),
        name != "image_generation"@,
        a.content[j].tool_call_id == Some(call_id),
        a.content[j].arguments == Some(JsonView::Object(arguments)),
    ensures
        tells(
            s,
            entry_step(
                s,
                ctx,
                SessionThreadViewEntryView::Message(SessionThreadViewMessageView::Assistant(a)),
            ),
            item_lines(
                rebuilt_call(
                    name,
                    call_id,
                    arguments,
                    id_of_part(a, j),
                    match text_entry(arguments, "__hostRaw"@) {
                        Some(raw) => json_read(raw),
                        None => None,
                    },
                ).item,
            ),
        ),
{
    let read = match text_entry(arguments, "__hostRaw"@) {
        Some(raw) => json_read(raw),
        None => None,
    };
    let c = rebuilt_call(name, call_id, arguments, id_of_part(a, j), read);
    lemma_part_told(s, ctx, a, j, item_lines(c.item));
}

/// The lines of an item begin with the item.
pub proof fn lines_begin_with_the_item(item: ResponseItemView)
    ensures
        item_lines(item).len() >= 1,
        item_lines(item)[0] == RolloutItemView::ResponseItem(item),
        item_lines(item).len() <= 2,
        item_lines(item).len() == 2 ==> item_lines(item)[1] is EventMsg,
{
}

// ---------------------------------------------------------------------------
// What came of a call
// ---------------------------------------------------------------------------

/// No image waits for the call.
pub open spec fn no_image_waits(s: TailView, id: Seq<char>) -> bool {
    forall|k: int| 0 <= k < s.pending.len() ==> (#[trigger] s.pending[k]).call_id != id
}

proof fn lemma_none_waits_in(images: Seq<crate::tail::PendingImageView>, turn: Seq<char>, id: Seq<char>)
    requires
        forall|k: int| 0 <= k < images.len() ==> (#[trigger] images[k]).call_id != id,
    ensures
        forall|k: int|
            0 <= k < crate::tail::images_of_turn(images, turn, false).len() ==> (
            #[trigger] crate::tail::images_of_turn(images, turn, false)[k]).call_id != id,
    decreases images.len(),
{
    if images.len() > 0 {
        let less = images.drop_last();
        assert forall|k: int| 0 <= k < less.len() implies (#[trigger] less[k]).call_id != id by {
            assert(less[k] == images[k]);
        }
        lemma_none_waits_in(less, turn, id);
        assert(images[images.len() - 1].call_id != id);
    }
}

proof fn lemma_closing_keeps_calls(
    s: TailView,
    names: Seq<crate::host_turn_ids::TurnIdPairView>,
    turns: Seq<TurnRecordView>,
    order: Seq<int>,
    n: int,
    id: Seq<char>,
)
    ensures
        turns_closed(s, names, turns, order, n).calls == s.calls,
        no_image_waits(s, id) ==> no_image_waits(turns_closed(s, names, turns, order, n), id),
    decreases n,
{
    if n > 0 {
        lemma_closing_keeps_calls(s, names, turns, order, n - 1, id);
        let before = turns_closed(s, names, turns, order, n - 1);
        if no_image_waits(s, id) {
            lemma_none_waits_in(before.pending, turns[order[n - 1]].turn_id, id);
        }
    }
}

proof fn lemma_opening_keeps_calls(
    s: TailView,
    ctx: TailContextView,
    sources: Seq<SessionThreadViewEntrySourceView>,
    n: int,
    id: Seq<char>,
)
    ensures
        sources_opened(s, ctx, sources, n).calls == s.calls,
        no_image_waits(s, id) ==> no_image_waits(sources_opened(s, ctx, sources, n), id),
    decreases n,
{
    if n > 0 {
        lemma_opening_keeps_calls(s, ctx, sources, n - 1, id);
        let before = sources_opened(s, ctx, sources, n - 1);
        if let Some(m) = message_of(ctx.messages, sources[n - 1].message_id) {
            let turns = crate::tail::closable_turns(
                before,
                ctx.turns,
                crate::tail::order_of(ctx.turns, m.turn_id),
                before.opened.len() as int,
            );
            let order = crate::ordering::stable_order(crate::tail::turn_keys(turns));
            lemma_closing_keeps_calls(before, ctx.names, turns, order, order.len() as int, id);
        }
    }
}

/// What result `j` of message `i` says of whether it is an error.
pub open spec fn result_says(ctx: TailContextView, i: int, j: int) -> Option<bool> {
    match crate::json::member(ctx.messages[i].blocks[j].content, "isError"@) {
        Some(JsonView::Bool(b)) => Some(b),
        _ => None,
    }
}

/// Result `j` of message `i` is the first of the message that a result entry was
/// made of.
pub open spec fn is_stored_result(
    ctx: TailContextView,
    t: SessionToolResultMessageView,
    i: int,
    j: int,
) -> bool {
    &&& t.source_messages.len() > 0
    &&& is_message(ctx.messages, t.source_messages[0].message_id, i)
    &&& is_first_result(ctx.messages[i].blocks, j)
}

/// What the store says of whether a result is an error: what the first result
/// among the blocks of its message says, and nothing where there is none.
pub open spec fn store_says(
    ctx: TailContextView,
    t: SessionToolResultMessageView,
    said: Option<bool>,
) -> bool {
    ||| exists|i: int, j: int| #[trigger]
        is_stored_result(ctx, t, i, j) && said == result_says(ctx, i, j)
    ||| said is None && (t.source_messages.len() == 0 || forall|i: int| #[trigger]
        is_message(ctx.messages, t.source_messages[0].message_id, i) ==> forall|j: int|
            0 <= j < ctx.messages[i].blocks.len() ==> (
            #[trigger] ctx.messages[i].blocks[j]).block_type != BlockType::ToolResult)
}

proof fn lemma_store_says(
    ctx: TailContextView,
    t: SessionToolResultMessageView,
    said: Option<bool>,
)
    requires
        store_says(ctx, t, said),
    ensures
        crate::tail::message_is_error(
            crate::tail::message_of_source(ctx, source_at(t.source_messages, 0)),
        ) == said,
{
    if t.source_messages.len() > 0 {
        let id = t.source_messages[0].message_id;
        messages_are_found_by_name(ctx.messages, id);
        if exists|i: int, j: int| #[trigger]
            is_stored_result(ctx, t, i, j) && said == result_says(ctx, i, j) {
            let (i, j) = choose|i: int, j: int| #[trigger]
                is_stored_result(ctx, t, i, j) && said == result_says(ctx, i, j);
            assert(is_message(ctx.messages, id, i));
            errors_are_what_the_store_says(ctx.messages[i].blocks, j);
        } else {
            if let Some(m) = message_of(ctx.messages, id) {
                let i = choose|i: int| #[trigger]
                    is_message(ctx.messages, id, i) && m == ctx.messages[i];
                assert(is_message(ctx.messages, id, i));
                errors_are_what_the_store_says(ctx.messages[i].blocks, 0);
            }
        }
    }
}

/// A result is told as the item that it was: the output of its call, with its text
/// and its outcome. Whether it is an error the store says, or else the entry.
pub proof fn results_of_calls_are_told(
    s: TailView,
    ctx: TailContextView,
    t: SessionToolResultMessageView,
    said: Option<bool>,
)
    requires
        !is_left_out(
            ctx,
            SessionThreadViewEntryView::Message(SessionThreadViewMessageView::ToolResult(t)),
        ),
        t.source_messages.len() > 0 ==> !is_of_a_dropped_turn(ctx, t.source_messages[0]),
        t.tool_name != Some("image_generation"@),
        no_image_waits(s, t.tool_call_id),
        store_says(ctx, t, said),
    ensures
        tells(
            s,
            entry_step(
                s,
                ctx,
                SessionThreadViewEntryView::Message(SessionThreadViewMessageView::ToolResult(t)),
            ),
            item_lines(
                rebuilt_result(
                    t.tool_call_id,
                    t.tool_name,
                    t.content,
                    if said is Some {
                        said
                    } else {
                        t.is_error
                    },
                    if t.source_messages.len() > 0 && t.source_messages[0].idempotency_key is Some {
                        crate::host_ids::host_id_of_key(t.source_messages[0].idempotency_key->0)
                    } else {
                        None
                    },
                    crate::tail::kind_of_call(s.calls, t.tool_call_id),
                    json_read(t.content),
                ).item,
            ),
        ),
{
    let entry = SessionThreadViewEntryView::Message(SessionThreadViewMessageView::ToolResult(t));
    lemma_left_out(ctx, entry);
    lemma_entry_grows(s, ctx, entry);
    let n = t.source_messages.len() as int;
    lemma_opening_keeps_calls(s, ctx, t.source_messages, n, t.tool_call_id);
    if n > 0 {
        lemma_dropped(ctx, t.source_messages[0]);
    }
    lemma_store_says(ctx, t, said);
    let opened = sources_opened(s, ctx, t.source_messages, n);
    crate::tail_turn_laws::waiting_images_are_found(opened.pending, t.tool_call_id, 0);
    let emitted = entry_emitted(opened, ctx, entry).0;
    let lines = item_lines(
        rebuilt_result(
            t.tool_call_id,
            t.tool_name,
            t.content,
            if said is Some {
                said
            } else {
                t.is_error
            },
            host_id_of_source(source_at(t.source_messages, 0)),
            crate::tail::kind_of_call(s.calls, t.tool_call_id),
            json_read(t.content),
        ).item,
    );
    let more = emitted.out.skip((opened.out + lines).len() as int);
    assert(emitted.out =~= opened.out + (lines + more));
    lemma_tells(s, opened, emitted, entry_step(s, ctx, entry), lines, more);
}

/// What a message used is told right behind what it says, with the sums so far.
pub proof fn usage_is_told(s: TailView, ctx: TailContextView, id: Seq<char>)
    ensures
        crate::usage::usage_at(ctx.messages, ctx.rolled_back, id) matches Some((total, last))
            ==> usage_told(s, ctx, id).out == s.out.push(
            RolloutItemView::EventMsg(
                EventMsgView::TokenCount { total_token_usage: total, last_token_usage: last },
            ),
        ),
        crate::usage::usage_at(ctx.messages, ctx.rolled_back, id) is None ==> usage_told(s, ctx, id)
            == s,
{
}

/// The usage of a stored result is told behind it.
pub proof fn usage_of_results_is_told(
    s: TailView,
    ctx: TailContextView,
    t: SessionToolResultMessageView,
    i: int,
    total: crate::records::TokenUsageView,
    last: crate::records::TokenUsageView,
)
    requires
        !is_left_out(
            ctx,
            SessionThreadViewEntryView::Message(SessionThreadViewMessageView::ToolResult(t)),
        ),
        t.source_messages.len() > 0,
        is_message(ctx.messages, t.source_messages[0].message_id, i),
        !ctx.rolled_back.contains(ctx.messages[i].turn_id),
        crate::usage::usage_at(
            ctx.messages,
            ctx.rolled_back,
            t.source_messages[0].message_id,
        ) == Some((total, last)),
    ensures
        tells(
            s,
            entry_step(
                s,
                ctx,
                SessionThreadViewEntryView::Message(SessionThreadViewMessageView::ToolResult(t)),
            ),
            seq![
                RolloutItemView::EventMsg(
                    EventMsgView::TokenCount { total_token_usage: total, last_token_usage: last },
                ),
            ],
        ),
{
    let entry = SessionThreadViewEntryView::Message(SessionThreadViewMessageView::ToolResult(t));
    lemma_left_out(ctx, entry);
    lemma_entry_grows(s, ctx, entry);
    messages_are_found_by_name(ctx.messages, t.source_messages[0].message_id);
    let n = t.source_messages.len() as int;
    let opened = sources_opened(s, ctx, t.source_messages, n);
    let emitted = entry_emitted(opened, ctx, entry).0;
    let line = RolloutItemView::EventMsg(
        EventMsgView::TokenCount { total_token_usage: total, last_token_usage: last },
    );
    assert(emitted.out.len() > opened.out.len());
    assert(emitted.out.last() == line);
    let before = TailView { out: emitted.out.drop_last(), ..emitted };
    assert(grows(s, before)) by {
        lemma_grows_on(s, opened, emitted);
        assert(before.out.take(s.out.len() as int) =~= emitted.out.take(s.out.len() as int));
    }
    assert(seq![line] + Seq::<RolloutItemView>::empty() =~= seq![line]);
    assert(emitted.out =~= before.out + (seq![line] + Seq::<RolloutItemView>::empty()));
    lemma_tells(s, before, emitted, entry_step(s, ctx, entry), seq![line], Seq::empty());
}

/// What a message of the assistant used is told behind its last part.
pub proof fn usage_of_parts_is_told(
    s: TailView,
    ctx: TailContextView,
    a: SessionAssistantMessageView,
    j: int,
    i: int,
    total: crate::records::TokenUsageView,
    last: crate::records::TokenUsageView,
)
    requires
        !is_left_out(
            ctx,
            SessionThreadViewEntryView::Message(SessionThreadViewMessageView::Assistant(a)),
        ),
        part_is_told(ctx, a, j),
        j < a.source_messages.len(),
        is_message(ctx.messages, a.source_messages[j].message_id, i),
        j + 1 < a.source_messages.len() ==> a.source_messages[j + 1].message_id
            != a.source_messages[j].message_id,
        crate::usage::usage_at(
            ctx.messages,
            ctx.rolled_back,
            a.source_messages[j].message_id,
        ) == Some((total, last)),
    ensures
        tells(
            s,
            entry_step(
                s,
                ctx,
                SessionThreadViewEntryView::Message(SessionThreadViewMessageView::Assistant(a)),
            ),
            seq![
                RolloutItemView::EventMsg(
                    EventMsgView::TokenCount { total_token_usage: total, last_token_usage: last },
                ),
            ],
        ),
{
    let entry = SessionThreadViewEntryView::Message(SessionThreadViewMessageView::Assistant(a));
    lemma_left_out(ctx, entry);
    lemma_entry_grows(s, ctx, entry);
    lemma_dropped(ctx, a.source_messages[j]);
    messages_are_found_by_name(ctx.messages, a.source_messages[j].message_id);
    let opened = sources_opened(s, ctx, sources_of(entry), sources_of(entry).len() as int);
    let n = a.content.len() as int;
    lemma_parts_grow(opened, ctx, a, 0, j);
    lemma_parts_grow(opened, ctx, a, j + 1, n);
    let before = parts_emitted(opened, ctx, a, j);
    let after = parts_emitted(opened, ctx, a, j + 1);
    let line = RolloutItemView::EventMsg(
        EventMsgView::TokenCount { total_token_usage: total, last_token_usage: last },
    );
    let emitted = part_emitted(
        before,
        a.content[j],
        host_id_of_source(source_at(a.source_messages, j)),
        ctx.messages[i].turn_id,
        stored_identity(a),
        ctx.live_identity,
    );
    lemma_part_grows(
        before,
        a.content[j],
        host_id_of_source(source_at(a.source_messages, j)),
        ctx.messages[i].turn_id,
        stored_identity(a),
        ctx.live_identity,
    );
    let m = ctx.messages[i];
    assert(is_message(ctx.messages, a.source_messages[j].message_id, i));
    assert(crate::tail::message_of_source(ctx, source_at(a.source_messages, j)) == Some(m));
    assert(!ctx.rolled_back.contains(m.turn_id));
    assert(after == usage_told(emitted, ctx, m.message_id));
    assert(after.out =~= emitted.out.push(line));
    lemma_grows_on(s, opened, before);
    lemma_grows_on(s, before, emitted);
    let r = entry_step(s, ctx, entry);
    lemma_grows_on(after, parts_emitted(opened, ctx, a, n), r);
    assert(seq![line] + Seq::<RolloutItemView>::empty() =~= seq![line]);
    assert(after.out =~= emitted.out + (seq![line] + Seq::<RolloutItemView>::empty()));
    lemma_tells(s, emitted, after, r, seq![line], Seq::empty());
}

} // verus!
