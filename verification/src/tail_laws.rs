//! What holds of every rebuilt tail.

use vstd::prelude::*;

use crate::host_turn_ids::{shown_name, TurnIdPairView};
use crate::ordering::{every_row_is_ordered, in_order, stable_order, stable_order_is_sorted};
use crate::protocol::ResponseItemView;
use crate::records::{MessageRecordView, TurnRecordView, TurnStatus};
use crate::reverse::{item_lines, rebuilt_call, rebuilt_result, unanswered_image};
use crate::rollback::{lemma_turn_of, message_of, turn_of};
use crate::rollout::{EventMsgView, RolloutItemView};
use crate::tail::{
    all_closed, closable_turns, closed_behind, entries_emitted, entry_emitted, entry_step,
    images_of_turn, is_closable, is_over, left_open, message_of_source, order_of, part_emitted,
    parts_emitted, result_emitted, source_at, sources_closed, sources_of, sources_opened, started,
    turn_closed, turn_end_event, turn_keys, turn_opened, turn_start_event, turns_closed,
    unanswered_lines, usage_told, user_lines, whole_tail, with_lines, PendingImageView,
    TailContextView, TailView,
};
use crate::thread_view::{
    SessionAssistantMessageView, SessionThreadViewEntrySourceView, SessionThreadViewEntryView,
    SessionThreadViewMessageView,
};

verus! {

/// The turn that a line starts.
pub open spec fn turn_started_by(line: RolloutItemView) -> Option<Seq<char>> {
    match line {
        RolloutItemView::EventMsg(EventMsgView::TurnStarted { turn_id, .. }) => Some(turn_id),
        _ => None,
    }
}

/// The turn that a line ends.
pub open spec fn turn_ended_by(line: RolloutItemView) -> Option<Seq<char>> {
    match line {
        RolloutItemView::EventMsg(EventMsgView::TurnComplete { turn_id, .. }) => Some(turn_id),
        RolloutItemView::EventMsg(EventMsgView::TurnAborted { turn_id, .. }) => turn_id,
        _ => None,
    }
}

/// A turn that is over is shown under that name.
pub open spec fn is_name_of_closed(
    turns: Seq<TurnRecordView>,
    names: Seq<TurnIdPairView>,
    name: Seq<char>,
) -> bool {
    exists|k: int|
        0 <= k < turns.len() && (#[trigger] turns[k]).status == TurnStatus::Closed && shown_name(
            names,
            turns[k].turn_id,
        ) == name
}

/// The line starts and ends no turn but one that is over, under the name that
/// the turn is shown by.
pub open spec fn is_of_closed_turn(
    turns: Seq<TurnRecordView>,
    names: Seq<TurnIdPairView>,
    line: RolloutItemView,
) -> bool {
    &&& turn_started_by(line) matches Some(name) ==> is_name_of_closed(turns, names, name)
    &&& turn_ended_by(line) matches Some(name) ==> is_name_of_closed(turns, names, name)
}

/// The line is one that a tail may hold: an item, or an event that shows
/// something; never a boundary, never the mark of a compact, never a rollback,
/// and never the start or the end of a turn that is not over.
pub open spec fn is_tail_line(ctx: TailContextView, line: RolloutItemView) -> bool {
    &&& match line {
        RolloutItemView::ResponseItem(_) => true,
        RolloutItemView::EventMsg(e) => !(e is ThreadRolledBack) && !(e is ContextCompacted),
        _ => false,
    }
    &&& is_of_closed_turn(ctx.turns, ctx.names, line)
}

/// The turns that some lines start.
pub open spec fn turns_started(lines: Seq<RolloutItemView>) -> Seq<Seq<char>>
    decreases lines.len(),
{
    if lines.len() == 0 {
        Seq::empty()
    } else {
        match turn_started_by(lines.last()) {
            Some(id) => turns_started(lines.drop_last()).push(id),
            None => turns_started(lines.drop_last()),
        }
    }
}

/// The turns that some lines end.
pub open spec fn turns_ended(lines: Seq<RolloutItemView>) -> Seq<Seq<char>>
    decreases lines.len(),
{
    if lines.len() == 0 {
        Seq::empty()
    } else {
        match turn_ended_by(lines.last()) {
            Some(id) => turns_ended(lines.drop_last()).push(id),
            None => turns_ended(lines.drop_last()),
        }
    }
}

/// The line is an item, or an event that is neither the mark of a compact nor a
/// rollback nor the start or the end of a turn.
pub open spec fn is_quiet_line(line: RolloutItemView) -> bool {
    &&& match line {
        RolloutItemView::ResponseItem(_) => true,
        RolloutItemView::EventMsg(e) => !(e is ThreadRolledBack) && !(e is ContextCompacted),
        _ => false,
    }
    &&& turn_started_by(line) is None
    &&& turn_ended_by(line) is None
}

/// Some lines start and end no turn.
pub open spec fn is_quiet(lines: Seq<RolloutItemView>) -> bool {
    forall|i: int| 0 <= i < lines.len() ==> is_quiet_line(#[trigger] lines[i])
}

/// The turns of the store have identities of their own.
pub open spec fn turns_differ(turns: Seq<TurnRecordView>) -> bool {
    forall|i: int, j: int|
        0 <= i < j < turns.len() ==> (#[trigger] turns[i]).turn_id != (#[trigger] turns[j]).turn_id
}

/// The names of the turns that are shown to start: those that are over.
pub open spec fn names_started(ctx: TailContextView, opened: Seq<Seq<char>>) -> Seq<Seq<char>>
    decreases opened.len(),
{
    if opened.len() == 0 {
        Seq::empty()
    } else if is_over(ctx.turns, opened.last()) {
        names_started(ctx, opened.drop_last()).push(shown_name(ctx.names, opened.last()))
    } else {
        names_started(ctx, opened.drop_last())
    }
}

/// The names of some turns.
pub open spec fn names_of(ctx: TailContextView, ids: Seq<Seq<char>>) -> Seq<Seq<char>> {
    ids.map_values(|id: Seq<char>| shown_name(ctx.names, id))
}

/// The tail goes on behind `before`: nothing that stood there is changed, and
/// the lines added are such as a tail may hold.
pub open spec fn goes_on(
    before: Seq<RolloutItemView>,
    ctx: TailContextView,
    s: TailView,
) -> bool {
    &&& before.len() <= s.out.len()
    &&& s.out.take(before.len() as int) == before
    &&& forall|i: int| before.len() <= i < s.out.len() ==> is_tail_line(ctx, #[trigger] s.out[i])
}

/// In lines from `from` on, one ends turn `a` and a later one starts turn `b`.
pub open spec fn ends_before_start(
    lines: Seq<RolloutItemView>,
    from: int,
    a: Seq<char>,
    b: Seq<char>,
) -> bool {
    exists|p: int, q: int|
        from <= p < q < lines.len() && turn_ended_by(#[trigger] lines[p]) == Some(a)
            && turn_started_by(#[trigger] lines[q]) == Some(b)
}

/// Of two turns that are over and were opened in their order, the earlier one
/// ends before the later one starts.
pub open spec fn turns_follow_each_other(
    from: int,
    ctx: TailContextView,
    s: TailView,
) -> bool {
    forall|i: int, j: int|
        0 <= i < j < s.opened.len() && is_over(ctx.turns, #[trigger] s.opened[i]) && is_over(
            ctx.turns,
            #[trigger] s.opened[j],
        ) && order_of(ctx.turns, s.opened[i]) < order_of(ctx.turns, s.opened[j])
            ==> ends_before_start(
            s.out,
            from,
            shown_name(ctx.names, s.opened[i]),
            shown_name(ctx.names, s.opened[j]),
        )
}

/// What a tail that goes on behind `before` keeps at every step: nothing that
/// stood there is changed; the lines added are such as a tail may hold; the
/// turns that they start are those that the tail has opened and that are over,
/// and the turns that they end are those that it has closed, each once; only
/// turns that were opened and are over are closed, and no turn that was rolled
/// back is opened; and of turns that are opened in their order, the earlier one
/// ends before the later one starts.
pub open spec fn is_sound(
    before: Seq<RolloutItemView>,
    ctx: TailContextView,
    s: TailView,
) -> bool {
    let added = s.out.skip(before.len() as int);
    &&& goes_on(before, ctx, s)
    &&& turns_started(added) == names_started(ctx, s.opened)
    &&& turns_ended(added) == names_of(ctx, s.closed)
    &&& s.opened.no_duplicates()
    &&& s.closed.no_duplicates()
    &&& forall|k: int| 0 <= k < s.opened.len() ==> !ctx.rolled_back.contains(#[trigger] s.opened[k])
    &&& forall|k: int|
        0 <= k < s.closed.len() ==> s.opened.contains(#[trigger] s.closed[k]) && is_over(
            ctx.turns,
            s.closed[k],
        )
    &&& turns_follow_each_other(before.len() as int, ctx, s)
}

/// Lines that are added change nothing in the order of the turns.
proof fn lemma_order_stays(from: int, ctx: TailContextView, s: TailView, r: TailView)
    requires
        turns_follow_each_other(from, ctx, s),
        r.opened == s.opened,
        s.out.len() <= r.out.len(),
        forall|i: int| 0 <= i < s.out.len() ==> r.out[i] == #[trigger] s.out[i],
        0 <= from,
    ensures
        turns_follow_each_other(from, ctx, r),
{
    assert forall|i: int, j: int|
        0 <= i < j < r.opened.len() && is_over(ctx.turns, #[trigger] r.opened[i]) && is_over(
            ctx.turns,
            #[trigger] r.opened[j],
        ) && order_of(ctx.turns, r.opened[i]) < order_of(
            ctx.turns,
            r.opened[j],
        ) implies ends_before_start(
        r.out,
        from,
        shown_name(ctx.names, r.opened[i]),
        shown_name(ctx.names, r.opened[j]),
    ) by {
        lemma_pair_stays(
            s.out,
            r.out,
            from,
            shown_name(ctx.names, s.opened[i]),
            shown_name(ctx.names, s.opened[j]),
        );
    }
}

proof fn lemma_pair_stays(
    lines: Seq<RolloutItemView>,
    more: Seq<RolloutItemView>,
    from: int,
    a: Seq<char>,
    b: Seq<char>,
)
    requires
        ends_before_start(lines, from, a, b),
        lines.len() <= more.len(),
        forall|i: int| 0 <= i < lines.len() ==> more[i] == #[trigger] lines[i],
        0 <= from,
    ensures
        ends_before_start(more, from, a, b),
{
    let (p, q) = choose|p: int, q: int|
        from <= p < q < lines.len() && turn_ended_by(#[trigger] lines[p]) == Some(a)
            && turn_started_by(#[trigger] lines[q]) == Some(b);
    assert(more[p] == lines[p] && more[q] == lines[q]);
}

/// A turn that some lines end is ended by one of them.
proof fn lemma_turns_ended(lines: Seq<RolloutItemView>, name: Seq<char>)
    requires
        turns_ended(lines).contains(name),
    ensures
        exists|p: int| 0 <= p < lines.len() && turn_ended_by(#[trigger] lines[p]) == Some(name),
    decreases lines.len(),
{
    if lines.len() > 0 {
        let front = lines.drop_last();
        if turn_ended_by(lines.last()) == Some(name) {
            assert(turn_ended_by(lines[lines.len() - 1]) == Some(name));
        } else {
            let all = turns_ended(lines);
            let k = choose|k: int| 0 <= k < all.len() && all[k] == name;
            assert(turns_ended(front)[k] == name);
            lemma_turns_ended(front, name);
            let p = choose|p: int|
                0 <= p < front.len() && turn_ended_by(#[trigger] front[p]) == Some(name);
            assert(turn_ended_by(lines[p]) == Some(name));
        }
    }
}

proof fn lemma_turns_push(lines: Seq<RolloutItemView>, line: RolloutItemView)
    ensures
        turns_started(lines.push(line)) == (match turn_started_by(line) {
            Some(id) => turns_started(lines).push(id),
            None => turns_started(lines),
        }),
        turns_ended(lines.push(line)) == (match turn_ended_by(line) {
            Some(id) => turns_ended(lines).push(id),
            None => turns_ended(lines),
        }),
{
    assert(lines.push(line).drop_last() =~= lines);
}

proof fn lemma_turns_quiet(lines: Seq<RolloutItemView>, more: Seq<RolloutItemView>)
    requires
        is_quiet(more),
    ensures
        turns_started(lines + more) == turns_started(lines),
        turns_ended(lines + more) == turns_ended(lines),
    decreases more.len(),
{
    if more.len() == 0 {
        assert(lines + more =~= lines);
    } else {
        assert forall|i: int| 0 <= i < more.drop_last().len() implies is_quiet_line(
            #[trigger] more.drop_last()[i],
        ) by {
            assert(more[i] == more.drop_last()[i]);
        }
        lemma_turns_quiet(lines, more.drop_last());
        assert((lines + more).drop_last() =~= lines + more.drop_last());
        assert((lines + more).last() == more[more.len() - 1]);
    }
}

proof fn lemma_item_lines_quiet(item: ResponseItemView)
    ensures
        is_quiet(item_lines(item)),
{
}

proof fn lemma_quiet_concat(a: Seq<RolloutItemView>, b: Seq<RolloutItemView>)
    requires
        is_quiet(a),
        is_quiet(b),
    ensures
        is_quiet(a + b),
{
    assert forall|i: int| 0 <= i < (a + b).len() implies is_quiet_line(#[trigger] (a + b)[i]) by {
        if i < a.len() {
            assert((a + b)[i] == a[i]);
        } else {
            assert((a + b)[i] == b[i - a.len()]);
        }
    }
}

proof fn lemma_unanswered_quiet(pending: Seq<PendingImageView>)
    ensures
        is_quiet(unanswered_lines(pending)),
    decreases pending.len(),
{
    if pending.len() > 0 {
        lemma_unanswered_quiet(pending.drop_last());
        let item = unanswered_image(pending.last().call_id, pending.last().revised_prompt);
        lemma_item_lines_quiet(item);
        lemma_quiet_concat(unanswered_lines(pending.drop_last()), item_lines(item));
    }
}

/// Lines that start and end no turn can be added to a tail.
proof fn lemma_quiet_goes_on(
    before: Seq<RolloutItemView>,
    ctx: TailContextView,
    s: TailView,
    more: Seq<RolloutItemView>,
    r: TailView,
)
    requires
        goes_on(before, ctx, s),
        is_quiet(more),
        r.out == s.out + more,
    ensures
        goes_on(before, ctx, r),
{
    let n = before.len() as int;
    assert(r.out.take(n) =~= s.out.take(n));
    assert forall|i: int| n <= i < r.out.len() implies is_tail_line(ctx, #[trigger] r.out[i]) by {
        if i < s.out.len() {
            assert(r.out[i] == s.out[i]);
        } else {
            assert(r.out[i] == more[i - s.out.len()]);
        }
    }
}

/// Lines that start and end no turn leave a tail sound.
proof fn lemma_quiet_lines(
    before: Seq<RolloutItemView>,
    ctx: TailContextView,
    s: TailView,
    more: Seq<RolloutItemView>,
    r: TailView,
)
    requires
        is_sound(before, ctx, s),
        is_quiet(more),
        r.out == s.out + more,
        r.opened == s.opened,
        r.closed == s.closed,
    ensures
        is_sound(before, ctx, r),
{
    let n = before.len() as int;
    lemma_quiet_goes_on(before, ctx, s, more, r);
    lemma_order_stays(n, ctx, s, r);
    assert(r.out.skip(n) =~= s.out.skip(n) + more);
    lemma_turns_quiet(s.out.skip(n), more);
}

/// The end of a turn that is over can be added to a tail.
proof fn lemma_end_goes_on(
    before: Seq<RolloutItemView>,
    ctx: TailContextView,
    s: TailView,
    t: TurnRecordView,
)
    requires
        goes_on(before, ctx, s),
        ctx.turns.contains(t),
        t.status == TurnStatus::Closed,
    ensures
        goes_on(before, ctx, turn_closed(s, ctx.names, t)),
{
    let r = turn_closed(s, ctx.names, t);
    let images = unanswered_lines(images_of_turn(s.pending, t.turn_id, true));
    lemma_unanswered_quiet(images_of_turn(s.pending, t.turn_id, true));
    let mid = TailView { out: s.out + images, ..s };
    lemma_quiet_goes_on(before, ctx, s, images, mid);
    let end = RolloutItemView::EventMsg(turn_end_event(t, ctx.names));
    assert(r.out =~= mid.out.push(end));
    let n = before.len() as int;
    assert(r.out.take(n) =~= mid.out.take(n));
    let k = choose|k: int| 0 <= k < ctx.turns.len() && ctx.turns[k] == t;
    assert(ctx.turns[k].status == TurnStatus::Closed);
    assert(turn_ended_by(end) == Some(shown_name(ctx.names, t.turn_id)));
    assert(turn_started_by(end) is None);
    assert forall|i: int| n <= i < r.out.len() implies is_tail_line(ctx, #[trigger] r.out[i]) by {
        if i < mid.out.len() {
            assert(r.out[i] == mid.out[i]);
        } else {
            assert(r.out[i] == end);
        }
    }
}

/// Closing a turn that is open and over leaves a tail sound.
proof fn lemma_turn_closed(
    before: Seq<RolloutItemView>,
    ctx: TailContextView,
    s: TailView,
    t: TurnRecordView,
)
    requires
        is_sound(before, ctx, s),
        s.opened.contains(t.turn_id),
        !s.closed.contains(t.turn_id),
        turn_of(ctx.turns, t.turn_id) == Some(t),
        t.status == TurnStatus::Closed,
    ensures
        is_sound(before, ctx, turn_closed(s, ctx.names, t)),
{
    let r = turn_closed(s, ctx.names, t);
    let n = before.len() as int;
    lemma_turn_of(ctx.turns, t.turn_id);
    lemma_end_goes_on(before, ctx, s, t);
    let images = unanswered_lines(images_of_turn(s.pending, t.turn_id, true));
    lemma_unanswered_quiet(images_of_turn(s.pending, t.turn_id, true));
    let mid = TailView { out: s.out + images, ..s };
    lemma_quiet_lines(before, ctx, s, images, mid);
    let end = RolloutItemView::EventMsg(turn_end_event(t, ctx.names));
    assert(r.out =~= mid.out.push(end));
    assert(r.out.skip(n) =~= mid.out.skip(n).push(end));
    lemma_turns_push(mid.out.skip(n), end);
    lemma_order_stays(n, ctx, s, r);
    assert(turn_ended_by(end) == Some(shown_name(ctx.names, t.turn_id)));
    assert(turn_started_by(end) is None);
    assert(names_of(ctx, r.closed) =~= names_of(ctx, s.closed).push(
        shown_name(ctx.names, t.turn_id),
    ));
    assert(r.closed.no_duplicates()) by {
        assert forall|i: int, j: int|
            0 <= i < r.closed.len() && 0 <= j < r.closed.len() && i != j implies r.closed[i]
            != r.closed[j] by {
            if i < s.closed.len() {
                assert(s.closed.contains(s.closed[i]));
            }
            if j < s.closed.len() {
                assert(s.closed.contains(s.closed[j]));
            }
        }
    }
    assert forall|k: int| 0 <= k < r.closed.len() implies r.opened.contains(
        #[trigger] r.closed[k],
    ) && is_over(ctx.turns, r.closed[k]) by {
        if k < s.closed.len() {
            assert(r.closed[k] == s.closed[k]);
        }
    }
}

/// The turns of a list can be closed one after the other.
spec fn all_closable(ctx: TailContextView, s: TailView, list: Seq<TurnRecordView>) -> bool {
    &&& turns_differ(list)
    &&& forall|k: int|
        0 <= k < list.len() ==> s.opened.contains((#[trigger] list[k]).turn_id)
            && !s.closed.contains(list[k].turn_id) && turn_of(ctx.turns, list[k].turn_id) == Some(
            list[k],
        ) && list[k].status == TurnStatus::Closed
}

proof fn lemma_turns_closed(
    before: Seq<RolloutItemView>,
    ctx: TailContextView,
    s: TailView,
    list: Seq<TurnRecordView>,
    n: int,
)
    requires
        is_sound(before, ctx, s),
        all_closable(ctx, s, list),
        0 <= n <= list.len(),
    ensures
        ({
            let order = stable_order(turn_keys(list));
            let r = turns_closed(s, ctx.names, list, order, n);
            &&& is_sound(before, ctx, r)
            &&& r.opened == s.opened
            &&& r.notes == s.notes
            &&& forall|q: int|
                n <= q < list.len() ==> !r.closed.contains(list[#[trigger] order[q]].turn_id)
            &&& forall|q: int|
                0 <= q < n ==> r.closed.contains(list[#[trigger] order[q]].turn_id)
            &&& forall|id: Seq<char>| #[trigger] s.closed.contains(id) ==> r.closed.contains(id)
        }),
    decreases n,
{
    let order = stable_order(turn_keys(list));
    stable_order_is_sorted(turn_keys(list));
    if n == 0 {
        assert forall|q: int| 0 <= q < list.len() implies !s.closed.contains(
            list[#[trigger] order[q]].turn_id,
        ) by {
        }
    } else {
        lemma_turns_closed(before, ctx, s, list, n - 1);
        let mid = turns_closed(s, ctx.names, list, order, n - 1);
        let t = list[order[n - 1]];
        assert(0 <= order[n - 1] < list.len());
        lemma_turn_closed(before, ctx, mid, t);
        let r = turns_closed(s, ctx.names, list, order, n);
        assert(r.closed == mid.closed.push(t.turn_id));
        assert(r.closed[mid.closed.len() as int] == t.turn_id);
        assert forall|id: Seq<char>| mid.closed.contains(id) implies #[trigger] r.closed.contains(
            id,
        ) by {
            let k = choose|k: int| 0 <= k < mid.closed.len() && mid.closed[k] == id;
            assert(r.closed[k] == id);
        }
        assert forall|q: int| n <= q < list.len() implies !r.closed.contains(
            list[#[trigger] order[q]].turn_id,
        ) by {
            assert(in_order(turn_keys(list), order[n - 1], order[q]));
            assert(order[n - 1] != order[q]);
            let other = list[order[q]];
            assert(other.turn_id != t.turn_id) by {
                if order[n - 1] < order[q] {
                    assert(list[order[n - 1]].turn_id != list[order[q]].turn_id);
                } else {
                    assert(list[order[q]].turn_id != list[order[n - 1]].turn_id);
                }
            }
            if r.closed.contains(other.turn_id) {
                let k = choose|k: int| 0 <= k < r.closed.len() && r.closed[k] == other.turn_id;
                if k < mid.closed.len() {
                    assert(mid.closed[k] == other.turn_id);
                    assert(mid.closed.contains(other.turn_id));
                }
            }
        }
    }
}

proof fn lemma_closable_turns(ctx: TailContextView, s: TailView, order: i64, n: int)
    requires
        s.opened.no_duplicates(),
        0 <= n <= s.opened.len(),
    ensures
        all_closable(ctx, s, closable_turns(s, ctx.turns, order, n)),
        forall|k: int|
            0 <= k < closable_turns(s, ctx.turns, order, n).len() ==> exists|i: int|
                0 <= i < n && s.opened[i] == (#[trigger] closable_turns(
                    s,
                    ctx.turns,
                    order,
                    n,
                )[k]).turn_id,
        forall|i: int|
            0 <= i < n && is_closable(s, ctx.turns, #[trigger] s.opened[i], order) ==> exists|k: int|
                0 <= k < closable_turns(s, ctx.turns, order, n).len() && (
                #[trigger] closable_turns(s, ctx.turns, order, n)[k]).turn_id == s.opened[i],
    decreases n,
{
    if n > 0 {
        lemma_closable_turns(ctx, s, order, n - 1);
        let before = closable_turns(s, ctx.turns, order, n - 1);
        let after = closable_turns(s, ctx.turns, order, n);
        let id = s.opened[n - 1];
        lemma_turn_of(ctx.turns, id);
        assert forall|i: int| 0 <= i < n && is_closable(s, ctx.turns, #[trigger] s.opened[i], order)
            implies exists|k: int|
            0 <= k < after.len() && (#[trigger] after[k]).turn_id == s.opened[i] by {
            if i < n - 1 {
                let k = choose|k: int|
                    0 <= k < before.len() && (#[trigger] before[k]).turn_id == s.opened[i];
                assert(after[k] == before[k]);
            } else {
                assert(after[after.len() - 1].turn_id == id);
            }
        }
        if is_closable(s, ctx.turns, id, order) {
            let t = turn_of(ctx.turns, id)->0;
            assert(t.turn_id == id);
            assert(s.opened.contains(id));
            assert forall|i: int, j: int| 0 <= i < j < after.len() implies (
            #[trigger] after[i]).turn_id != (#[trigger] after[j]).turn_id by {
                assert(after[i] == before[i]);
                if j < before.len() {
                    assert(after[j] == before[j]);
                } else {
                    let p = choose|p: int| 0 <= p < n - 1 && s.opened[p] == before[i].turn_id;
                    assert(s.opened[p] != s.opened[n - 1]);
                }
            }
            assert forall|k: int| 0 <= k < after.len() implies s.opened.contains(
                (#[trigger] after[k]).turn_id,
            ) && !s.closed.contains(after[k].turn_id) && turn_of(ctx.turns, after[k].turn_id) == Some(
                after[k],
            ) && after[k].status == TurnStatus::Closed by {
                if k < before.len() {
                    assert(after[k] == before[k]);
                }
            }
            assert forall|k: int| 0 <= k < after.len() implies exists|i: int|
                0 <= i < n && s.opened[i] == (#[trigger] after[k]).turn_id by {
                if k < before.len() {
                    assert(after[k] == before[k]);
                    let p = choose|p: int| 0 <= p < n - 1 && s.opened[p] == before[k].turn_id;
                    assert(0 <= p < n && s.opened[p] == after[k].turn_id);
                } else {
                    assert(s.opened[n - 1] == after[k].turn_id);
                }
            }
        } else {
            assert forall|k: int| 0 <= k < after.len() implies exists|i: int|
                0 <= i < n && s.opened[i] == (#[trigger] after[k]).turn_id by {
                let p = choose|p: int| 0 <= p < n - 1 && s.opened[p] == before[k].turn_id;
                assert(0 <= p < n && s.opened[p] == after[k].turn_id);
            }
        }
    }
}

/// Before a turn opens, every earlier turn that is over and was opened is closed.
proof fn lemma_earlier_turns_ended(
    before: Seq<RolloutItemView>,
    ctx: TailContextView,
    s: TailView,
    id: Seq<char>,
)
    requires
        is_sound(before, ctx, s),
    ensures
        ({
            let order = order_of(ctx.turns, id);
            let c = all_closed(
                s,
                ctx.names,
                closable_turns(s, ctx.turns, order, s.opened.len() as int),
            );
            forall|i: int|
                0 <= i < s.opened.len() && is_over(ctx.turns, #[trigger] s.opened[i]) && order_of(
                    ctx.turns,
                    s.opened[i],
                ) < order ==> c.closed.contains(s.opened[i])
        }),
{
    let order = order_of(ctx.turns, id);
    let n = s.opened.len() as int;
    let list = closable_turns(s, ctx.turns, order, n);
    lemma_closable_turns(ctx, s, order, n);
    stable_order_is_sorted(turn_keys(list));
    lemma_turns_closed(before, ctx, s, list, list.len() as int);
    let c = all_closed(s, ctx.names, list);
    assert forall|i: int|
        0 <= i < s.opened.len() && is_over(ctx.turns, #[trigger] s.opened[i]) && order_of(
            ctx.turns,
            s.opened[i],
        ) < order implies c.closed.contains(s.opened[i]) by {
        if !s.closed.contains(s.opened[i]) {
            assert(is_closable(s, ctx.turns, s.opened[i], order));
            let k = choose|k: int| 0 <= k < list.len() && (#[trigger] list[k]).turn_id
                == s.opened[i];
            lemma_listed(list, k);
        }
    }
}

/// Every place of a list stands somewhere in its order.
proof fn lemma_listed(list: Seq<TurnRecordView>, k: int)
    requires
        0 <= k < list.len(),
    ensures
        exists|q: int| 0 <= q < list.len() && #[trigger] stable_order(turn_keys(list))[q] == k,
{
    stable_order_is_sorted(turn_keys(list));
    every_row_is_ordered(turn_keys(list), k);
    let order = stable_order(turn_keys(list));
    let q = choose|q: int| 0 <= q < order.len() && order[q] == k;
    assert(order[q] == k);
}

/// The start of a turn stands behind the ends of the earlier ones.
proof fn lemma_start_follows(
    before: Seq<RolloutItemView>,
    ctx: TailContextView,
    c: TailView,
    r: TailView,
    id: Seq<char>,
)
    requires
        is_sound(before, ctx, c),
        r.opened == c.opened.push(id),
        r.out.len() == c.out.len() + 1,
        forall|i: int| 0 <= i < c.out.len() ==> r.out[i] == #[trigger] c.out[i],
        turn_started_by(r.out[c.out.len() as int]) == Some(shown_name(ctx.names, id)),
        forall|i: int|
            0 <= i < c.opened.len() && is_over(ctx.turns, #[trigger] c.opened[i]) && order_of(
                ctx.turns,
                c.opened[i],
            ) < order_of(ctx.turns, id) ==> c.closed.contains(c.opened[i]),
    ensures
        turns_follow_each_other(before.len() as int, ctx, r),
{
    let from = before.len() as int;
    assert forall|i: int, j: int|
        0 <= i < j < r.opened.len() && is_over(ctx.turns, #[trigger] r.opened[i]) && is_over(
            ctx.turns,
            #[trigger] r.opened[j],
        ) && order_of(ctx.turns, r.opened[i]) < order_of(
            ctx.turns,
            r.opened[j],
        ) implies ends_before_start(
        r.out,
        from,
        shown_name(ctx.names, r.opened[i]),
        shown_name(ctx.names, r.opened[j]),
    ) by {
        let a = shown_name(ctx.names, r.opened[i]);
        assert(r.opened[i] == c.opened[i]);
        if j < c.opened.len() {
            assert(r.opened[j] == c.opened[j]);
            lemma_pair_stays(c.out, r.out, from, a, shown_name(ctx.names, c.opened[j]));
        } else {
            assert(c.closed.contains(c.opened[i]));
            let k = choose|k: int| 0 <= k < c.closed.len() && c.closed[k] == c.opened[i];
            let added = c.out.skip(from);
            assert(names_of(ctx, c.closed)[k] == a);
            lemma_turns_ended(added, a);
            let p = choose|p: int|
                0 <= p < added.len() && turn_ended_by(#[trigger] added[p]) == Some(a);
            assert(added[p] == c.out[p + from]);
            assert(r.out[p + from] == c.out[p + from]);
            assert(turn_ended_by(r.out[p + from]) == Some(a));
        }
    }
}

/// A turn that is not shown to start changes nothing in the order of the turns.
proof fn lemma_silent_follows(
    before: Seq<RolloutItemView>,
    ctx: TailContextView,
    c: TailView,
    r: TailView,
    id: Seq<char>,
)
    requires
        is_sound(before, ctx, c),
        r.opened == c.opened.push(id),
        r.out == c.out,
        !is_over(ctx.turns, id),
    ensures
        turns_follow_each_other(before.len() as int, ctx, r),
{
    assert forall|i: int, j: int|
        0 <= i < j < r.opened.len() && is_over(ctx.turns, #[trigger] r.opened[i]) && is_over(
            ctx.turns,
            #[trigger] r.opened[j],
        ) && order_of(ctx.turns, r.opened[i]) < order_of(
            ctx.turns,
            r.opened[j],
        ) implies ends_before_start(
        r.out,
        before.len() as int,
        shown_name(ctx.names, r.opened[i]),
        shown_name(ctx.names, r.opened[j]),
    ) by {
        assert(r.opened[i] == c.opened[i]);
        assert(r.opened[j] == c.opened[j]);
    }
}

proof fn lemma_turn_opened(
    before: Seq<RolloutItemView>,
    ctx: TailContextView,
    s: TailView,
    id: Seq<char>,
)
    requires
        is_sound(before, ctx, s),
        !ctx.rolled_back.contains(id),
    ensures
        is_sound(before, ctx, turn_opened(s, ctx, id)),
{
    if !s.opened.contains(id) {
        let order = order_of(ctx.turns, id);
        let list = closable_turns(s, ctx.turns, order, s.opened.len() as int);
        lemma_closable_turns(ctx, s, order, s.opened.len() as int);
        stable_order_is_sorted(turn_keys(list));
        lemma_turns_closed(before, ctx, s, list, list.len() as int);
        let c = all_closed(s, ctx.names, list);
        let r = turn_opened(s, ctx, id);
        let n = before.len() as int;
        assert(r.opened.drop_last() =~= c.opened);
        assert(r.closed == c.closed);
        if is_over(ctx.turns, id) {
            let line = RolloutItemView::EventMsg(turn_start_event(ctx, id));
            lemma_turn_of(ctx.turns, id);
            let k = choose|k: int|
                0 <= k < ctx.turns.len() && ctx.turns[k] == turn_of(ctx.turns, id)->0;
            assert(ctx.turns[k].status == TurnStatus::Closed && ctx.turns[k].turn_id == id);
            assert(turn_started_by(line) == Some(shown_name(ctx.names, id)));
            assert(turn_ended_by(line) is None);
            assert(r.out =~= c.out.push(line));
            assert(r.out.skip(n) =~= c.out.skip(n).push(line));
            assert(r.out.take(n) =~= c.out.take(n));
            lemma_turns_push(c.out.skip(n), line);
            lemma_earlier_turns_ended(before, ctx, s, id);
            lemma_start_follows(before, ctx, c, r, id);
            assert forall|i: int| n <= i < r.out.len() implies is_tail_line(
                ctx,
                #[trigger] r.out[i],
            ) by {
                if i < c.out.len() {
                    assert(r.out[i] == c.out[i]);
                } else {
                    assert(r.out[i] == line);
                }
            }
        } else {
            assert(r.out == c.out);
            lemma_silent_follows(before, ctx, c, r, id);
        }
        assert(r.opened.no_duplicates()) by {
            assert forall|i: int, j: int|
                0 <= i < r.opened.len() && 0 <= j < r.opened.len() && i != j implies r.opened[i]
                != r.opened[j] by {
                if i < s.opened.len() {
                    assert(s.opened.contains(s.opened[i]));
                }
                if j < s.opened.len() {
                    assert(s.opened.contains(s.opened[j]));
                }
            }
        }
        assert forall|k: int| 0 <= k < r.closed.len() implies r.opened.contains(
            #[trigger] r.closed[k],
        ) && is_over(ctx.turns, r.closed[k]) by {
            assert(c.opened.contains(c.closed[k]));
            let p = choose|p: int| 0 <= p < c.opened.len() && c.opened[p] == c.closed[k];
            assert(r.opened[p] == r.closed[k]);
        }
    }
}

proof fn lemma_closed_behind(
    before: Seq<RolloutItemView>,
    ctx: TailContextView,
    s: TailView,
    m: MessageRecordView,
)
    requires
        is_sound(before, ctx, s),
    ensures
        is_sound(before, ctx, closed_behind(s, ctx, m)),
{
    lemma_turn_of(ctx.turns, m.turn_id);
    if let Some(t) = turn_of(ctx.turns, m.turn_id) {
        if closed_behind(s, ctx, m) == turn_closed(s, ctx.names, t) && !s.closed.contains(t.turn_id)
            && s.opened.contains(t.turn_id) && t.status == TurnStatus::Closed {
            lemma_turn_closed(before, ctx, s, t);
        }
    }
}

proof fn lemma_sources(
    before: Seq<RolloutItemView>,
    ctx: TailContextView,
    s: TailView,
    sources: Seq<SessionThreadViewEntrySourceView>,
    n: int,
)
    requires
        is_sound(before, ctx, s),
    ensures
        is_sound(before, ctx, sources_opened(s, ctx, sources, n)),
        is_sound(before, ctx, sources_closed(s, ctx, sources, n)),
    decreases n,
{
    if n > 0 {
        lemma_sources(before, ctx, s, sources, n - 1);
        if let Some(m) = message_of(ctx.messages, sources[n - 1].message_id) {
            if !ctx.rolled_back.contains(m.turn_id) {
                lemma_turn_opened(
                    before,
                    ctx,
                    sources_opened(s, ctx, sources, n - 1),
                    m.turn_id,
                );
                lemma_closed_behind(before, ctx, sources_closed(s, ctx, sources, n - 1), m);
            }
        }
    }
}

proof fn lemma_usage_told(
    before: Seq<RolloutItemView>,
    ctx: TailContextView,
    s: TailView,
    id: Seq<char>,
)
    requires
        is_sound(before, ctx, s),
    ensures
        is_sound(before, ctx, usage_told(s, ctx, id)),
{
    let r = usage_told(s, ctx, id);
    if r != s {
        let more = seq![r.out.last()];
        assert(r.out =~= s.out + more);
        lemma_quiet_lines(before, ctx, s, more, r);
    }
}

proof fn lemma_added_quietly(
    before: Seq<RolloutItemView>,
    ctx: TailContextView,
    s: TailView,
    item: ResponseItemView,
    r: TailView,
)
    requires
        is_sound(before, ctx, s),
        r.out == s.out + item_lines(item),
        r.opened == s.opened,
        r.closed == s.closed,
    ensures
        is_sound(before, ctx, r),
{
    lemma_item_lines_quiet(item);
    lemma_quiet_lines(before, ctx, s, item_lines(item), r);
}

proof fn lemma_parts(
    before: Seq<RolloutItemView>,
    ctx: TailContextView,
    s: TailView,
    a: SessionAssistantMessageView,
    n: int,
)
    requires
        is_sound(before, ctx, s),
    ensures
        is_sound(before, ctx, parts_emitted(s, ctx, a, n)),
    decreases n,
{
    if n > 0 {
        lemma_parts(before, ctx, s, a, n - 1);
        let mid = parts_emitted(s, ctx, a, n - 1);
        let source = source_at(a.source_messages, n - 1);
        let msg = message_of_source(ctx, source);
        if !(msg is Some && ctx.rolled_back.contains(msg->0.turn_id)) {
            let part = a.content[n - 1];
            let hint = crate::tail::host_id_of_source(source);
            let turn = match msg {
                Some(m) => m.turn_id,
                None => Seq::empty(),
            };
            let stored = crate::tail::stored_identity(a);
            let r = part_emitted(mid, part, hint, turn, stored, ctx.live_identity);
            lemma_part(before, ctx, mid, part, hint, turn, stored);
            if msg is Some {
                lemma_usage_told(before, ctx, r, msg->0.message_id);
            }
        }
    }
}

proof fn lemma_part(
    before: Seq<RolloutItemView>,
    ctx: TailContextView,
    s: TailView,
    part: crate::thread_view::SessionAssistantPartView,
    hint: Option<Seq<char>>,
    turn: Seq<char>,
    stored: crate::mapping::ModelIdentityView,
)
    requires
        is_sound(before, ctx, s),
    ensures
        is_sound(before, ctx, part_emitted(s, part, hint, turn, stored, ctx.live_identity)),
{
    let r = part_emitted(s, part, hint, turn, stored, ctx.live_identity);
    let id = crate::reverse::recovered_id(hint);
    match part.type_ {
        crate::thread_view::SessionAssistantPartType::Text => {
            let t = crate::reverse::or_empty(part.text);
            if t.len() > 0 {
                lemma_added_quietly(before, ctx, s, crate::reverse::assistant_message(id, t), r);
            }
        },
        crate::thread_view::SessionAssistantPartType::Thinking => {
            let t = crate::reverse::or_empty(part.thinking);
            let signature = crate::tail::real_signature(part.thinking_signature);
            if t.len() > 0 || signature is Some {
                lemma_added_quietly(
                    before,
                    ctx,
                    s,
                    crate::tail::thought_item(id, t, signature, stored, ctx.live_identity),
                    r,
                );
            }
        },
        crate::thread_view::SessionAssistantPartType::ToolCall => {
            let arguments = crate::tail::part_arguments(part);
            if crate::tail::part_tool(part) == "image_generation"@ {
                assert(r.out == s.out);
            } else {
                let c = rebuilt_call(
                    crate::tail::part_tool(part),
                    crate::reverse::or_empty(part.tool_call_id),
                    arguments,
                    hint,
                    crate::reverse::kept_read(arguments),
                );
                lemma_added_quietly(before, ctx, s, c.item, r);
            }
        },
    }
}

proof fn lemma_result(
    before: Seq<RolloutItemView>,
    ctx: TailContextView,
    s: TailView,
    t: crate::thread_view::SessionToolResultMessageView,
    msg: Option<MessageRecordView>,
)
    requires
        is_sound(before, ctx, s),
    ensures
        is_sound(before, ctx, result_emitted(s, ctx, t, msg)),
{
    let r = result_emitted(s, ctx, t, None);
    let waiting = crate::tail::image_of_call(s.pending, t.tool_call_id);
    // Up to the usage, the entry adds one item.
    let with_msg = result_emitted(s, ctx, t, msg);
    if t.tool_name == Some("image_generation"@) || waiting is Some {
        let item = crate::reverse::completed_image(
            t.tool_call_id,
            t.content,
            match waiting {
                Some(p) => p.revised_prompt,
                None => None,
            },
            crate::tail::message_is_error(msg),
            crate::json::json_read(t.content),
        );
        let mid = with_lines(
            TailView { pending: crate::tail::without_image(s.pending, t.tool_call_id), ..s },
            item_lines(item),
        );
        lemma_added_quietly(before, ctx, s, item, mid);
        if let Some(m) = msg {
            lemma_usage_told(before, ctx, mid, m.message_id);
        }
    } else {
        let c = rebuilt_result(
            t.tool_call_id,
            t.tool_name,
            t.content,
            match crate::tail::message_is_error(msg) {
                Some(b) => Some(b),
                None => t.is_error,
            },
            crate::tail::host_id_of_source(source_at(t.source_messages, 0)),
            crate::tail::kind_of_call(s.calls, t.tool_call_id),
            crate::json::json_read(t.content),
        );
        let mid = with_lines(TailView { notes: s.notes + c.notes, ..s }, item_lines(c.item));
        lemma_added_quietly(before, ctx, s, c.item, mid);
        if let Some(m) = msg {
            lemma_usage_told(before, ctx, mid, m.message_id);
        }
    }
}

/// Every entry keeps a tail sound.
pub proof fn entry_keeps_the_tail_sound(
    before: Seq<RolloutItemView>,
    ctx: TailContextView,
    s: TailView,
    entry: SessionThreadViewEntryView,
)
    requires
        is_sound(before, ctx, s),
    ensures
        is_sound(before, ctx, entry_step(s, ctx, entry)),
{
    let sources = sources_of(entry);
    let n = sources.len() as int;
    lemma_sources(before, ctx, s, sources, n);
    let opened = sources_opened(s, ctx, sources, n);
    match entry {
        SessionThreadViewEntryView::Runtime(_) => {},
        SessionThreadViewEntryView::Message(SessionThreadViewMessageView::User(u)) => {
            if let Some(lines) = user_lines(ctx, u) {
                assert(is_quiet(lines));
                lemma_quiet_lines(before, ctx, opened, lines, with_lines(opened, lines));
            }
        },
        SessionThreadViewEntryView::Message(SessionThreadViewMessageView::Assistant(a)) => {
            lemma_parts(before, ctx, opened, a, a.content.len() as int);
        },
        SessionThreadViewEntryView::Message(SessionThreadViewMessageView::ToolResult(t)) => {
            lemma_result(
                before,
                ctx,
                opened,
                t,
                message_of_source(ctx, source_at(t.source_messages, 0)),
            );
        },
    }
    let (emitted, shown) = entry_emitted(opened, ctx, entry);
    lemma_sources(before, ctx, emitted, sources, n);
}

proof fn lemma_entries(
    before: Seq<RolloutItemView>,
    ctx: TailContextView,
    s: TailView,
    entries: Seq<SessionThreadViewEntryView>,
    from: int,
    n: int,
)
    requires
        is_sound(before, ctx, s),
    ensures
        is_sound(before, ctx, entries_emitted(s, ctx, entries, from, n)),
    decreases n - from,
{
    if n > from {
        lemma_entries(before, ctx, s, entries, from, n - 1);
        entry_keeps_the_tail_sound(
            before,
            ctx,
            entries_emitted(s, ctx, entries, from, n - 1),
            entries[n - 1],
        );
    }
}

proof fn lemma_turn_of_own(turns: Seq<TurnRecordView>, i: int)
    requires
        turns_differ(turns),
        0 <= i < turns.len(),
    ensures
        turn_of(turns, turns[i].turn_id) == Some(turns[i]),
    decreases turns.len(),
{
    if i < turns.len() - 1 {
        assert(turns[i].turn_id != turns[turns.len() - 1].turn_id);
        assert forall|a: int, b: int| 0 <= a < b < turns.drop_last().len() implies (
        #[trigger] turns.drop_last()[a]).turn_id != (#[trigger] turns.drop_last()[b]).turn_id by {
            assert(turns[a].turn_id != turns[b].turn_id);
        }
        lemma_turn_of_own(turns.drop_last(), i);
    }
}

proof fn lemma_left_open(s: TailView, ctx: TailContextView, n: int)
    requires
        turns_differ(ctx.turns),
        0 <= n <= ctx.turns.len(),
    ensures
        all_closable(ctx, s, left_open(s, ctx, n)),
        forall|k: int|
            0 <= k < left_open(s, ctx, n).len() ==> exists|i: int|
                0 <= i < n && ctx.turns[i] == #[trigger] left_open(s, ctx, n)[k],
    decreases n,
{
    if n > 0 {
        lemma_left_open(s, ctx, n - 1);
        let before = left_open(s, ctx, n - 1);
        let after = left_open(s, ctx, n);
        let t = ctx.turns[n - 1];
        lemma_turn_of_own(ctx.turns, n - 1);
        assert forall|i: int, j: int| 0 <= i < j < after.len() implies (
        #[trigger] after[i]).turn_id != (#[trigger] after[j]).turn_id by {
            assert(after[i] == before[i]);
            if j < before.len() {
                assert(after[j] == before[j]);
            } else {
                let p = choose|p: int| 0 <= p < n - 1 && ctx.turns[p] == before[i];
                assert(ctx.turns[p].turn_id != ctx.turns[n - 1].turn_id);
            }
        }
        assert forall|k: int| 0 <= k < after.len() implies s.opened.contains(
            (#[trigger] after[k]).turn_id,
        ) && !s.closed.contains(after[k].turn_id) && turn_of(ctx.turns, after[k].turn_id) == Some(
                after[k],
            ) && after[k].status == TurnStatus::Closed by {
            if k < before.len() {
                assert(after[k] == before[k]);
            }
        }
        assert forall|k: int| 0 <= k < after.len() implies exists|i: int|
            0 <= i < n && ctx.turns[i] == #[trigger] after[k] by {
            if k < before.len() {
                assert(after[k] == before[k]);
                let p = choose|p: int| 0 <= p < n - 1 && ctx.turns[p] == before[k];
                assert(0 <= p < n && ctx.turns[p] == after[k]);
            } else {
                assert(ctx.turns[n - 1] == after[k]);
            }
        }
    }
}

spec fn images_flushed(s: TailView) -> TailView {
    TailView { out: s.out + unanswered_lines(s.pending), pending: Seq::empty(), ..s }
}

/// Up to the ends of the turns that are left open, a whole tail is sound.
proof fn lemma_flushed(
    before: Seq<RolloutItemView>,
    notes: Seq<Seq<char>>,
    ctx: TailContextView,
    entries: Seq<SessionThreadViewEntryView>,
    from: int,
)
    ensures
        is_sound(
            before,
            ctx,
            images_flushed(
                entries_emitted(started(before, notes), ctx, entries, from, entries.len() as int),
            ),
        ),
{
    let s = started(before, notes);
    assert(s.out.take(before.len() as int) =~= before);
    assert(s.out.skip(before.len() as int) =~= Seq::<RolloutItemView>::empty());
    assert(names_of(ctx, s.closed) =~= Seq::<Seq<char>>::empty());
    assert(is_sound(before, ctx, s));
    lemma_entries(before, ctx, s, entries, from, entries.len() as int);
    let e = entries_emitted(s, ctx, entries, from, entries.len() as int);
    lemma_unanswered_quiet(e.pending);
    lemma_quiet_lines(before, ctx, e, unanswered_lines(e.pending), images_flushed(e));
}

/// A whole tail leaves the lines before it as they are, adds no boundary and no
/// rollback, and starts and ends no turn but such as are over.
pub proof fn whole_tail_goes_on(
    before: Seq<RolloutItemView>,
    notes: Seq<Seq<char>>,
    ctx: TailContextView,
    entries: Seq<SessionThreadViewEntryView>,
    from: int,
)
    ensures
        goes_on(before, ctx, whole_tail(started(before, notes), ctx, entries, from)),
{
    lemma_flushed(before, notes, ctx, entries, from);
    let s = started(before, notes);
    let flushed = images_flushed(entries_emitted(s, ctx, entries, from, entries.len() as int));
    let rest = left_open(flushed, ctx, ctx.turns.len() as int);
    lemma_left_open_over(flushed, ctx, ctx.turns.len() as int);
    stable_order_is_sorted(turn_keys(rest));
    lemma_ends_go_on(before, ctx, flushed, rest, rest.len() as int);
}

proof fn lemma_left_open_over(s: TailView, ctx: TailContextView, n: int)
    requires
        0 <= n <= ctx.turns.len(),
    ensures
        forall|k: int|
            0 <= k < left_open(s, ctx, n).len() ==> ctx.turns.contains(
                #[trigger] left_open(s, ctx, n)[k],
            ) && left_open(s, ctx, n)[k].status == TurnStatus::Closed,
    decreases n,
{
    if n > 0 {
        lemma_left_open_over(s, ctx, n - 1);
        let before = left_open(s, ctx, n - 1);
        let after = left_open(s, ctx, n);
        assert forall|k: int| 0 <= k < after.len() implies ctx.turns.contains(#[trigger] after[k])
            && after[k].status == TurnStatus::Closed by {
            if k < before.len() {
                assert(after[k] == before[k]);
            } else {
                assert(after[k] == ctx.turns[n - 1]);
            }
        }
    }
}

proof fn lemma_ends_go_on(
    before: Seq<RolloutItemView>,
    ctx: TailContextView,
    s: TailView,
    list: Seq<TurnRecordView>,
    n: int,
)
    requires
        goes_on(before, ctx, s),
        forall|k: int|
            0 <= k < list.len() ==> ctx.turns.contains(#[trigger] list[k]) && list[k].status
                == TurnStatus::Closed,
        0 <= n <= list.len(),
    ensures
        goes_on(
            before,
            ctx,
            turns_closed(s, ctx.names, list, stable_order(turn_keys(list)), n),
        ),
    decreases n,
{
    if n > 0 {
        let order = stable_order(turn_keys(list));
        stable_order_is_sorted(turn_keys(list));
        lemma_ends_go_on(before, ctx, s, list, n - 1);
        assert(0 <= order[n - 1] < list.len());
        lemma_end_goes_on(
            before,
            ctx,
            turns_closed(s, ctx.names, list, order, n - 1),
            list[order[n - 1]],
        );
    }
}

/// A whole tail leaves the lines before it as they are; adds no boundary and no
/// rollback; starts every turn at most once and ends it at most once, and only
/// after it was started and where the store says that it is over; starts no
/// turn that was rolled back; and leaves no image waiting.
pub proof fn whole_tail_is_sound(
    before: Seq<RolloutItemView>,
    notes: Seq<Seq<char>>,
    ctx: TailContextView,
    entries: Seq<SessionThreadViewEntryView>,
    from: int,
)
    requires
        turns_differ(ctx.turns),
    ensures
        is_sound(before, ctx, whole_tail(started(before, notes), ctx, entries, from)),
        whole_tail(started(before, notes), ctx, entries, from).pending == Seq::<
            PendingImageView,
        >::empty(),
{
    lemma_flushed(before, notes, ctx, entries, from);
    let s = started(before, notes);
    let flushed = images_flushed(entries_emitted(s, ctx, entries, from, entries.len() as int));
    let rest = left_open(flushed, ctx, ctx.turns.len() as int);
    lemma_left_open(flushed, ctx, ctx.turns.len() as int);
    let order = stable_order(turn_keys(rest));
    stable_order_is_sorted(turn_keys(rest));
    lemma_turns_closed(before, ctx, flushed, rest, rest.len() as int);
    lemma_no_pending(flushed, ctx.names, rest, order, rest.len() as int);
}

/// A whole tail ends every turn that it starts: what was opened and is over is
/// closed.
pub proof fn started_turns_are_ended(
    before: Seq<RolloutItemView>,
    notes: Seq<Seq<char>>,
    ctx: TailContextView,
    entries: Seq<SessionThreadViewEntryView>,
    from: int,
    id: Seq<char>,
)
    requires
        whole_tail(started(before, notes), ctx, entries, from).opened.contains(id),
        is_over(ctx.turns, id),
    ensures
        whole_tail(started(before, notes), ctx, entries, from).closed.contains(id),
{
    lemma_flushed(before, notes, ctx, entries, from);
    let s = started(before, notes);
    let flushed = images_flushed(entries_emitted(s, ctx, entries, from, entries.len() as int));
    let n = ctx.turns.len() as int;
    let rest = left_open(flushed, ctx, n);
    let order = stable_order(turn_keys(rest));
    stable_order_is_sorted(turn_keys(rest));
    lemma_all_closed_ids(flushed, ctx.names, rest, order, order.len() as int);
    assert(flushed.opened.contains(id));
    if !flushed.closed.contains(id) {
        lemma_turn_of(ctx.turns, id);
        let t = turn_of(ctx.turns, id)->0;
        let i = choose|i: int| 0 <= i < ctx.turns.len() && ctx.turns[i] == t;
        let k = choose|k: int| 0 <= k < flushed.opened.len() && flushed.opened[k] == id;
        assert(!ctx.rolled_back.contains(flushed.opened[k]));
        lemma_left_open_holds(flushed, ctx, n, i);
        let j = choose|j: int| 0 <= j < rest.len() && rest[j] == t;
        lemma_listed(rest, j);
        let q = choose|q: int| 0 <= q < rest.len() && #[trigger] order[q] == j;
        assert(rest[order[q]].turn_id == id);
    }
}

proof fn lemma_left_open_holds(s: TailView, ctx: TailContextView, n: int, i: int)
    requires
        0 <= i < n <= ctx.turns.len(),
        ctx.turns[i].status == TurnStatus::Closed,
        s.opened.contains(ctx.turns[i].turn_id),
        !s.closed.contains(ctx.turns[i].turn_id),
        !ctx.rolled_back.contains(ctx.turns[i].turn_id),
    ensures
        left_open(s, ctx, n).contains(ctx.turns[i]),
    decreases n,
{
    let after = left_open(s, ctx, n);
    if i < n - 1 {
        lemma_left_open_holds(s, ctx, n - 1, i);
        let before = left_open(s, ctx, n - 1);
        let k = choose|k: int| 0 <= k < before.len() && before[k] == ctx.turns[i];
        assert(after[k] == ctx.turns[i]);
    } else {
        assert(after[after.len() - 1] == ctx.turns[i]);
    }
}

proof fn lemma_all_closed_ids(
    s: TailView,
    names: Seq<TurnIdPairView>,
    turns: Seq<TurnRecordView>,
    order: Seq<int>,
    n: int,
)
    requires
        0 <= n <= order.len(),
    ensures
        turns_closed(s, names, turns, order, n).opened == s.opened,
        forall|id: Seq<char>| #[trigger]
            s.closed.contains(id) ==> turns_closed(s, names, turns, order, n).closed.contains(id),
        forall|q: int|
            0 <= q < n ==> turns_closed(s, names, turns, order, n).closed.contains(
                turns[#[trigger] order[q]].turn_id,
            ),
    decreases n,
{
    if n > 0 {
        lemma_all_closed_ids(s, names, turns, order, n - 1);
        let mid = turns_closed(s, names, turns, order, n - 1).closed;
        let all = turns_closed(s, names, turns, order, n).closed;
        let last = turns[order[n - 1]].turn_id;
        assert(all == mid.push(last));
        assert(all[mid.len() as int] == last);
        assert forall|id: Seq<char>| #[trigger] mid.contains(id) implies all.contains(id) by {
            let k = choose|k: int| 0 <= k < mid.len() && mid[k] == id;
            assert(all[k] == id);
        }
    }
}

proof fn lemma_no_pending(
    s: TailView,
    names: Seq<TurnIdPairView>,
    turns: Seq<TurnRecordView>,
    order: Seq<int>,
    n: int,
)
    requires
        s.pending == Seq::<PendingImageView>::empty(),
    ensures
        turns_closed(s, names, turns, order, n).pending == Seq::<PendingImageView>::empty(),
    decreases n,
{
    if n > 0 {
        lemma_no_pending(s, names, turns, order, n - 1);
    }
}

} // verus!
