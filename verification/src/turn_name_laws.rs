//! Which of the host's names a turn of the store is shown by.

use vstd::prelude::*;

use crate::host_turn_ids::{
    free_starts, is_named, is_taken, laid, named_by_event, named_by_events, named_live, shown_name,
    turn_closed_at, turn_names, turn_of_end_key, unnamed_turns, TurnIdPairView,
};
use crate::records::{EventKind, EventRecordView, TurnRecordView};
use crate::rollout::{EventMsgView, RolloutItemView};

verus! {

/// Pair `k` is the last that names a turn.
pub open spec fn is_name_at(map: Seq<TurnIdPairView>, lhc: Seq<char>, k: int) -> bool {
    &&& 0 <= k < map.len()
    &&& map[k].lhc == lhc
    &&& forall|j: int| k < j < map.len() ==> (#[trigger] map[j]).lhc != lhc
}

/// A turn is shown by the host's name that it has, and else by its own.
pub proof fn named_turns_are_shown_by_name(map: Seq<TurnIdPairView>, lhc: Seq<char>, k: int)
    ensures
        is_name_at(map, lhc, k) ==> shown_name(map, lhc) == map[k].host,
        (forall|j: int| 0 <= j < map.len() ==> (#[trigger] map[j]).lhc != lhc) ==> shown_name(
            map,
            lhc,
        ) == lhc,
    decreases map.len(),
{
    if map.len() > 0 && map.last().lhc != lhc {
        let front = map.drop_last();
        named_turns_are_shown_by_name(front, lhc, k);
        if is_name_at(map, lhc, k) {
            assert(front[k] == map[k]);
            assert forall|j: int| k < j < front.len() implies (#[trigger] front[j]).lhc != lhc by {
                assert(front[j] == map[j]);
            }
        }
        if forall|j: int| 0 <= j < map.len() ==> (#[trigger] map[j]).lhc != lhc {
            assert forall|j: int| 0 <= j < front.len() implies (#[trigger] front[j]).lhc != lhc by {
                assert(front[j] == map[j]);
            }
        }
    } else if map.len() > 0 {
        assert(map[map.len() - 1].lhc == lhc);
    }
}

/// The event at `order` closed turn `k`: of the turns that say so, the first.
pub open spec fn is_closed_at(turns: Seq<TurnRecordView>, order: i64, k: int) -> bool {
    &&& 0 <= k < turns.len()
    &&& turns[k].closed_at_event_order == Some(order)
    &&& forall|j: int| 0 <= j < k ==> (#[trigger] turns[j]).closed_at_event_order != Some(order)
}

proof fn lemma_closed_at(turns: Seq<TurnRecordView>, order: i64, i: int)
    requires
        0 <= i <= turns.len(),
        forall|j: int| 0 <= j < i ==> (#[trigger] turns[j]).closed_at_event_order != Some(order),
    ensures
        match turn_closed_at(turns, order, i) {
            Some(id) => exists|k: int| #[trigger]
                is_closed_at(turns, order, k) && turns[k].turn_id == id,
            None => forall|k: int| !#[trigger] is_closed_at(turns, order, k),
        },
    decreases turns.len() - i,
{
    if i < turns.len() {
        if turns[i].closed_at_event_order == Some(order) {
            assert(is_closed_at(turns, order, i));
        } else {
            lemma_closed_at(turns, order, i + 1);
        }
    }
}

/// The event is the end of a turn, and its key tells the host's name of it.
pub open spec fn tells_name(
    turns: Seq<TurnRecordView>,
    event: EventRecordView,
    lhc: Seq<char>,
    host: Seq<char>,
) -> bool {
    &&& event.kind == EventKind::TurnEnd
    &&& turn_of_end_key(event.idempotency_key) == Some(host)
    &&& exists|k: int| #[trigger]
        is_closed_at(turns, event.event_order, k) && turns[k].turn_id == lhc
}

proof fn lemma_tells_name(
    map: Seq<TurnIdPairView>,
    turns: Seq<TurnRecordView>,
    event: EventRecordView,
    lhc: Seq<char>,
    host: Seq<char>,
)
    ensures
        tells_name(turns, event, lhc, host) && !is_taken(map, host) && !is_named(map, lhc)
            ==> named_by_event(map, turns, event) == map.push(TurnIdPairView { lhc, host }),
        named_by_event(map, turns, event) == map || exists|l: Seq<char>, h: Seq<char>| #[trigger]
            tells_name(turns, event, l, h) && named_by_event(map, turns, event) == map.push(
                TurnIdPairView { lhc: l, host: h },
            ),
{
    lemma_closed_at(turns, event.event_order, 0);
    if tells_name(turns, event, lhc, host) {
        let k = choose|k: int| #[trigger]
            is_closed_at(turns, event.event_order, k) && turns[k].turn_id == lhc;
        let id = turn_closed_at(turns, event.event_order, 0);
        let q = choose|q: int| #[trigger]
            is_closed_at(turns, event.event_order, q) && turns[q].turn_id == id->0;
        assert(q == k) by {
            assert(!(q < k));
            assert(!(k < q));
        }
    }
    if named_by_event(map, turns, event) != map {
        let l = turn_closed_at(turns, event.event_order, 0)->0;
        let h = turn_of_end_key(event.idempotency_key)->0;
        assert(tells_name(turns, event, l, h));
    }
}

proof fn lemma_named_grows(
    turns: Seq<TurnRecordView>,
    events: Seq<EventRecordView>,
    i: int,
    n: int,
)
    requires
        0 <= i <= n <= events.len(),
    ensures
        named_by_events(turns, events, i).len() <= named_by_events(turns, events, n).len(),
        named_by_events(turns, events, n).take(
            named_by_events(turns, events, i).len() as int,
        ) == named_by_events(turns, events, i),
    decreases n - i,
{
    let a = named_by_events(turns, events, i);
    let b = named_by_events(turns, events, n);
    if i == n {
        assert(b.take(a.len() as int) =~= a);
    } else {
        lemma_named_grows(turns, events, i, n - 1);
        let before = named_by_events(turns, events, n - 1);
        assert(b.take(a.len() as int) =~= before.take(a.len() as int));
    }
}

/// No event before `n` tells that name or a name of that turn.
pub open spec fn is_untold(
    turns: Seq<TurnRecordView>,
    events: Seq<EventRecordView>,
    n: int,
    lhc: Seq<char>,
    host: Seq<char>,
) -> bool {
    forall|j: int, l: Seq<char>, h: Seq<char>|
        0 <= j < n && #[trigger] tells_name(turns, events[j], l, h) ==> l != lhc && h != host
}

proof fn lemma_untold(
    turns: Seq<TurnRecordView>,
    events: Seq<EventRecordView>,
    n: int,
    lhc: Seq<char>,
    host: Seq<char>,
)
    requires
        0 <= n <= events.len(),
        is_untold(turns, events, n, lhc, host),
    ensures
        !is_taken(named_by_events(turns, events, n), host),
        !is_named(named_by_events(turns, events, n), lhc),
    decreases n,
{
    if n > 0 {
        lemma_untold(turns, events, n - 1, lhc, host);
        let before = named_by_events(turns, events, n - 1);
        let after = named_by_events(turns, events, n);
        lemma_tells_name(before, turns, events[n - 1], lhc, host);
        if after != before {
            let (l, h) = choose|l: Seq<char>, h: Seq<char>| #[trigger]
                tells_name(turns, events[n - 1], l, h) && after == before.push(
                    TurnIdPairView { lhc: l, host: h },
                );
            assert(l != lhc && h != host);
            assert forall|k: int| 0 <= k < after.len() implies (#[trigger] after[k]).lhc != lhc
                && after[k].host != host by {
                if k < before.len() {
                    assert(after[k] == before[k]);
                }
            }
        }
    }
}

proof fn lemma_pair_is_name(map: Seq<TurnIdPairView>, k: int)
    requires
        crate::host_turn_ids::is_one_to_one(map),
        0 <= k < map.len(),
    ensures
        shown_name(map, map[k].lhc) == map[k].host,
{
    assert forall|j: int| k < j < map.len() implies (#[trigger] map[j]).lhc != map[k].lhc by {}
    named_turns_are_shown_by_name(map, map[k].lhc, k);
}

/// A turn whose end was stored under the host's name is shown by that name: the
/// first end that tells it counts.
pub proof fn ended_turns_are_shown_by_the_hosts_name(
    turns: Seq<TurnRecordView>,
    events: Seq<EventRecordView>,
    prior: Seq<RolloutItemView>,
    live_host: Option<Seq<char>>,
    live_lhc: Option<Seq<char>>,
    i: int,
    lhc: Seq<char>,
    host: Seq<char>,
)
    requires
        0 <= i < events.len(),
        tells_name(turns, events[i], lhc, host),
        is_untold(turns, events, i, lhc, host),
    ensures
        shown_name(turn_names(turns, events, prior, live_host, live_lhc), lhc) == host,
{
    let n = events.len() as int;
    let before = named_by_events(turns, events, i);
    lemma_untold(turns, events, i, lhc, host);
    lemma_tells_name(before, turns, events[i], lhc, host);
    lemma_named_grows(turns, events, i + 1, n);
    crate::host_turn_ids::names_are_one_to_one(turns, events, prior, live_host, live_lhc);
    let all = turn_names(turns, events, prior, live_host, live_lhc);
    let told = named_by_events(turns, events, n);
    let k = before.len() as int;
    assert(told.take(k + 1)[k] == (TurnIdPairView { lhc, host }));
    assert(all[k] == told[k]);
    lemma_pair_is_name(all, k);
}

/// The turn that is live is shown by the host's name of it, where no stored end
/// tells otherwise and the store holds the turn.
pub proof fn live_turn_is_shown_by_the_hosts_name(
    turns: Seq<TurnRecordView>,
    events: Seq<EventRecordView>,
    prior: Seq<RolloutItemView>,
    host: Seq<char>,
    lhc: Seq<char>,
    t: int,
)
    requires
        is_untold(turns, events, events.len() as int, lhc, host),
        0 <= t < turns.len(),
        turns[t].turn_id == lhc,
    ensures
        shown_name(turn_names(turns, events, prior, Some(host), Some(lhc)), lhc) == host,
{
    let n = events.len() as int;
    lemma_untold(turns, events, n, lhc, host);
    let told = named_by_events(turns, events, n);
    assert(crate::host_turn_ids::has_turn_id(turns, lhc));
    let proven = named_live(told, turns, Some(host), Some(lhc));
    assert(proven == told.push(TurnIdPairView { lhc, host }));
    crate::host_turn_ids::names_are_one_to_one(turns, events, prior, Some(host), Some(lhc));
    let all = turn_names(turns, events, prior, Some(host), Some(lhc));
    let k = told.len() as int;
    assert(all[k] == proven[k]);
    lemma_pair_is_name(all, k);
}

/// The turn that a line starts.
pub open spec fn started_by(line: RolloutItemView) -> Option<Seq<char>> {
    match line {
        RolloutItemView::EventMsg(EventMsgView::TurnStarted { turn_id, .. }) => Some(turn_id),
        _ => None,
    }
}

/// The turns that the lines of a rollout start, in their order.
pub open spec fn starts_in(lines: Seq<RolloutItemView>) -> Seq<Seq<char>> {
    lines.filter(|l: RolloutItemView| started_by(l) is Some).map_values(
        |l: RolloutItemView| started_by(l)->0,
    )
}

proof fn lemma_starts_push(lines: Seq<RolloutItemView>, n: int)
    requires
        0 < n <= lines.len(),
    ensures
        starts_in(lines.take(n)) == (match started_by(lines[n - 1]) {
            Some(id) => starts_in(lines.take(n - 1)).push(id),
            None => starts_in(lines.take(n - 1)),
        }),
{
    reveal(Seq::filter);
    let p = |l: RolloutItemView| started_by(l) is Some;
    let f = |l: RolloutItemView| started_by(l)->0;
    assert(lines.take(n).drop_last() =~= lines.take(n - 1));
    let before = lines.take(n - 1).filter(p);
    if started_by(lines[n - 1]) is Some {
        assert(lines.take(n).filter(p) =~= before.push(lines[n - 1]));
        assert(before.push(lines[n - 1]).map_values(f) =~= before.map_values(f).push(
            started_by(lines[n - 1])->0,
        ));
    }
}

proof fn lemma_free_starts_are(
    map: Seq<TurnIdPairView>,
    prior: Seq<RolloutItemView>,
    n: int,
)
    requires
        0 <= n <= prior.len(),
        starts_in(prior.take(n)).no_duplicates(),
    ensures
        free_starts(map, prior, n) == starts_in(prior.take(n)).filter(
            |h: Seq<char>| !is_taken(map, h),
        ),
    decreases n,
{
    reveal(Seq::filter);
    let q = |h: Seq<char>| !is_taken(map, h);
    if n == 0 {
        assert(starts_in(prior.take(0)) =~= Seq::<Seq<char>>::empty());
    } else {
        lemma_starts_push(prior, n);
        let before = starts_in(prior.take(n - 1));
        let all = starts_in(prior.take(n));
        if let Some(id) = started_by(prior[n - 1]) {
            assert(all.drop_last() =~= before);
            assert(before.no_duplicates()) by {
                assert forall|i: int, j: int|
                    0 <= i < before.len() && 0 <= j < before.len() && i != j implies before[i]
                    != before[j] by {
                    assert(all[i] == before[i] && all[j] == before[j]);
                }
            }
            lemma_free_starts_are(map, prior, n - 1);
            if before.filter(q).contains(id) {
                before.lemma_filter_contains_rev(q, id);
                let k = choose|k: int| 0 <= k < before.len() && before[k] == id;
                assert(all[k] == all[all.len() - 1]);
            }
        } else {
            lemma_free_starts_are(map, prior, n - 1);
        }
    }
}

proof fn lemma_unnamed_are(map: Seq<TurnIdPairView>, turns: Seq<TurnRecordView>, n: int)
    requires
        0 <= n <= turns.len(),
        crate::tail_laws::turns_differ(turns),
    ensures
        unnamed_turns(map, turns, n) == turns.take(n).map_values(
            |t: TurnRecordView| t.turn_id,
        ).filter(|id: Seq<char>| !is_named(map, id)),
    decreases n,
{
    reveal(Seq::filter);
    let f = |t: TurnRecordView| t.turn_id;
    let q = |id: Seq<char>| !is_named(map, id);
    let ids = turns.take(n).map_values(f);
    if n == 0 {
        assert(ids =~= Seq::<Seq<char>>::empty());
    } else {
        lemma_unnamed_are(map, turns, n - 1);
        let before = turns.take(n - 1).map_values(f);
        assert(ids.drop_last() =~= before);
        let id = turns[n - 1].turn_id;
        if before.filter(q).contains(id) {
            before.lemma_filter_contains_rev(q, id);
            let k = choose|k: int| 0 <= k < before.len() && before[k] == id;
            assert(turns[k].turn_id == turns[n - 1].turn_id);
        }
    }
}

/// What the ends and the live turn tell stands first. Where the turns left over
/// and the names left over that the rollout before starts are as many, they are
/// laid against each other in their order; else nothing is guessed.
pub proof fn left_over_names_are_laid_in_order(
    turns: Seq<TurnRecordView>,
    events: Seq<EventRecordView>,
    prior: Seq<RolloutItemView>,
    live_host: Option<Seq<char>>,
    live_lhc: Option<Seq<char>>,
)
    requires
        crate::tail_laws::turns_differ(turns),
        starts_in(prior).no_duplicates(),
    ensures
        ({
            let told = turn_names(turns, events, Seq::empty(), live_host, live_lhc);
            let all = turn_names(turns, events, prior, live_host, live_lhc);
            let left = turns.map_values(|t: TurnRecordView| t.turn_id).filter(
                |id: Seq<char>| !is_named(told, id),
            );
            let free = starts_in(prior).filter(|h: Seq<char>| !is_taken(told, h));
            &&& left.len() != free.len() ==> all == told
            &&& left.len() == free.len() ==> {
                &&& all.len() == told.len() + left.len()
                &&& all.take(told.len() as int) == told
                &&& forall|k: int|
                    0 <= k < left.len() ==> #[trigger] all[told.len() + k] == (TurnIdPairView {
                        lhc: left[k],
                        host: free[k],
                    })
            }
        }),
{
    let proven = named_live(
        named_by_events(turns, events, events.len() as int),
        turns,
        live_host,
        live_lhc,
    );
    crate::host_turn_ids::without_prior_nothing_is_laid(proven, turns);
    let n = turns.len() as int;
    let m = prior.len() as int;
    assert(turns.take(n) =~= turns);
    assert(prior.take(m) =~= prior);
    lemma_unnamed_are(proven, turns, n);
    lemma_free_starts_are(proven, prior, m);
    let left = unnamed_turns(proven, turns, n);
    let free = free_starts(proven, prior, m);
    let all = turn_names(turns, events, prior, live_host, live_lhc);
    if left.len() == free.len() {
        assert(all == proven + laid(left, free));
        assert(all.take(proven.len() as int) =~= proven);
    }
}

} // verus!
