//! What the store owes to the host's history, and how an import makes it good.

use vstd::prelude::*;
use vstd::string::*;

use crate::compact_marker::content_digest;
use crate::coverage::{
    archive_id, anon_digest, candidate_count, class_of, coverage_gap, import_plan,
    import_provenance, import_tracker, is_candidate, is_missing, kind_name, lost_kinds,
    missing_items, missing_of, needed_count, plan_of, stored_count, unrepresentable_gap,
    CoverageClass, DerivedProvenanceView,
};
use crate::idempotency::{digest_of, stable_id, OccurrenceTrackerView};
use crate::mapping::{item_events, EventView, ItemKey};
use crate::protocol::{item_id, with_id, ResponseItemView};
use crate::records::{EventRecordView, RawItemProvenance};
use crate::text::decimal;

verus! {

// ---------------------------------------------------------------------------
// Identities
// ---------------------------------------------------------------------------

/// Items of this kind can bear an identity.
pub open spec fn can_bear_an_id(item: ResponseItemView) -> bool {
    !(item is CompactionTrigger) && !(item is Other)
}

/// An item bears the identity that it is given, and nothing else of it changes:
/// given back its own it is what it was.
pub proof fn given_identities_are_borne(
    item: ResponseItemView,
    id: Option<Seq<char>>,
    other: Option<Seq<char>>,
)
    ensures
        can_bear_an_id(item) ==> item_id(with_id(item, id)) == id,
        !can_bear_an_id(item) ==> item_id(item) is None && with_id(item, id) == item,
        with_id(item, item_id(item)) == item,
        with_id(with_id(item, other), id) == with_id(item, id),
        can_bear_an_id(with_id(item, id)) == can_bear_an_id(item),
{
}

/// What an item holds tells it apart from others whatever identity it bears.
pub proof fn content_is_known_without_the_identity(item: ResponseItemView, id: Option<Seq<char>>)
    ensures
        content_digest(with_id(item, id)) == content_digest(item),
        item_id(item) is None ==> content_digest(item) == digest_of(item),
{
    given_identities_are_borne(item, None, id);
    given_identities_are_borne(item, id, None);
}

/// The identity of an item: its own, where that is not empty.
pub open spec fn own_id(item: ResponseItemView) -> Option<Seq<char>> {
    match item_id(item) {
        Some(s) if s.len() > 0 => Some(s),
        _ => None,
    }
}

// ---------------------------------------------------------------------------
// What is owed
// ---------------------------------------------------------------------------

/// The store must hold the item: it is what the user or the assistant says, or
/// what was thought, called, answered or put in for the model.
pub open spec fn is_owed(item: ResponseItemView) -> bool {
    match item {
        ResponseItemView::Message { role, .. } => role == "user"@ || role == "assistant"@,
        ResponseItemView::Compaction { .. } => false,
        ResponseItemView::ContextCompaction { .. } => false,
        ResponseItemView::CompactionTrigger { .. } => false,
        ResponseItemView::Other => false,
        _ => true,
    }
}

/// What is owed is required, what nobody knows cannot be held, and the rest is
/// left out by design.
pub proof fn owed_items_are_required(item: ResponseItemView)
    ensures
        class_of(item) == CoverageClass::Required <==> is_owed(item),
        class_of(item) == CoverageClass::Unrepresentable <==> item is Other,
        is_candidate(item) <==> is_owed(item),
{
}

/// Item `i` is owed and not held. One with an identity is held when some event of
/// the store was made from that identity, and not looked for when it was served.
/// One without is not looked for when its content was served; else it is held as
/// long as the store has more events of its digest than the history has such
/// items before it.
pub open spec fn is_absent(
    items: Seq<ResponseItemView>,
    i: int,
    events: Seq<EventRecordView>,
    derived: DerivedProvenanceView,
) -> bool {
    &&& is_owed(items[i])
    &&& match own_id(items[i]) {
        Some(id) => !derived.ids.contains(id) && forall|k: int|
            0 <= k < events.len() ==> archive_id((#[trigger] events[k]).idempotency_key) != Some(
                id,
            ),
        None => !derived.digests.contains(content_digest(items[i])) && events.filter(
            |e: EventRecordView| is_event_of(e, digest_of(items[i])),
        ).len() <= items.take(i).filter(
            |x: ResponseItemView| is_known_by(x, digest_of(items[i]), derived),
        ).len(),
    }
}

/// The event was made from an item without identity and of this digest.
pub open spec fn is_event_of(e: EventRecordView, digest: Seq<char>) -> bool {
    anon_digest(e.idempotency_key) == Some(digest)
}

/// The item has no identity, was not served, and is of this digest.
pub open spec fn is_known_by(
    item: ResponseItemView,
    digest: Seq<char>,
    derived: DerivedProvenanceView,
) -> bool {
    is_owed(item) && own_id(item) is None && !derived.digests.contains(content_digest(item))
        && digest_of(item) == digest
}

proof fn lemma_stored_count(events: Seq<EventRecordView>, digest: Seq<char>, n: int)
    requires
        0 <= n <= events.len(),
    ensures
        stored_count(events, digest, n) == events.take(n).filter(
            |e: EventRecordView| is_event_of(e, digest),
        ).len(),
    decreases n,
{
    reveal(Seq::filter);
    if n > 0 {
        lemma_stored_count(events, digest, n - 1);
        assert(events.take(n).drop_last() =~= events.take(n - 1));
    }
}

proof fn lemma_needed_count(
    items: Seq<ResponseItemView>,
    derived: DerivedProvenanceView,
    digest: Seq<char>,
    n: int,
)
    requires
        0 <= n <= items.len(),
    ensures
        needed_count(items, derived, digest, n) == items.take(n).filter(
            |x: ResponseItemView| is_known_by(x, digest, derived),
        ).len(),
    decreases n,
{
    reveal(Seq::filter);
    if n > 0 {
        lemma_needed_count(items, derived, digest, n - 1);
        assert(items.take(n).drop_last() =~= items.take(n - 1));
    }
}

proof fn lemma_absent(
    items: Seq<ResponseItemView>,
    i: int,
    events: Seq<EventRecordView>,
    derived: DerivedProvenanceView,
)
    requires
        0 <= i < items.len(),
    ensures
        is_missing(items, i, events, derived) == is_absent(items, i, events, derived),
{
    let digest = digest_of(items[i]);
    lemma_stored_count(events, digest, events.len() as int);
    lemma_needed_count(items, derived, digest, i);
    assert(events.take(events.len() as int) =~= events);
}

/// The places of a history.
pub open spec fn places(n: nat) -> Seq<int> {
    Seq::new(n, |i: int| i)
}

proof fn lemma_missing_of(
    items: Seq<ResponseItemView>,
    events: Seq<EventRecordView>,
    derived: DerivedProvenanceView,
    n: nat,
)
    requires
        n <= items.len(),
    ensures
        missing_of(items, events, derived, n as int) == places(n).filter(
            |i: int| is_absent(items, i, events, derived),
        ).map_values(|i: int| items[i]),
    decreases n,
{
    reveal(Seq::filter);
    let p = |i: int| is_absent(items, i, events, derived);
    let f = |i: int| items[i];
    if n == 0 {
        assert(places(0).filter(p).map_values(f) =~= Seq::<ResponseItemView>::empty());
    } else {
        let m = (n - 1) as nat;
        lemma_missing_of(items, events, derived, m);
        lemma_absent(items, n - 1, events, derived);
        assert(places(n).drop_last() =~= places(m));
        assert(places(n).last() == n - 1);
        let before = places(m).filter(p);
        if p(n - 1) {
            assert(places(n).filter(p) =~= before.push(n - 1));
            assert(before.push(n - 1).map_values(f) =~= before.map_values(f).push(items[n - 1]));
        } else {
            assert(places(n).filter(p) =~= before);
        }
    }
}

/// The missing items are exactly those that are owed and not held, in their order.
pub proof fn missing_items_are_those_not_held(
    items: Seq<ResponseItemView>,
    events: Seq<EventRecordView>,
    derived: DerivedProvenanceView,
)
    ensures
        missing_items(items, events, derived) == places(items.len()).filter(
            |i: int| is_absent(items, i, events, derived),
        ).map_values(|i: int| items[i]),
{
    lemma_missing_of(items, events, derived, items.len());
}

// ---------------------------------------------------------------------------
// Gaps
// ---------------------------------------------------------------------------

proof fn lemma_lost_kinds(items: Seq<ResponseItemView>, n: int)
    requires
        0 <= n <= items.len(),
    ensures
        lost_kinds(items, n).len() == items.take(n).filter(|x: ResponseItemView| x is Other).len(),
        forall|k: int| 0 <= k < lost_kinds(items, n).len() ==> #[trigger] lost_kinds(items, n)[k]
            == "Other"@,
    decreases n,
{
    reveal(Seq::filter);
    if n > 0 {
        lemma_lost_kinds(items, n - 1);
        assert(items.take(n).drop_last() =~= items.take(n - 1));
    }
}

proof fn lemma_candidate_count(items: Seq<ResponseItemView>, n: int)
    requires
        0 <= n <= items.len(),
    ensures
        candidate_count(items, n) == items.take(n).filter(|x: ResponseItemView| is_owed(x)).len(),
    decreases n,
{
    reveal(Seq::filter);
    if n > 0 {
        lemma_candidate_count(items, n - 1);
        assert(items.take(n).drop_last() =~= items.take(n - 1));
    }
}

/// A history with items that nobody knows is refused, and the number of these is
/// told.
pub proof fn unknown_items_are_refused(items: Seq<ResponseItemView>)
    ensures
        ({
            let lost = items.filter(|x: ResponseItemView| x is Other).len();
            &&& unrepresentable_gap(items) is None <==> lost == 0
            &&& lost > 0 ==> unrepresentable_gap(items) == Some(
                "host history contains "@ + decimal(lost)
                    + " item type(s) LHC cannot safely round-trip: "@ + crate::text::joined(
                    Seq::new(lost, |k: int| "Other"@),
                    ", "@,
                ),
            )
        }),
{
    lemma_lost_kinds(items, items.len() as int);
    assert(items.take(items.len() as int) =~= items);
    let lost = items.filter(|x: ResponseItemView| x is Other).len();
    assert(lost_kinds(items, items.len() as int) =~= Seq::new(lost, |k: int| "Other"@));
}

/// Of a history whose every item is known, a gap tells how many are missing and
/// how many are owed, or that the store is empty.
pub proof fn gaps_are_counted(
    items: Seq<ResponseItemView>,
    events: Seq<EventRecordView>,
    derived: DerivedProvenanceView,
)
    requires
        forall|i: int| 0 <= i < items.len() ==> !((#[trigger] items[i]) is Other),
    ensures
        ({
            let missing = places(items.len()).filter(
                |i: int| is_absent(items, i, events, derived),
            ).len();
            let owed = items.filter(|x: ResponseItemView| is_owed(x)).len();
            coverage_gap(items, events, derived) == (if missing == 0 {
                None
            } else if events.len() == 0 {
                Some(
                    "host has "@ + decimal(owed)
                        + " provider-bearing candidate(s) but archive is empty (resume/fork without import?)"@,
                )
            } else {
                Some(
                    decimal(missing) + "/"@ + decimal(owed)
                        + " host provider-bearing item(s) missing from archive by identity (derived_excluded="@
                        + decimal(derived.ids.len() + derived.digests.len()) + ")"@,
                )
            })
        }),
{
    missing_items_are_those_not_held(items, events, derived);
    lemma_candidate_count(items, items.len() as int);
    lemma_lost_kinds(items, items.len() as int);
    assert(items.take(items.len() as int) =~= items);
    lemma_none_picked(items);
}

proof fn lemma_none_picked(items: Seq<ResponseItemView>)
    requires
        forall|i: int| 0 <= i < items.len() ==> !((#[trigger] items[i]) is Other),
    ensures
        items.filter(|x: ResponseItemView| x is Other).len() == 0,
    decreases items.len(),
{
    reveal(Seq::filter);
    if items.len() > 0 {
        let less = items.drop_last();
        assert forall|i: int| 0 <= i < less.len() implies !((#[trigger] less[i]) is Other) by {
            assert(less[i] == items[i]);
        }
        lemma_none_picked(less);
        assert(!(items[items.len() - 1] is Other));
    }
}

// ---------------------------------------------------------------------------
// Import
// ---------------------------------------------------------------------------

/// Where an item comes from when it is imported: the user's words from the user,
/// the rest of what is owed from the model, but for what the host put in.
pub proof fn imported_items_keep_their_side(item: ResponseItemView)
    ensures
        item matches ResponseItemView::Message { role, .. } ==> import_provenance(item) == (
        if role == "user"@ {
            RawItemProvenance::UserPrompt
        } else if role == "assistant"@ {
            RawItemProvenance::ModelOutput
        } else {
            RawItemProvenance::HostContext
        }),
        !(item is Message) ==> (import_provenance(item) == RawItemProvenance::ModelOutput <==> (
        is_owed(item) && !(item is AgentMessage) && !(item is AdditionalTools))),
        !(item is Message) ==> (import_provenance(item) == RawItemProvenance::ModelOutput
            || import_provenance(item) == RawItemProvenance::HostContext),
{
}

/// The item takes an occurrence number of a digest.
pub open spec fn takes_a_number(item: ResponseItemView, digest: Seq<char>) -> bool {
    is_owed(item) && own_id(item) is None && digest_of(item) == digest
}

proof fn lemma_import_tracker(
    items: Seq<ResponseItemView>,
    tracker: OccurrenceTrackerView,
    n: int,
    digest: Seq<char>,
)
    requires
        0 <= n <= items.len(),
        forall|d: Seq<char>| #[trigger] tracker.count(d) + items.len() <= u64::MAX,
    ensures
        import_tracker(items, tracker, n).count(digest) == tracker.count(digest) + items.take(
            n,
        ).filter(|x: ResponseItemView| takes_a_number(x, digest)).len(),
        items.take(n).filter(|x: ResponseItemView| takes_a_number(x, digest)).len() <= n,
    decreases n,
{
    reveal(Seq::filter);
    if n > 0 {
        lemma_import_tracker(items, tracker, n - 1, digest);
        assert(items.take(n).drop_last() =~= items.take(n - 1));
        assert(tracker.count(digest) + items.len() <= u64::MAX);
        let before = import_tracker(items, tracker, n - 1);
        let own = digest_of(items[n - 1]);
        if own != digest {
            assert(before.advanced(own).count(digest) == before.count(digest));
        } else {
            assert(before.advanced(own).count(digest) == (before.count(digest) + 1) as u64);
        }
    }
}

/// The events under which item `i` is imported: those that it gives rise to under
/// its identity, or else under its digest and the next number that neither the
/// store nor an item before it has.
pub open spec fn imported_as(
    thread_id: Seq<char>,
    items: Seq<ResponseItemView>,
    tracker: OccurrenceTrackerView,
    i: int,
) -> Seq<EventView> {
    item_events(
        ItemKey {
            thread_id,
            stable_id: own_id(items[i]),
            digest: digest_of(items[i]),
            occurrence: if own_id(items[i]) is Some {
                0
            } else {
                tracker.count(digest_of(items[i])) as nat + items.take(i).filter(
                    |x: ResponseItemView| takes_a_number(x, digest_of(items[i])),
                ).len()
            },
        },
        items[i],
        import_provenance(items[i]),
        None,
    )
}

proof fn lemma_imported_as(
    thread_id: Seq<char>,
    items: Seq<ResponseItemView>,
    tracker: OccurrenceTrackerView,
    i: int,
)
    requires
        0 <= i < items.len(),
        forall|d: Seq<char>| #[trigger] tracker.count(d) + items.len() <= u64::MAX,
    ensures
        crate::coverage::import_events(thread_id, items, tracker, i) == imported_as(
            thread_id,
            items,
            tracker,
            i,
        ),
{
    lemma_import_tracker(items, tracker, i, digest_of(items[i]));
}

proof fn lemma_plan_of(
    thread_id: Seq<char>,
    items: Seq<ResponseItemView>,
    tracker: OccurrenceTrackerView,
    n: nat,
)
    requires
        n <= items.len(),
        forall|d: Seq<char>| #[trigger] tracker.count(d) + items.len() <= u64::MAX,
        forall|i: int|
            0 <= i < n && is_owed(#[trigger] items[i]) ==> imported_as(
                thread_id,
                items,
                tracker,
                i,
            ).len() > 0,
    ensures
        plan_of(thread_id, items, tracker, n as int).error is None,
        plan_of(thread_id, items, tracker, n as int).batches == places(n).filter(
            |i: int| is_owed(items[i]),
        ).map_values(|i: int| imported_as(thread_id, items, tracker, i)),
    decreases n,
{
    reveal(Seq::filter);
    let p = |i: int| is_owed(items[i]);
    let f = |i: int| imported_as(thread_id, items, tracker, i);
    if n == 0 {
        assert(places(0).filter(p).map_values(f) =~= Seq::<Seq<EventView>>::empty());
    } else {
        let m = (n - 1) as nat;
        lemma_plan_of(thread_id, items, tracker, m);
        lemma_imported_as(thread_id, items, tracker, n - 1);
        assert(places(n).drop_last() =~= places(m));
        assert(places(n).last() == n - 1);
        let before = places(m).filter(p);
        if is_owed(items[n - 1]) {
            assert(places(n).filter(p) =~= before.push(n - 1));
            assert(before.push(n - 1).map_values(f) =~= before.map_values(f).push(f(n - 1)));
        } else {
            assert(places(n).filter(p) =~= before);
        }
    }
}

/// Every owed item is imported, one batch for each, in their order, where all of
/// them give rise to events.
pub proof fn owed_items_are_imported(
    thread_id: Seq<char>,
    items: Seq<ResponseItemView>,
    tracker: OccurrenceTrackerView,
)
    requires
        forall|i: int| 0 <= i < items.len() ==> !((#[trigger] items[i]) is Other),
        forall|d: Seq<char>| #[trigger] tracker.count(d) + items.len() <= u64::MAX,
        forall|i: int|
            0 <= i < items.len() && is_owed(#[trigger] items[i]) ==> imported_as(
                thread_id,
                items,
                tracker,
                i,
            ).len() > 0,
    ensures
        import_plan(thread_id, items, tracker).error is None,
        import_plan(thread_id, items, tracker).batches == places(items.len()).filter(
            |i: int| is_owed(items[i]),
        ).map_values(|i: int| imported_as(thread_id, items, tracker, i)),
{
    lemma_none_picked(items);
    unknown_items_are_refused(items);
    lemma_plan_of(thread_id, items, tracker, items.len());
}

proof fn lemma_plan_stays(
    thread_id: Seq<char>,
    items: Seq<ResponseItemView>,
    tracker: OccurrenceTrackerView,
    k: int,
    n: int,
)
    requires
        0 <= k <= n,
        plan_of(thread_id, items, tracker, k).error is Some,
    ensures
        plan_of(thread_id, items, tracker, n) == plan_of(thread_id, items, tracker, k),
    decreases n - k,
{
    if k < n {
        lemma_plan_stays(thread_id, items, tracker, k, n - 1);
    }
}

/// An import ends at the first owed item that gives rise to nothing, and says so;
/// what stands before it is imported.
pub proof fn import_ends_at_what_cannot_be_stored(
    thread_id: Seq<char>,
    items: Seq<ResponseItemView>,
    tracker: OccurrenceTrackerView,
    k: int,
)
    requires
        forall|i: int| 0 <= i < items.len() ==> !((#[trigger] items[i]) is Other),
        forall|d: Seq<char>| #[trigger] tracker.count(d) + items.len() <= u64::MAX,
        0 <= k < items.len(),
        is_owed(items[k]),
        imported_as(thread_id, items, tracker, k).len() == 0,
        forall|i: int|
            0 <= i < k && is_owed(#[trigger] items[i]) ==> imported_as(
                thread_id,
                items,
                tracker,
                i,
            ).len() > 0,
    ensures
        import_plan(thread_id, items, tracker).error == Some(
            "cannot safely import host "@ + kind_name(items[k])
                + " into archive (mapper produced zero events)"@,
        ),
        import_plan(thread_id, items, tracker).batches == places(k as nat).filter(
            |i: int| is_owed(items[i]),
        ).map_values(|i: int| imported_as(thread_id, items, tracker, i)),
{
    lemma_none_picked(items);
    unknown_items_are_refused(items);
    lemma_plan_of(thread_id, items, tracker, k as nat);
    lemma_imported_as(thread_id, items, tracker, k);
    lemma_plan_stays(thread_id, items, tracker, k + 1, items.len() as int);
}

/// Nothing is imported of a history with an item that nobody knows.
pub proof fn unknown_items_stop_the_import(
    thread_id: Seq<char>,
    items: Seq<ResponseItemView>,
    tracker: OccurrenceTrackerView,
    i: int,
)
    requires
        0 <= i < items.len(),
        items[i] is Other,
    ensures
        import_plan(thread_id, items, tracker).batches.len() == 0,
        import_plan(thread_id, items, tracker).error is Some,
{
    lemma_one_lost(items, items.len() as int, i);
}

proof fn lemma_one_lost(items: Seq<ResponseItemView>, n: int, i: int)
    requires
        0 <= i < n <= items.len(),
        items[i] is Other,
    ensures
        lost_kinds(items, n).len() > 0,
    decreases n,
{
    if i < n - 1 {
        lemma_one_lost(items, n - 1, i);
    }
}

} // verus!
