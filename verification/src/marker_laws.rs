//! How the marks of compacts are told from everything else in the store.

use vstd::prelude::*;
use vstd::string::*;

use crate::compact_marker::{
    is_marker_key, marker_in, marker_places, marker_read, markers_in, note_entries,
    recent_markers, CompactMarkerView, DERIVED_MARKER_CAP,
};
use crate::coverage::{served, DerivedProvenanceView};
use crate::idempotency::{event_key, key_escaped, transition_key, turn_key};
use crate::json::JsonView;
use crate::ordering::stable_order;
use crate::records::{EventPayloadView, EventRecordView};
use crate::text::begins_with;

verus! {

// ---------------------------------------------------------------------------
// Keys
// ---------------------------------------------------------------------------

/// A key whose field behind the thread is a word.
pub open spec fn key_with(thread_id: Seq<char>, word: Seq<char>, rest: Seq<char>) -> Seq<char> {
    "codex:"@ + key_escaped(thread_id) + seq![':'] + word + seq![':'] + rest
}

/// A key is that of a mark exactly when the field behind its thread says so.
pub proof fn marks_are_told_by_their_field(thread_id: Seq<char>, word: Seq<char>, rest: Seq<char>)
    requires
        !word.contains(':'),
    ensures
        is_marker_key(key_with(thread_id, word, rest)) <==> word == "compact_marker"@,
{
    let tail = word + seq![':'] + rest;
    let key = key_with(thread_id, word, rest);
    assert(key =~= "codex:"@ + key_escaped(thread_id) + seq![':'] + tail);
    crate::idempotency::key_after_thread_reads_back(thread_id, tail);
    assert forall|j: int| 0 <= j < word.len() implies tail[j] != ':' by {
        assert(tail[j] == word[j]);
        assert(word.contains(word[j]));
    }
    assert(tail[word.len() as int] == ':');
    crate::text::lemma_first_from_unique(tail, ':', 0, word.len() as int);
    assert(tail.subrange(0, word.len() as int) =~= word);
}

/// The keys of items, of ends of turns, of changes and of notes are no keys of
/// marks, whatever they hold.
pub proof fn other_keys_are_no_marks(
    thread_id: Seq<char>,
    id: Option<Seq<char>>,
    digest: Seq<char>,
    occurrence: nat,
    kind: Seq<char>,
    part: Option<Seq<char>>,
    a: Seq<char>,
    b: Seq<char>,
)
    ensures
        !is_marker_key(event_key(thread_id, id, digest, occurrence, kind, part)),
        !is_marker_key(turn_key(thread_id, a, b)),
        !is_marker_key(transition_key(thread_id, ":model_change:"@, a, b)),
        !is_marker_key(transition_key(thread_id, ":thinking_level_change:"@, a, b)),
        !is_marker_key(crate::mapping::runtime_note_event(thread_id, a, b).idempotency_key->0),
{
    reveal_strlit(":runtime_note:host:");
    reveal_strlit("runtime_note");
    reveal_strlit("host:");
    reveal_strlit(":id:");
    reveal_strlit(":anon:");
    reveal_strlit(":turn_end:");
    reveal_strlit(":model_change:");
    reveal_strlit(":thinking_level_change:");
    reveal_strlit("id");
    reveal_strlit("anon");
    reveal_strlit("turn_end");
    reveal_strlit("model_change");
    reveal_strlit("thinking_level_change");
    reveal_strlit("compact_marker");
    assert("compact_marker"@.len() == 14);
    assert(":id:"@ =~= seq![':'] + "id"@ + seq![':']);
    assert(":anon:"@ =~= seq![':'] + "anon"@ + seq![':']);
    assert(":turn_end:"@ =~= seq![':'] + "turn_end"@ + seq![':']);
    assert(":model_change:"@ =~= seq![':'] + "model_change"@ + seq![':']);
    assert(":thinking_level_change:"@ =~= seq![':'] + "thinking_level_change"@ + seq![':']);
    let key = event_key(thread_id, id, digest, occurrence, kind, part);
    match id {
        Some(s) => {
            let rest = key_escaped(s) + ":"@ + digest + ":"@ + kind
                + crate::idempotency::part_suffix(part);
            assert(key =~= key_with(thread_id, "id"@, rest));
            marks_are_told_by_their_field(thread_id, "id"@, rest);
        },
        None => {
            let rest = digest + ":"@ + crate::text::decimal(occurrence) + ":"@ + kind
                + crate::idempotency::part_suffix(part);
            assert(key =~= key_with(thread_id, "anon"@, rest));
            marks_are_told_by_their_field(thread_id, "anon"@, rest);
        },
    }
    let note = "host:"@ + key_escaped(b);
    assert(":runtime_note:host:"@ =~= seq![':'] + "runtime_note"@ + seq![':'] + "host:"@);
    assert(crate::mapping::runtime_note_event(thread_id, a, b).idempotency_key->0 =~= key_with(
        thread_id,
        "runtime_note"@,
        note,
    ));
    marks_are_told_by_their_field(thread_id, "runtime_note"@, note);
    let end = key_escaped(a) + ":"@ + b;
    assert(turn_key(thread_id, a, b) =~= key_with(thread_id, "turn_end"@, end));
    marks_are_told_by_their_field(thread_id, "turn_end"@, end);
    let change = key_escaped(a) + ":"@ + key_escaped(b);
    assert(transition_key(thread_id, ":model_change:"@, a, b) =~= key_with(
        thread_id,
        "model_change"@,
        change,
    ));
    marks_are_told_by_their_field(thread_id, "model_change"@, change);
    assert(transition_key(thread_id, ":thinking_level_change:"@, a, b) =~= key_with(
        thread_id,
        "thinking_level_change"@,
        change,
    ));
    marks_are_told_by_their_field(thread_id, "thinking_level_change"@, change);
}

// ---------------------------------------------------------------------------
// Marks in the store
// ---------------------------------------------------------------------------

/// A mark that an event holds behind either of its words is found; an event that
/// is no text holds none.
pub proof fn stored_marks_are_found(event: EventRecordView, notation: Seq<char>)
    ensures
        event.payload == (EventPayloadView::Text { text: "lhc_compact_durable "@ + notation })
            ==> marker_in(event) == marker_read(notation),
        event.payload == (EventPayloadView::Text { text: "lhc_compact_marker "@ + notation })
            ==> marker_in(event) == marker_read(notation),
        !(event.payload is Text) ==> marker_in(event) is None,
{
    reveal_strlit("lhc_compact_durable ");
    reveal_strlit("lhc_compact_marker ");
    crate::idempotency::lemma_after_prefix("lhc_compact_durable "@, notation);
    crate::idempotency::lemma_after_prefix("lhc_compact_marker "@, notation);
    let s = "lhc_compact_marker "@ + notation;
    assert(!begins_with(s, "lhc_compact_durable "@)) by {
        if begins_with(s, "lhc_compact_durable "@) {
            assert(s.subrange(0, 20)[12] == s[12]);
            assert(s[12] == 'm' && "lhc_compact_durable "@[12] == 'd');
        }
    }
}

proof fn lemma_mark_listed(events: Seq<EventRecordView>, n: int, i: int) -> (k: int)
    requires
        0 <= i < n <= events.len(),
        marker_in(events[i]) is Some,
    ensures
        0 <= k < markers_in(events, n).len(),
        markers_in(events, n)[k] == marker_in(events[i])->0,
        marker_places(events, n).len() == markers_in(events, n).len(),
        marker_places(events, n)[k].0 == events[i].event_order,
    decreases n,
{
    lemma_same_number(events, n - 1);
    if i == n - 1 {
        markers_in(events, n).len() - 1
    } else {
        lemma_mark_listed(events, n - 1, i)
    }
}

proof fn lemma_same_number(events: Seq<EventRecordView>, n: int)
    ensures
        marker_places(events, n).len() == markers_in(events, n).len(),
    decreases n,
{
    if n > 0 {
        lemma_same_number(events, n - 1);
    }
}

/// Every mark that the store holds is looked at, as long as it holds no more than
/// are looked at.
pub proof fn few_marks_are_all_looked_at(events: Seq<EventRecordView>, i: int)
    requires
        0 <= i < events.len(),
        marker_in(events[i]) is Some,
        markers_in(events, events.len() as int).len() <= DERIVED_MARKER_CAP,
    ensures
        recent_markers(events).contains(marker_in(events[i])->0),
        DERIVED_MARKER_CAP == 8,
{
    let n = events.len() as int;
    let all = markers_in(events, n);
    let places = marker_places(events, n);
    let order = stable_order(places);
    let k = lemma_mark_listed(events, n, i);
    crate::ordering::stable_order_is_sorted(places);
    crate::ordering::every_row_is_ordered(places, k);
    let p = choose|p: int| 0 <= p < order.len() && order[p] == k;
    assert(order.len() == places.len());
    let at = order.len() - 1 - p;
    assert(recent_markers(events)[at] == all[order[p]]);
}

/// What was served is what the session knows and what a mark that is looked at
/// records: nothing more and nothing less.
pub proof fn served_items_are_known_or_recorded(
    session: DerivedProvenanceView,
    events: Seq<EventRecordView>,
    x: Seq<char>,
)
    ensures
        served(session, events).ids.contains(x) <==> session.ids.contains(x) || exists|k: int|
            0 <= k < recent_markers(events).len() && (
            #[trigger] recent_markers(events)[k]).derived_host_ids.contains(x),
        served(session, events).digests.contains(x) <==> session.digests.contains(x)
            || exists|k: int|
            0 <= k < recent_markers(events).len() && (
            #[trigger] recent_markers(events)[k]).derived_content_digests.contains(x),
{
}

/// A note tells of its compact what it covered, up to where, what it cost, how
/// much it served and under which key, each under its own name.
pub proof fn notes_tell_of_the_compact(m: CompactMarkerView)
    ensures
        note_entries(m).len() == 8,
        note_entries(m).contains(("viewId"@, JsonView::Text(m.view_id))),
        note_entries(m).contains(("coveredFrom"@, JsonView::Int(m.covered_from as int))),
        note_entries(m).contains(("compactPoint"@, JsonView::Int(m.compact_point as int))),
        note_entries(m).contains(("totalTokens"@, JsonView::Int(m.total_tokens as int))),
        note_entries(m).contains(("bodyItemCount"@, JsonView::Int(m.body_item_count as int))),
        note_entries(m).contains(("markerKey"@, JsonView::Text(m.marker_key))),
        note_entries(m).contains(("archiveTip"@, JsonView::Text(m.archive_tip))),
        note_entries(m).contains(("viewMapSeam"@, JsonView::Text(m.view_map_seam))),
{
    let e = note_entries(m);
    assert(e[0].0 == "viewId"@ && e[1].0 == "coveredFrom"@ && e[2].0 == "compactPoint"@ && e[3].0
        == "totalTokens"@ && e[4].0 == "bodyItemCount"@ && e[5].0 == "markerKey"@ && e[6].0
        == "archiveTip"@ && e[7].0 == "viewMapSeam"@);
}

/// The key of a mark tells the body that was served: by the digest of a single
/// item as it stands, and by a number made of all digests where they are many.
pub proof fn marks_tell_what_was_served(digest: Seq<char>, digests: Seq<Seq<char>>)
    ensures
        crate::byte_text::byte_len(digest) <= 64 ==> crate::compact_marker::fingerprint(
            seq![digest],
        ) == digest,
        crate::byte_text::byte_len(crate::text::joined(digests, "|"@)) > 64
            ==> crate::compact_marker::fingerprint(digests) == crate::compact_marker::hex_number(
            crate::compact_marker::text_hash(crate::text::joined(digests, "|"@)) as nat,
        ),
{
    reveal_with_fuel(crate::text::joined, 2);
}

/// A number is noted digit by digit, the last sixteenths last.
pub proof fn numbers_are_noted_in_sixteenths(n: nat, d: nat)
    requires
        d < 16,
    ensures
        crate::compact_marker::hex_number(d) == seq![crate::json::hex_digit(d)],
        n > 0 ==> crate::compact_marker::hex_number(16 * n + d)
            == crate::compact_marker::hex_number(n).push(crate::json::hex_digit(d)),
{
    assert((16 * n + d) / 16 == n && (16 * n + d) % 16 == d) by (nonlinear_arith)
        requires
            d < 16,
    ;
}

/// Bytes are noted one by one, two digits for each.
pub proof fn bytes_are_noted_one_by_one(a: Seq<u8>, b: u8)
    ensures
        crate::idempotency::hex(a.push(b)) == crate::idempotency::hex(a) + seq![
            crate::json::hex_digit(b as nat / 16),
            crate::json::hex_digit(b as nat % 16),
        ],
        crate::idempotency::hex(Seq::empty()) == Seq::<char>::empty(),
{
    assert(a.push(b).drop_last() =~= a);
    assert(crate::idempotency::hex(a.push(b)) =~= crate::idempotency::hex(a) + seq![
        crate::json::hex_digit(b as nat / 16),
        crate::json::hex_digit(b as nat % 16),
    ]);
}

} // verus!
