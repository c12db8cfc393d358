//! What is said of a body that lost something on its way.

use vstd::prelude::*;
use vstd::string::*;

use crate::body_degrade::{
    cut_notes, degradation_text, degraded_body, is_protected, kept_items, label_of,
    protected_notes, protected_pair_notes, reasoning_notes, size_notes, slot_bytes, summary_of,
    survival_notes, text_slots, uncaptured_notes,
};
use crate::body_laws::{is_first_call, is_first_output, is_call, is_output, items_are_known_by_their_call};
use crate::body_validation::{
    all_signed_reasoning, bytes_of, find, lemma_find_from, lemma_find_unique, BodyDegradationKind,
    BodyDegradationView, BodyValidationSpecView, ProtectedPairExpectationView, Side,
};
use crate::byte_text::byte_len;
use crate::coverage_laws::places;
use crate::protocol::ResponseItemView;
use crate::text::{decimal, signed_decimal};

verus! {

// ---------------------------------------------------------------------------
// Reasoning
// ---------------------------------------------------------------------------

/// The signature that an item of reasoning bears.
pub open spec fn signature_of(item: ResponseItemView) -> Option<Seq<char>> {
    match item {
        ResponseItemView::Reasoning { encrypted_content: Some(s), .. } if s.len() > 0 => Some(s),
        _ => None,
    }
}

/// The reasoning that a body carries is all that is signed in it, in its order.
pub proof fn all_signatures_of_a_body_count(body: Seq<ResponseItemView>)
    ensures
        all_signed_reasoning(body) == body.filter(
            |x: ResponseItemView| signature_of(x) is Some,
        ).map_values(|x: ResponseItemView| signature_of(x)->0),
    decreases body.len(),
{
    reveal(Seq::filter);
    let p = |x: ResponseItemView| signature_of(x) is Some;
    let f = |x: ResponseItemView| signature_of(x)->0;
    if body.len() == 0 {
        assert(body.filter(p).map_values(f) =~= Seq::<Seq<char>>::empty());
    } else {
        let less = body.drop_last();
        all_signatures_of_a_body_count(less);
        let x = body.last();
        assert(crate::body_validation::signed_reasoning(x) == signature_of(x));
        if p(x) {
            assert(body.filter(p) =~= less.filter(p).push(x));
            assert(less.filter(p).push(x).map_values(f) =~= less.filter(p).map_values(f).push(f(x)));
        } else {
            assert(body.filter(p) =~= less.filter(p));
        }
    }
}

/// What is said of reasoning that was lost: which, and how long it was.
pub open spec fn lost_reasoning(required: Seq<Seq<char>>, k: int) -> BodyDegradationView {
    BodyDegradationView {
        kind: BodyDegradationKind::MissingEncryptedReasoning,
        detail: "required encrypted reasoning #"@ + decimal(k as nat) + " ("@ + decimal(
            byte_len(required[k]),
        ) + " bytes) did not survive materialization; omitted from the request"@,
    }
}

/// All required reasoning that a body does not carry is told, in its order, and
/// nothing that it carries.
pub proof fn lost_reasoning_is_told(present: Seq<Seq<char>>, required: Seq<Seq<char>>, n: nat)
    requires
        n <= required.len(),
    ensures
        reasoning_notes(present, required, n as int) == places(n).filter(
            |k: int| !present.contains(required[k]),
        ).map_values(|k: int| lost_reasoning(required, k)),
    decreases n,
{
    reveal(Seq::filter);
    let p = |k: int| !present.contains(required[k]);
    let f = |k: int| lost_reasoning(required, k);
    if n == 0 {
        assert(places(0).filter(p).map_values(f) =~= Seq::<BodyDegradationView>::empty());
    } else {
        let m = (n - 1) as nat;
        lost_reasoning_is_told(present, required, m);
        assert(places(n).drop_last() =~= places(m));
        assert(places(n).last() == n - 1);
        let before = places(m).filter(p);
        if p(n - 1) {
            assert(places(n).filter(p) =~= before.push(n - 1));
            assert(before.push(n - 1).map_values(f) =~= before.map_values(f).push(f(n - 1)));
        } else {
            assert(places(n).filter(p) =~= before);
        }
    }
}

// ---------------------------------------------------------------------------
// Protected pairs
// ---------------------------------------------------------------------------

/// What is said of a protected call of which nothing was captured.
pub open spec fn uncaptured(id: Seq<char>) -> BodyDegradationView {
    BodyDegradationView {
        kind: BodyDegradationKind::ProtectedExpectationMissing,
        detail: "live capture produced no byte expectation for protected call "@ + id
            + "; it cannot be proven, only carried"@,
    }
}

/// Some captured pair is of the call.
pub open spec fn has_pair(pairs: Seq<ProtectedPairExpectationView>, id: Seq<char>) -> bool {
    exists|k: int| 0 <= k < pairs.len() && (#[trigger] pairs[k]).call_id == id
}

/// Every protected call of which no pair was captured is told, in its order.
pub proof fn uncaptured_calls_are_told(
    pairs: Seq<ProtectedPairExpectationView>,
    ids: Seq<Seq<char>>,
    n: int,
)
    requires
        0 <= n <= ids.len(),
    ensures
        uncaptured_notes(pairs, ids, n) == ids.take(n).filter(
            |id: Seq<char>| !has_pair(pairs, id),
        ).map_values(|id: Seq<char>| uncaptured(id)),
    decreases n,
{
    reveal(Seq::filter);
    let p = |id: Seq<char>| !has_pair(pairs, id);
    let f = |id: Seq<char>| uncaptured(id);
    if n == 0 {
        assert(ids.take(0).filter(p).map_values(f) =~= Seq::<BodyDegradationView>::empty());
    } else {
        uncaptured_calls_are_told(pairs, ids, n - 1);
        assert(ids.take(n).drop_last() =~= ids.take(n - 1));
        let before = ids.take(n - 1).filter(p);
        let id = ids[n - 1];
        assert(p(id) == !crate::body_degrade::is_captured(pairs, id));
        if p(id) {
            assert(ids.take(n).filter(p) =~= before.push(id));
            assert(before.push(id).map_values(f) =~= before.map_values(f).push(f(id)));
        } else {
            assert(ids.take(n).filter(p) =~= before);
        }
    }
}

proof fn lemma_first_places(body: Seq<ResponseItemView>, id: Seq<char>, c: int, o: int)
    ensures
        is_first_call(body, id, c) ==> find(body, Side::Call, id) == c,
        is_first_output(body, id, o) ==> find(body, Side::Output, id) == o,
        find(body, Side::Call, id) < body.len() <==> exists|k: int|
            0 <= k < body.len() && is_call(#[trigger] body[k], id),
        find(body, Side::Output, id) < body.len() <==> exists|k: int|
            0 <= k < body.len() && is_output(#[trigger] body[k], id),
{
    lemma_find_from(body, Side::Call, id, 0);
    lemma_find_from(body, Side::Output, id, 0);
    assert forall|k: int| 0 <= k < body.len() implies (is_call(#[trigger] body[k], id)
        <==> crate::body_validation::tool_id(body[k], Side::Call) == Some(id)) && (is_output(
        body[k],
        id,
    ) <==> crate::body_validation::tool_id(body[k], Side::Output) == Some(id)) by {
        items_are_known_by_their_call(body[k], id);
    }
    if is_first_call(body, id, c) {
        lemma_find_unique(body, Side::Call, id, 0, c);
    }
    if is_first_output(body, id, o) {
        lemma_find_unique(body, Side::Output, id, 0, o);
    }
    let fc = find(body, Side::Call, id);
    let fo = find(body, Side::Output, id);
    if fc < body.len() {
        assert(is_call(body[fc], id));
    }
    if fo < body.len() {
        assert(is_output(body[fo], id));
    }
}

/// A protected pair that a body carries as it was live is not told. Where the body
/// carries it, each side that does not read as it did live is told.
pub proof fn changed_pairs_are_told(
    body: Seq<ResponseItemView>,
    pair: ProtectedPairExpectationView,
    c: int,
    o: int,
)
    requires
        is_first_call(body, pair.call_id, c),
        is_first_output(body, pair.call_id, o),
    ensures
        ({
            let notes = protected_pair_notes(body, pair);
            let other_call = bytes_of(body[c]) != pair.call_bytes;
            let other_output = bytes_of(body[o]) != pair.output_bytes;
            let of_call = BodyDegradationView {
                kind: BodyDegradationKind::ProtectedPairNotByteStable,
                detail: "protected call "@ + pair.call_id
                    + " is not the live provider-native item (LHC-reconstructed pair; same call_id and correlation, provider fields such as status/namespace may be absent)"@,
            };
            let of_output = BodyDegradationView {
                kind: BodyDegradationKind::ProtectedPairNotByteStable,
                detail: "protected output "@ + pair.call_id
                    + " is not the live provider-native item (LHC-reconstructed pair)"@,
            };
            &&& !other_call && !other_output ==> notes.len() == 0
            &&& other_call && !other_output ==> notes == seq![of_call]
            &&& !other_call && other_output ==> notes == seq![of_output]
            &&& other_call && other_output ==> notes == seq![of_call, of_output]
        }),
{
    lemma_first_places(body, pair.call_id, c, o);
}

/// A protected pair of which a body lacks a side is told, with which side it has.
pub proof fn missing_pairs_are_told(
    body: Seq<ResponseItemView>,
    pair: ProtectedPairExpectationView,
)
    ensures
        ({
            let called = exists|k: int|
                0 <= k < body.len() && is_call(#[trigger] body[k], pair.call_id);
            let answered = exists|k: int|
                0 <= k < body.len() && is_output(#[trigger] body[k], pair.call_id);
            !called || !answered ==> protected_pair_notes(body, pair) == seq![
                BodyDegradationView {
                    kind: BodyDegradationKind::ProtectedPairUnavailable,
                    detail: "protected pair "@ + pair.call_id
                        + " is not carried by the assembled body (call present: "@ + (if called {
                        "true"@
                    } else {
                        "false"@
                    }) + ", output present: "@ + (if answered {
                        "true"@
                    } else {
                        "false"@
                    }) + "); the next request goes without it"@,
                },
            ]
        }),
{
    lemma_first_places(body, pair.call_id, 0, 0);
}

/// Every protected pair is looked at, in its order.
pub proof fn every_pair_is_looked_at(
    body: Seq<ResponseItemView>,
    pairs: Seq<ProtectedPairExpectationView>,
    n: int,
)
    requires
        0 <= n <= pairs.len(),
    ensures
        protected_notes(body, pairs, n) == pairs.take(n).map_values(
            |p: ProtectedPairExpectationView| protected_pair_notes(body, p),
        ).flatten(),
    decreases n,
{
    let f = |p: ProtectedPairExpectationView| protected_pair_notes(body, p);
    let all = pairs.take(n).map_values(f);
    if n == 0 {
        assert(all.len() == 0);
        assert(protected_notes(body, pairs, n) =~= all.flatten());
    } else {
        every_pair_is_looked_at(body, pairs, n - 1);
        let before = pairs.take(n - 1).map_values(f);
        assert(all =~= before.push(f(pairs[n - 1])));
        before.lemma_flatten_push(f(pairs[n - 1]));
    }
}

/// All that is said of protected pairs, protected calls and required reasoning is
/// said of the items that are kept, whether the body is cut or not.
pub proof fn survival_is_told<F: Fn(&str) -> i64>(
    f: F,
    body: Seq<ResponseItemView>,
    spec: BodyValidationSpecView,
    i: int,
)
    ensures
        ({
            let kept = kept_items(body, body.len() as int);
            let told = protected_notes(
                kept,
                spec.protected_pairs,
                spec.protected_pairs.len() as int,
            ) + uncaptured_notes(
                spec.protected_pairs,
                spec.protected_tool_call_ids,
                spec.protected_tool_call_ids.len() as int,
            ) + reasoning_notes(
                all_signed_reasoning(kept),
                spec.required_encrypted_reasoning,
                spec.required_encrypted_reasoning.len() as int,
            );
            0 <= i < told.len() ==> degraded_body(f, body, spec).degradations.contains(told[i])
        }),
{
    let kept = kept_items(body, body.len() as int);
    let told = survival_notes(kept, spec);
    let n = body.len() as int;
    let first = crate::body_degrade::duplicate_notes(body, n) + crate::body_degrade::unpaired_notes(
        body,
        n,
    );
    let r = degraded_body(f, body, spec).degradations;
    if 0 <= i < told.len() {
        assert(r[first.len() + i] == told[i]);
    }
}

// ---------------------------------------------------------------------------
// Cuts
// ---------------------------------------------------------------------------

/// How many bytes of text an item lost.
pub open spec fn lost_bytes(before: ResponseItemView, after: ResponseItemView) -> int {
    slot_bytes(text_slots(before)) - slot_bytes(text_slots(after))
}

/// What is said of an item that was cut: which it is, where it stands, whether it
/// is protected, how much was cut and what for.
pub open spec fn told_cut(
    before: Seq<ResponseItemView>,
    after: Seq<ResponseItemView>,
    ids: Seq<Seq<char>>,
    threshold: i64,
    k: int,
) -> BodyDegradationView {
    BodyDegradationView {
        kind: BodyDegradationKind::TruncatedOversizedContent,
        detail: label_of(after[k]) + " at position "@ + decimal(k as nat) + (if is_protected(
            after[k],
            ids,
        ) {
            " (protected pair: nothing unprotected left to cut)"@
        } else {
            ""@
        }) + ": cut "@ + decimal(lost_bytes(before[k], after[k]) as nat)
            + " bytes to fit under threshold "@ + signed_decimal(threshold as int)
            + " (codex_materialized_body_o200k_estimate)"@,
    }
}

/// Every item that lost text is told, in its order, and no other.
pub proof fn every_cut_is_told(
    before: Seq<ResponseItemView>,
    after: Seq<ResponseItemView>,
    ids: Seq<Seq<char>>,
    threshold: i64,
    n: nat,
)
    ensures
        cut_notes(before, after, ids, threshold, n as int) == places(n).filter(
            |k: int| lost_bytes(before[k], after[k]) > 0,
        ).map_values(|k: int| told_cut(before, after, ids, threshold, k)),
    decreases n,
{
    reveal(Seq::filter);
    reveal_strlit(" (codex_materialized_body_o200k_estimate)");
    reveal_strlit("codex_materialized_body_o200k_estimate");
    reveal_strlit(" (");
    reveal_strlit(")");
    assert(" (codex_materialized_body_o200k_estimate)"@ =~= " ("@
        + "codex_materialized_body_o200k_estimate"@ + ")"@);
    let p = |k: int| lost_bytes(before[k], after[k]) > 0;
    let f = |k: int| told_cut(before, after, ids, threshold, k);
    if n == 0 {
        assert(places(0).filter(p).map_values(f) =~= Seq::<BodyDegradationView>::empty());
    } else {
        let m = (n - 1) as nat;
        every_cut_is_told(before, after, ids, threshold, m);
        assert(places(n).drop_last() =~= places(m));
        assert(places(n).last() == n - 1);
        let earlier = places(m).filter(p);
        if p(n - 1) {
            assert(places(n).filter(p) =~= earlier.push(n - 1));
            assert(earlier.push(n - 1).map_values(f) =~= earlier.map_values(f).push(f(n - 1)));
            let a = label_of(after[n - 1]) + " at position "@ + decimal((n - 1) as nat) + (
            if is_protected(after[n - 1], ids) {
                " (protected pair: nothing unprotected left to cut)"@
            } else {
                ""@
            }) + ": cut "@ + decimal(lost_bytes(before[n - 1], after[n - 1]) as nat)
                + " bytes to fit under threshold "@ + signed_decimal(threshold as int);
            assert(a + " ("@ + "codex_materialized_body_o200k_estimate"@ + ")"@ =~= a + (" ("@
                + "codex_materialized_body_o200k_estimate"@ + ")"@));
        } else {
            assert(places(n).filter(p) =~= earlier);
        }
    }
}

/// A body that stays too large is told to, with its size, its rounds and its
/// threshold; one that does not is not.
pub proof fn large_bodies_are_told(estimate: i64, rounds: nat, threshold: i64)
    ensures
        estimate < threshold ==> size_notes(estimate, rounds, threshold).len() == 0,
        estimate >= threshold ==> size_notes(estimate, rounds, threshold).len() == 1 && size_notes(
            estimate,
            rounds,
            threshold,
        )[0].kind == BodyDegradationKind::StillOverThreshold && crate::text::begins_with(
            size_notes(estimate, rounds, threshold)[0].detail,
            "body is "@ + signed_decimal(estimate as int) + " tokens after "@ + decimal(rounds)
                + " truncation rounds, threshold "@ + signed_decimal(threshold as int),
        ),
{
    if estimate >= threshold {
        let s = size_notes(estimate, rounds, threshold)[0].detail;
        let head = "body is "@ + signed_decimal(estimate as int) + " tokens after "@ + decimal(
            rounds,
        ) + " truncation rounds, threshold "@ + signed_decimal(threshold as int);
        assert(s.subrange(0, head.len() as int) =~= head);
    }
}

/// A summary spells out what was lost, kind and detail, up to a number, and tells
/// how much more there is.
pub proof fn summaries_spell_out_what_was_lost(list: Seq<BodyDegradationView>)
    ensures
        ({
            let told = if list.len() <= 24 {
                list
            } else {
                list.take(24)
            };
            let spelled = crate::text::joined(
                told.map_values(|d: BodyDegradationView| degradation_text(d)),
                "; "@,
            );
            &&& list.len() <= 24 ==> summary_of(list) == spelled
            &&& list.len() > 24 ==> summary_of(list) == spelled + "; (+"@ + decimal(
                (list.len() - 24) as nat,
            ) + " more)"@
        }),
{
    if list.len() > 24 {
        let told = list.take(24);
        let spelled = crate::text::joined(
            told.map_values(|d: BodyDegradationView| degradation_text(d)),
            "; "@,
        );
        let n = decimal((list.len() - 24) as nat);
        assert(spelled + ("; (+"@ + n + " more)"@) =~= spelled + "; (+"@ + n + " more)"@);
    }
}

/// An item is told of as the call or the output that it is, with the identity of
/// the call; a message by its role; reasoning as such.
pub proof fn items_are_labelled(item: ResponseItemView, id: Seq<char>)
    ensures
        is_call(item, id) ==> label_of(item) == "tool call "@ + id,
        is_output(item, id) ==> label_of(item) == "tool output "@ + id,
        item matches ResponseItemView::Message { role, .. } ==> label_of(item) == role
            + " message"@,
        item is Reasoning ==> label_of(item) == "reasoning"@,
{
    items_are_known_by_their_call(item, id);
}

} // verus!
