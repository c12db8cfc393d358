//! What a body that cannot be sent as it is loses, and what it never loses.

use vstd::prelude::*;
use vstd::string::*;
use vstd::utf8::{encode_utf8, is_char_boundary};

use crate::body_degrade::{
    degraded_body, duplicate_note, duplicate_notes, halved, halved_text, kept_bytes, kept_items,
    keeps, lemma_kept_bytes, lemma_victim, survival_notes, trimmed, truncatable_len, unpaired_note,
    unpaired_notes, victim, MAX_TRUNCATION_ROUNDS,
};
use crate::body_laws::{
    is_call, is_first_call, is_first_output, is_output, items_are_known_by_their_call,
};
use crate::body_validation::{
    body_estimate, duplicate_at, find, lemma_find_from, lemma_find_unique, tool_id,
    BodyDegradationKind, BodyDegradationView, BodyValidationSpecView, Side,
};
use crate::byte_text::{byte_len, head_of, lemma_head};
use crate::protocol::{
    ContentItemView, FunctionCallOutputBodyView, FunctionCallOutputContentItemView,
    FunctionCallOutputPayloadView, ResponseItemView,
};
use crate::text::{begins_with, decimal};

verus! {

// ---------------------------------------------------------------------------
// What is dropped
// ---------------------------------------------------------------------------

/// The item at `i` has its counterpart: a call its output behind it, an output its
/// call before it, each the first of its kind. What is neither has none to lack.
pub open spec fn is_paired(body: Seq<ResponseItemView>, i: int) -> bool {
    &&& forall|id: Seq<char>| #[trigger]
        is_call(body[i], id) ==> is_first_call(body, id, i) && exists|o: int|
            i < o && #[trigger] is_first_output(body, id, o)
    &&& forall|id: Seq<char>| #[trigger]
        is_output(body[i], id) ==> is_first_output(body, id, i) && exists|c: int|
            c < i && #[trigger] is_first_call(body, id, c)
}

proof fn lemma_first_call(body: Seq<ResponseItemView>, id: Seq<char>, at: int)
    requires
        0 <= at < body.len(),
    ensures
        is_first_call(body, id, at) <==> find(body, Side::Call, id) == at,
        is_first_output(body, id, at) <==> find(body, Side::Output, id) == at,
{
    lemma_find_from(body, Side::Call, id, 0);
    lemma_find_from(body, Side::Output, id, 0);
    assert forall|j: int| 0 <= j < body.len() implies {
        &&& tool_id(#[trigger] body[j], Side::Call) == Some(id) <==> is_call(body[j], id)
        &&& tool_id(body[j], Side::Output) == Some(id) <==> is_output(body[j], id)
    } by {
        items_are_known_by_their_call(body[j], id);
    }
    if is_first_call(body, id, at) {
        assert forall|j: int| 0 <= j < at implies tool_id(#[trigger] body[j], Side::Call) != Some(
            id,
        ) by {
            assert(!is_call(body[j], id));
        }
        lemma_find_unique(body, Side::Call, id, 0, at);
    }
    if is_first_output(body, id, at) {
        assert forall|j: int| 0 <= j < at implies tool_id(#[trigger] body[j], Side::Output) != Some(
            id,
        ) by {
            assert(!is_output(body[j], id));
        }
        lemma_find_unique(body, Side::Output, id, 0, at);
    }
}

proof fn lemma_keeps(body: Seq<ResponseItemView>, i: int)
    requires
        0 <= i < body.len(),
    ensures
        keeps(body, i) <==> is_paired(body, i),
{
    assert forall|id: Seq<char>| {
        &&& #[trigger] is_call(body[i], id) <==> tool_id(body[i], Side::Call) == Some(id)
        &&& is_output(body[i], id) <==> tool_id(body[i], Side::Output) == Some(id)
    } by {
        items_are_known_by_their_call(body[i], id);
    }
    assert forall|id: Seq<char>| #[trigger]
        is_output(body[i], id) <==> tool_id(body[i], Side::Output) == Some(id) by {
        items_are_known_by_their_call(body[i], id);
    }
    crate::body_validation::lemma_one_side(body[i]);
    if let Some(id) = tool_id(body[i], Side::Call) {
        assert(is_call(body[i], id));
        lemma_first_call(body, id, i);
        let o = find(body, Side::Output, id);
        lemma_find_from(body, Side::Output, id, 0);
        if i < o < body.len() {
            lemma_first_call(body, id, o);
        }
        if exists|o: int| i < o && #[trigger] is_first_output(body, id, o) {
            let p = choose|p: int| i < p && #[trigger] is_first_output(body, id, p);
            lemma_first_call(body, id, p);
        }
    }
    if let Some(id) = tool_id(body[i], Side::Output) {
        assert(is_output(body[i], id));
        lemma_first_call(body, id, i);
        let c = find(body, Side::Call, id);
        lemma_find_from(body, Side::Call, id, 0);
        if c < i {
            lemma_first_call(body, id, c);
        }
        if exists|c: int| c < i && #[trigger] is_first_call(body, id, c) {
            let p = choose|p: int| p < i && #[trigger] is_first_call(body, id, p);
            lemma_first_call(body, id, p);
        }
    }
}

proof fn lemma_kept_items(body: Seq<ResponseItemView>, n: int)
    requires
        0 <= n <= body.len(),
    ensures
        kept_items(body, n) == Seq::new(
            body.len(),
            |i: int| (is_paired(body, i), body[i]),
        ).take(n).filter(|p: (bool, ResponseItemView)| p.0).map_values(
            |p: (bool, ResponseItemView)| p.1,
        ),
    decreases n,
{
    let all = Seq::new(body.len(), |i: int| (is_paired(body, i), body[i]));
    let keep = |p: (bool, ResponseItemView)| p.0;
    let item = |p: (bool, ResponseItemView)| p.1;
    reveal(Seq::filter);
    if n == 0 {
        assert(all.take(0).filter(keep).map_values(item) =~= Seq::<ResponseItemView>::empty());
    } else {
        lemma_kept_items(body, n - 1);
        lemma_keeps(body, n - 1);
        assert(all.take(n).drop_last() =~= all.take(n - 1));
        assert(all.take(n).last() == all[n - 1]);
        let before = all.take(n - 1).filter(keep);
        assert(before.push(all[n - 1]).map_values(item) =~= before.map_values(item).push(
            all[n - 1].1,
        ));
    }
}

/// Only calls without their output and outputs without their call are dropped, and
/// repetitions: everything else stays, in order. Without a threshold it stays as it
/// is; with one it stays in its place.
pub proof fn only_what_lacks_its_pair_is_dropped<F: Fn(&str) -> i64>(
    f: F,
    body: Seq<ResponseItemView>,
    spec: BodyValidationSpecView,
)
    ensures
        ({
            let r = degraded_body(f, body, spec);
            let rest = Seq::new(body.len(), |i: int| (is_paired(body, i), body[i])).filter(
                |p: (bool, ResponseItemView)| p.0,
            ).map_values(|p: (bool, ResponseItemView)| p.1);
            &&& r.kept.len() == body.len()
            &&& forall|i: int| 0 <= i < body.len() ==> (#[trigger] r.kept[i] <==> is_paired(body, i))
            &&& spec.safe_runway_threshold_tokens is None ==> r.body == rest
            &&& spec.safe_runway_threshold_tokens matches Some(t) ==> r.body.len() == rest.len()
                && (body_estimate(f, rest) < t ==> r.body == rest)
        }),
{
    let n = body.len() as int;
    let r = degraded_body(f, body, spec);
    lemma_kept_items(body, n);
    let all = Seq::new(body.len(), |i: int| (is_paired(body, i), body[i]));
    assert(all.take(n) =~= all);
    assert forall|i: int| 0 <= i < body.len() implies (#[trigger] r.kept[i] <==> is_paired(
        body,
        i,
    )) by {
        lemma_keeps(body, i);
    }
    if let Some(t) = spec.safe_runway_threshold_tokens {
        crate::body_degrade::cutting_moves_nothing(
            f,
            kept_items(body, n),
            spec.protected_tool_call_ids,
            t,
            MAX_TRUNCATION_ROUNDS as nat,
        );
    }
}

// ---------------------------------------------------------------------------
// What is cut
// ---------------------------------------------------------------------------

/// The mark behind a text that was cut.
pub open spec fn cut_mark() -> Seq<char> {
    "\n[lhc-compact: content truncated to fit the request]"@
}

/// A text is cut only when it is longer than 512 bytes. What is left of it is a
/// beginning of it, with a mark behind that says so; and it is the longest beginning
/// that leaves, with the mark, half of the bytes.
pub proof fn cut_text_is_a_beginning_with_a_mark(s: Seq<char>)
    ensures
        byte_len(s) <= 512 ==> halved_text(s) == s,
        byte_len(s) > 512 ==> exists|left: Seq<char>| #[trigger]
            begins_with(s, left) && halved_text(s) == left + cut_mark() && byte_len(left)
                + byte_len(cut_mark()) <= byte_len(s) / 2 && forall|b: int|
                byte_len(left) < b && b + byte_len(cut_mark()) <= byte_len(s) / 2
                    ==> !#[trigger] is_char_boundary(encode_utf8(s), b),
{
    if byte_len(s) > 512 {
        lemma_kept_bytes(s);
        lemma_head(s, kept_bytes(s));
        let left = head_of(s, kept_bytes(s));
        assert(begins_with(s, left));
        assert(halved_text(s) == left + cut_mark());
    }
}

/// The part is the other with its text cut; what is no text is left alone.
pub open spec fn part_is_cut(before: ContentItemView, after: ContentItemView) -> bool {
    match before {
        ContentItemView::InputText { text } => after == (ContentItemView::InputText {
            text: halved_text(text),
        }),
        ContentItemView::OutputText { text } => after == (ContentItemView::OutputText {
            text: halved_text(text),
        }),
        _ => after == before,
    }
}

/// The output is the other with its texts cut.
pub open spec fn output_is_cut(
    before: FunctionCallOutputPayloadView,
    after: FunctionCallOutputPayloadView,
) -> bool {
    &&& after.success == before.success
    &&& match before.body {
        FunctionCallOutputBodyView::Text(s) => after.body == FunctionCallOutputBodyView::Text(
            halved_text(s),
        ),
        FunctionCallOutputBodyView::ContentItems(parts) => {
            &&& after.body is ContentItems
            &&& after.body->ContentItems_0.len() == parts.len()
            &&& forall|i: int|
                0 <= i < parts.len() ==> (match #[trigger] parts[i] {
                    FunctionCallOutputContentItemView::InputText { text } =>
                        after.body->ContentItems_0[i]
                        == (FunctionCallOutputContentItemView::InputText {
                        text: halved_text(text),
                    }),
                    _ => after.body->ContentItems_0[i] == parts[i],
                })
        },
    }
}

/// Cutting an item cuts the free texts of messages and outputs, and touches nothing
/// else: not who speaks, not which call is answered, not whether it succeeded, and
/// never a call or reasoning.
pub proof fn cutting_touches_only_free_text(item: ResponseItemView)
    ensures
        match item {
            ResponseItemView::Message {
                id,
                role,
                content,
                phase,
                internal_chat_message_metadata_passthrough,
            } => {
                let after = halved(item);
                &&& after is Message
                &&& after == (ResponseItemView::Message {
                    id,
                    role,
                    content: after->Message_content,
                    phase,
                    internal_chat_message_metadata_passthrough,
                })
                &&& after->Message_content.len() == content.len()
                &&& forall|i: int|
                    0 <= i < content.len() ==> part_is_cut(
                        #[trigger] content[i],
                        after->Message_content[i],
                    )
            },
            ResponseItemView::FunctionCallOutput {
                id,
                call_id,
                name,
                namespace,
                output,
                internal_chat_message_metadata_passthrough,
            } => {
                let after = halved(item);
                &&& after == (ResponseItemView::FunctionCallOutput {
                    id,
                    call_id,
                    name,
                    namespace,
                    output: after->FunctionCallOutput_output,
                    internal_chat_message_metadata_passthrough,
                })
                &&& output_is_cut(output, after->FunctionCallOutput_output)
            },
            ResponseItemView::CustomToolCallOutput {
                id,
                call_id,
                name,
                output,
                internal_chat_message_metadata_passthrough,
            } => {
                let after = halved(item);
                &&& after == (ResponseItemView::CustomToolCallOutput {
                    id,
                    call_id,
                    name,
                    output: after->CustomToolCallOutput_output,
                    internal_chat_message_metadata_passthrough,
                })
                &&& output_is_cut(output, after->CustomToolCallOutput_output)
            },
            _ => halved(item) == item,
        },
{
}

/// The item was cut some number of times.
pub open spec fn cut_times(item: ResponseItemView, times: nat) -> ResponseItemView
    decreases times,
{
    if times == 0 {
        item
    } else {
        halved(cut_times(item, (times - 1) as nat))
    }
}

proof fn lemma_cut_again(item: ResponseItemView, times: nat)
    ensures
        cut_times(halved(item), times) == cut_times(item, times + 1),
    decreases times,
{
    reveal_with_fuel(cut_times, 2);
    if times > 0 {
        lemma_cut_again(item, (times - 1) as nat);
    }
}

/// Every item of a body that was cut is the item that stood there, cut some number
/// of times; one that holds no long text is as it was.
pub proof fn body_is_only_cut<F: Fn(&str) -> i64>(
    f: F,
    body: Seq<ResponseItemView>,
    ids: Seq<Seq<char>>,
    threshold: i64,
    rounds: nat,
    i: int,
)
    requires
        0 <= i < body.len(),
    ensures
        trimmed(f, body, ids, threshold, rounds).body.len() == body.len(),
        exists|times: nat|
            trimmed(f, body, ids, threshold, rounds).body[i] == #[trigger] cut_times(
                body[i],
                times,
            ),
        truncatable_len(body[i]) == 0 ==> trimmed(f, body, ids, threshold, rounds).body[i]
            == body[i],
        body_estimate(f, body) < threshold ==> trimmed(f, body, ids, threshold, rounds).body
            == body,
    decreases rounds,
{
    let last = trimmed(f, body, ids, threshold, rounds).body;
    if body_estimate(f, body) < threshold || rounds == 0 {
        assert(last[i] == cut_times(body[i], 0));
    } else {
        lemma_victim(body, ids, body.len() as int);
        match victim(body, ids, body.len() as int) {
            None => {
                assert(last[i] == cut_times(body[i], 0));
            },
            Some(k) => {
                let cut = body.update(k, halved(body[k]));
                body_is_only_cut(f, cut, ids, threshold, (rounds - 1) as nat, i);
                let times = choose|times: nat| last[i] == #[trigger] cut_times(cut[i], times);
                if i == k {
                    lemma_cut_again(body[i], times);
                    assert(last[i] == cut_times(body[i], times + 1));
                } else {
                    assert(cut[i] == body[i]);
                    assert(last[i] == cut_times(body[i], times));
                }
            },
        }
    }
}

// ---------------------------------------------------------------------------
// What is told
// ---------------------------------------------------------------------------

/// One thing of this kind is told in these words.
pub open spec fn is_told(
    told: Seq<BodyDegradationView>,
    kind: BodyDegradationKind,
    detail: Seq<char>,
) -> bool {
    told.contains(BodyDegradationView { kind, detail })
}

proof fn lemma_duplicate_told(body: Seq<ResponseItemView>, n: int, i: int, side: Side)
    requires
        0 <= i < n <= body.len(),
        duplicate_at(body, i, side),
    ensures
        duplicate_notes(body, n).contains(duplicate_note(body, i, side)),
    decreases n,
{
    let notes = duplicate_notes(body, n);
    let before = duplicate_notes(body, n - 1);
    crate::body_validation::lemma_one_side(body[i]);
    if i == n - 1 {
        assert(notes[before.len() as int] == duplicate_note(body, i, side));
    } else {
        lemma_duplicate_told(body, n - 1, i, side);
        let k = choose|k: int| 0 <= k < before.len() && before[k] == duplicate_note(body, i, side);
        assert(notes[k] == before[k]);
    }
}

proof fn lemma_unpaired_told(body: Seq<ResponseItemView>, n: int, i: int)
    requires
        0 <= i < n <= body.len(),
        !duplicate_at(body, i, Side::Call),
        !duplicate_at(body, i, Side::Output),
        unpaired_note(body, i) is Some,
    ensures
        unpaired_notes(body, n).contains(unpaired_note(body, i)->0),
    decreases n,
{
    let notes = unpaired_notes(body, n);
    let before = unpaired_notes(body, n - 1);
    if i == n - 1 {
        assert(notes[before.len() as int] == unpaired_note(body, i)->0);
    } else {
        lemma_unpaired_told(body, n - 1, i);
        let k = choose|k: int| 0 <= k < before.len() && before[k] == unpaired_note(body, i)->0;
        assert(notes[k] == before[k]);
    }
}

proof fn lemma_told_first<F: Fn(&str) -> i64>(
    f: F,
    body: Seq<ResponseItemView>,
    spec: BodyValidationSpecView,
    d: BodyDegradationView,
)
    requires
        duplicate_notes(body, body.len() as int).contains(d) || unpaired_notes(
            body,
            body.len() as int,
        ).contains(d) || survival_notes(kept_items(body, body.len() as int), spec).contains(d),
    ensures
        degraded_body(f, body, spec).degradations.contains(d),
{
    let n = body.len() as int;
    let a = duplicate_notes(body, n);
    let b = unpaired_notes(body, n);
    let c = survival_notes(kept_items(body, n), spec);
    let all = degraded_body(f, body, spec).degradations;
    if a.contains(d) {
        let k = choose|k: int| 0 <= k < a.len() && a[k] == d;
        assert(all[k] == d);
    } else if b.contains(d) {
        let k = choose|k: int| 0 <= k < b.len() && b[k] == d;
        assert(all[a.len() + k] == d);
    } else {
        let k = choose|k: int| 0 <= k < c.len() && c[k] == d;
        assert(all[a.len() + b.len() + k] == d);
    }
}

/// A call or an output that is dropped as a repetition is told: where it stood, and
/// where the one stands that is kept.
pub proof fn dropped_repetitions_are_told<F: Fn(&str) -> i64>(
    f: F,
    body: Seq<ResponseItemView>,
    spec: BodyValidationSpecView,
    id: Seq<char>,
    i: int,
    first: int,
)
    requires
        0 <= first < i < body.len(),
    ensures
        is_call(body[i], id) && is_first_call(body, id, first) ==> is_told(
            degraded_body(f, body, spec).degradations,
            BodyDegradationKind::DroppedDuplicate,
            "duplicate tool call for call_id "@ + id + " at position "@ + decimal(i as nat)
                + " (kept position "@ + decimal(first as nat) + ")"@,
        ),
        is_output(body[i], id) && is_first_output(body, id, first) ==> is_told(
            degraded_body(f, body, spec).degradations,
            BodyDegradationKind::DroppedDuplicate,
            "duplicate tool output for call_id "@ + id + " at position "@ + decimal(i as nat)
                + " (kept position "@ + decimal(first as nat) + ")"@,
        ),
{
    items_are_known_by_their_call(body[i], id);
    lemma_first_call(body, id, first);
    if is_call(body[i], id) && is_first_call(body, id, first) {
        lemma_duplicate_told(body, body.len() as int, i, Side::Call);
        lemma_told_first(f, body, spec, duplicate_note(body, i, Side::Call));
    }
    if is_output(body[i], id) && is_first_output(body, id, first) {
        lemma_duplicate_told(body, body.len() as int, i, Side::Output);
        lemma_told_first(f, body, spec, duplicate_note(body, i, Side::Output));
    }
}

/// A call that is dropped because nothing answers it, or because its output stands
/// before it, is told, and so is an output that is dropped because it answers
/// nothing.
pub proof fn dropped_halves_are_told<F: Fn(&str) -> i64>(
    f: F,
    body: Seq<ResponseItemView>,
    spec: BodyValidationSpecView,
    id: Seq<char>,
    i: int,
    output: int,
)
    requires
        0 <= i < body.len(),
    ensures
        is_first_call(body, id, i) && (forall|j: int|
            0 <= j < body.len() ==> !is_output(#[trigger] body[j], id)) ==> is_told(
            degraded_body(f, body, spec).degradations,
            BodyDegradationKind::DroppedUnpairedToolCall,
            "tool call "@ + id + " at position "@ + decimal(i as nat)
                + " has no output in the assembled body; dropped the call"@,
        ),
        is_first_call(body, id, i) && is_first_output(body, id, output) && output < i ==> is_told(
            degraded_body(f, body, spec).degradations,
            BodyDegradationKind::DroppedUnpairedToolCall,
            "tool output for call_id "@ + id + " precedes its call (output "@ + decimal(
                output as nat,
            ) + ", call "@ + decimal(i as nat) + "); dropped both sides"@,
        ),
        is_first_output(body, id, i) && (forall|j: int|
            0 <= j < body.len() ==> !is_call(#[trigger] body[j], id)) ==> is_told(
            degraded_body(f, body, spec).degradations,
            BodyDegradationKind::DroppedOrphanToolOutput,
            "tool output for call_id "@ + id + " at position "@ + decimal(i as nat)
                + " has no call in the assembled body"@,
        ),
{
    items_are_known_by_their_call(body[i], id);
    lemma_first_call(body, id, i);
    lemma_find_from(body, Side::Call, id, 0);
    lemma_find_from(body, Side::Output, id, 0);
    crate::body_validation::lemma_one_side(body[i]);
    let c = find(body, Side::Call, id);
    let o = find(body, Side::Output, id);
    if c < body.len() {
        items_are_known_by_their_call(body[c], id);
    }
    if o < body.len() {
        items_are_known_by_their_call(body[o], id);
    }
    if is_first_call(body, id, i) {
        if o >= body.len() || o < i {
            lemma_unpaired_told(body, body.len() as int, i);
            lemma_told_first(f, body, spec, unpaired_note(body, i)->0);
        }
        if is_first_output(body, id, output) {
            lemma_first_call(body, id, output);
        }
    }
    if is_first_output(body, id, i) && c >= body.len() {
        lemma_unpaired_told(body, body.len() as int, i);
        lemma_told_first(f, body, spec, unpaired_note(body, i)->0);
    }
}

} // verus!
