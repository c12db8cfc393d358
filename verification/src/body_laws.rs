//! What a body must be like to be sent, and what is taken down of a live history
//! before it is changed.

use vstd::prelude::*;
use vstd::string::*;

use crate::body_validation::{
    all_signed_reasoning, body_error, bytes_of, correlation_checks_are_exact, correlation_error,
    count, expected_pairs, expected_reasoning, find, find_from, first_protected_call, graft_report,
    grafted_body, is_correlated, lemma_find_from, lemma_find_unique, protected_pair_error,
    protected_pairs_error, tool_id, window_start, BodyValidationSpecView,
    ProtectedPairExpectationView, Side,
};
use crate::json::{json_text, Entries, JsonView};
use crate::protocol::{without_provenance, ResponseItem, ResponseItemView};
use crate::wire::{response_item_entries, tagged, Wire};

verus! {

// ---------------------------------------------------------------------------
// Calls and outputs
// ---------------------------------------------------------------------------

/// The item is call `id` that the client executes: of a function, of a custom
/// tool, of the shell, or of a search of tools on the client.
pub open spec fn is_call(item: ResponseItemView, id: Seq<char>) -> bool {
    ||| item matches ResponseItemView::FunctionCall { call_id, .. } && call_id == id
    ||| item matches ResponseItemView::CustomToolCall { call_id, .. } && call_id == id
    ||| item matches ResponseItemView::LocalShellCall { call_id, .. } && call_id == Some(id)
    ||| item matches ResponseItemView::ToolSearchCall { call_id, execution, .. } && call_id == Some(
        id,
    ) && execution == "client"@
}

/// The item is the output of call `id`.
pub open spec fn is_output(item: ResponseItemView, id: Seq<char>) -> bool {
    ||| item matches ResponseItemView::FunctionCallOutput { call_id, .. } && call_id == Some(id)
    ||| item matches ResponseItemView::CustomToolCallOutput { call_id, .. } && call_id == id
    ||| item matches ResponseItemView::ToolSearchOutput { call_id, .. } && call_id == Some(id)
}

/// A call is known by its own call id, whatever kind of call it is, and an output
/// by that of the call that it answers; nothing else is either.
pub proof fn items_are_known_by_their_call(item: ResponseItemView, id: Seq<char>)
    ensures
        tool_id(item, Side::Call) == Some(id) <==> is_call(item, id),
        tool_id(item, Side::Output) == Some(id) <==> is_output(item, id),
{
}

/// Every call is answered behind it, every output answers a call before it, and no
/// call is made and no output given twice.
pub open spec fn calls_are_answered(body: Seq<ResponseItemView>) -> bool {
    &&& forall|i: int, j: int, id: Seq<char>|
        0 <= i < j < body.len() && #[trigger] is_call(body[i], id) ==> !#[trigger] is_call(
            body[j],
            id,
        )
    &&& forall|i: int, j: int, id: Seq<char>|
        0 <= i < j < body.len() && #[trigger] is_output(body[i], id) ==> !#[trigger] is_output(
            body[j],
            id,
        )
    &&& forall|i: int, id: Seq<char>|
        0 <= i < body.len() && #[trigger] is_call(body[i], id) ==> exists|j: int|
            i < j < body.len() && is_output(#[trigger] body[j], id)
    &&& forall|i: int, id: Seq<char>|
        0 <= i < body.len() && #[trigger] is_output(body[i], id) ==> exists|j: int|
            0 <= j < i && is_call(#[trigger] body[j], id)
}

proof fn lemma_correlated_is_answered(body: Seq<ResponseItemView>)
    requires
        is_correlated(body),
    ensures
        calls_are_answered(body),
{
    assert forall|i: int, j: int, id: Seq<char>|
        0 <= i < j < body.len() && #[trigger] is_call(body[i], id) implies !#[trigger] is_call(
        body[j],
        id,
    ) by {
        items_are_known_by_their_call(body[i], id);
        items_are_known_by_their_call(body[j], id);
    }
    assert forall|i: int, j: int, id: Seq<char>|
        0 <= i < j < body.len() && #[trigger] is_output(body[i], id) implies !#[trigger] is_output(
        body[j],
        id,
    ) by {
        items_are_known_by_their_call(body[i], id);
        items_are_known_by_their_call(body[j], id);
    }
    assert forall|i: int, id: Seq<char>|
        0 <= i < body.len() && #[trigger] is_call(body[i], id) implies exists|j: int|
        i < j < body.len() && is_output(#[trigger] body[j], id) by {
        items_are_known_by_their_call(body[i], id);
        let j = find(body, Side::Output, id);
        lemma_find_from(body, Side::Output, id, 0);
        items_are_known_by_their_call(body[j], id);
        assert(is_output(body[j], id));
    }
    assert forall|i: int, id: Seq<char>|
        0 <= i < body.len() && #[trigger] is_output(body[i], id) implies exists|j: int|
        0 <= j < i && is_call(#[trigger] body[j], id) by {
        items_are_known_by_their_call(body[i], id);
        let j = find(body, Side::Call, id);
        lemma_find_from(body, Side::Call, id, 0);
        items_are_known_by_their_call(body[j], id);
        assert(is_call(body[j], id));
        assert(tool_id(body[j], Side::Call) == Some(id));
        assert(find(body, Side::Output, id) == i);
    }
}

proof fn lemma_answered_is_correlated(body: Seq<ResponseItemView>)
    requires
        calls_are_answered(body),
    ensures
        is_correlated(body),
{
    assert forall|i: int| 0 <= i < body.len() implies {
        &&& (tool_id(#[trigger] body[i], Side::Call) matches Some(id) ==> find(
            body,
            Side::Call,
            id,
        ) == i && i < find(body, Side::Output, id) < body.len())
        &&& (tool_id(body[i], Side::Output) matches Some(id) ==> find(body, Side::Output, id) == i
            && find(body, Side::Call, id) < body.len())
    } by {
        if let Some(id) = tool_id(body[i], Side::Call) {
            items_are_known_by_their_call(body[i], id);
            assert(is_call(body[i], id));
            assert forall|j: int| 0 <= j < i implies tool_id(#[trigger] body[j], Side::Call)
                != Some(id) by {
                items_are_known_by_their_call(body[j], id);
            }
            lemma_find_unique(body, Side::Call, id, 0, i);
            let o = choose|o: int| i < o < body.len() && is_output(#[trigger] body[o], id);
            items_are_known_by_their_call(body[o], id);
            assert forall|j: int| 0 <= j < o implies tool_id(#[trigger] body[j], Side::Output)
                != Some(id) by {
                items_are_known_by_their_call(body[j], id);
            }
            lemma_find_unique(body, Side::Output, id, 0, o);
        }
        if let Some(id) = tool_id(body[i], Side::Output) {
            items_are_known_by_their_call(body[i], id);
            assert(is_output(body[i], id));
            assert forall|j: int| 0 <= j < i implies tool_id(#[trigger] body[j], Side::Output)
                != Some(id) by {
                items_are_known_by_their_call(body[j], id);
            }
            lemma_find_unique(body, Side::Output, id, 0, i);
            let c = choose|c: int| 0 <= c < i && is_call(#[trigger] body[c], id);
            items_are_known_by_their_call(body[c], id);
            lemma_find_from(body, Side::Call, id, 0);
        }
    }
}

// ---------------------------------------------------------------------------
// Validation
// ---------------------------------------------------------------------------

/// The body holds the protected pair as it was taken down: the call, its output
/// behind it, and both to the letter.
pub open spec fn holds_pair(
    body: Seq<ResponseItemView>,
    pair: ProtectedPairExpectationView,
) -> bool {
    exists|c: int, o: int|
        #![trigger body[c], body[o]]
        0 <= c < o < body.len() && is_call(body[c], pair.call_id) && is_output(
            body[o],
            pair.call_id,
        ) && bytes_of(body[c]) == pair.call_bytes && bytes_of(body[o]) == pair.output_bytes
}

/// The body holds reasoning with this signature.
pub open spec fn holds_signed(body: Seq<ResponseItemView>, signed: Seq<char>) -> bool {
    signed.len() > 0 && exists|i: int|
        0 <= i < body.len() && (#[trigger] body[i] matches ResponseItemView::Reasoning {
            encrypted_content,
            ..
        } && encrypted_content == Some(signed))
}

/// All that a body must be like to be sent.
pub open spec fn is_sendable(
    body: Seq<ResponseItemView>,
    spec: BodyValidationSpecView,
    estimate: i64,
) -> bool {
    &&& calls_are_answered(body)
    &&& forall|k: int|
        0 <= k < spec.protected_pairs.len() ==> holds_pair(body, #[trigger] spec.protected_pairs[k])
    &&& spec.protected_tool_call_ids.len() <= spec.protected_pairs.len()
    &&& forall|k: int|
        0 <= k < spec.required_encrypted_reasoning.len() ==> holds_signed(
            body,
            #[trigger] spec.required_encrypted_reasoning[k],
        )
    &&& (spec.safe_runway_threshold_tokens matches Some(t) ==> estimate < t)
}

proof fn lemma_signed(body: Seq<ResponseItemView>, signed: Seq<char>)
    ensures
        all_signed_reasoning(body).contains(signed) <==> holds_signed(body, signed),
    decreases body.len(),
{
    let all = all_signed_reasoning(body);
    if body.len() > 0 {
        let front = body.drop_last();
        let before = all_signed_reasoning(front);
        lemma_signed(front, signed);
        if holds_signed(front, signed) {
            let i = choose|i: int|
                0 <= i < front.len() && (#[trigger] front[i] matches ResponseItemView::Reasoning {
                    encrypted_content,
                    ..
                } && encrypted_content == Some(signed));
            assert(body[i] == front[i]);
            let k = choose|k: int| 0 <= k < before.len() && before[k] == signed;
            assert(all[k] == signed);
        }
        if all.contains(signed) && !holds_signed(front, signed) {
            let k = choose|k: int| 0 <= k < all.len() && all[k] == signed;
            if k < before.len() {
                assert(before[k] == signed);
            } else {
                assert(body[body.len() - 1] == body.last());
            }
        }
        if holds_signed(body, signed) && !holds_signed(front, signed) {
            let i = choose|i: int|
                0 <= i < body.len() && (#[trigger] body[i] matches ResponseItemView::Reasoning {
                    encrypted_content,
                    ..
                } && encrypted_content == Some(signed));
            if i < front.len() {
                assert(front[i] == body[i]);
            } else {
                assert(all[all.len() - 1] == signed);
            }
        }
    }
}

proof fn lemma_pair(body: Seq<ResponseItemView>, pair: ProtectedPairExpectationView)
    requires
        calls_are_answered(body),
    ensures
        protected_pair_error(body, pair) is None <==> holds_pair(body, pair),
{
    let id = pair.call_id;
    let c = find(body, Side::Call, id);
    let o = find(body, Side::Output, id);
    lemma_find_from(body, Side::Call, id, 0);
    lemma_find_from(body, Side::Output, id, 0);
    if c < body.len() {
        items_are_known_by_their_call(body[c], id);
    }
    if o < body.len() {
        items_are_known_by_their_call(body[o], id);
    }
    if protected_pair_error(body, pair) is None {
        assert(body[c] == body[c] && body[o] == body[o]);
    }
    if holds_pair(body, pair) {
        let (p, q) = choose|p: int, q: int|
            #![trigger body[p], body[q]]
            0 <= p < q < body.len() && is_call(body[p], id) && is_output(body[q], id) && bytes_of(
                body[p],
            ) == pair.call_bytes && bytes_of(body[q]) == pair.output_bytes;
        items_are_known_by_their_call(body[p], id);
        items_are_known_by_their_call(body[q], id);
        assert(c <= p && o <= q);
        assert(is_call(body[c], id) && is_output(body[o], id));
        assert(c == p);
        assert(o == q);
    }
}

proof fn lemma_pairs(
    body: Seq<ResponseItemView>,
    pairs: Seq<ProtectedPairExpectationView>,
    k: int,
)
    requires
        calls_are_answered(body),
        0 <= k <= pairs.len(),
    ensures
        protected_pairs_error(body, pairs, k) is None <==> forall|i: int|
            k <= i < pairs.len() ==> holds_pair(body, #[trigger] pairs[i]),
    decreases pairs.len() - k,
{
    if k < pairs.len() {
        lemma_pairs(body, pairs, k + 1);
        lemma_pair(body, pairs[k]);
    }
}

/// A body is found valid exactly when it can be sent: its calls are answered, it
/// holds every protected pair as it was taken down and lacks none, all signed
/// reasoning survives in it, and it stays below the threshold where there is one.
pub proof fn valid_bodies_are_the_sendable_ones(
    body: Seq<ResponseItemView>,
    spec: BodyValidationSpecView,
    estimate: i64,
)
    ensures
        body_error(body, spec, estimate) is None <==> is_sendable(body, spec, estimate),
        correlation_error(body) is None <==> calls_are_answered(body),
{
    correlation_checks_are_exact(body);
    if is_correlated(body) {
        lemma_correlated_is_answered(body);
    }
    if calls_are_answered(body) {
        lemma_answered_is_correlated(body);
        lemma_pairs(body, spec.protected_pairs, 0);
        let required = spec.required_encrypted_reasoning;
        let present = all_signed_reasoning(body);
        assert forall|i: int| 0 <= i < required.len() implies present.contains(
            #[trigger] required[i],
        ) <==> holds_signed(body, required[i]) by {
            lemma_signed(body, required[i]);
        }
    }
}

/// A call of any kind with its output behind it can be sent; either alone cannot,
/// nor the output before the call. The failure names the call.
pub proof fn answered_call_can_be_sent(
    call: ResponseItemView,
    output: ResponseItemView,
    id: Seq<char>,
    spec: BodyValidationSpecView,
    estimate: i64,
)
    requires
        is_call(call, id),
        is_output(output, id),
        spec.protected_pairs.len() == 0,
        spec.protected_tool_call_ids.len() == 0,
        spec.required_encrypted_reasoning.len() == 0,
        spec.safe_runway_threshold_tokens is None,
    ensures
        body_error(seq![call, output], spec, estimate) is None,
        body_error(seq![call], spec, estimate) == Some("tool call without output for call_id "@ + id),
        body_error(seq![output], spec, estimate) == Some("orphan tool output for call_id "@ + id),
        body_error(seq![output, call], spec, estimate) == Some(
            "tool output precedes call for call_id "@ + id,
        ),
        body_error(seq![call, call, output], spec, estimate) == Some(
            "duplicate tool call for call_id "@ + id,
        ),
        body_error(seq![call, output, output], spec, estimate) == Some(
            "duplicate tool output for call_id "@ + id,
        ),
{
    items_are_known_by_their_call(call, id);
    items_are_known_by_their_call(output, id);
    assert(tool_id(call, Side::Output) is None);
    assert(tool_id(output, Side::Call) is None);
    reveal_with_fuel(find_from, 4);
    reveal_with_fuel(crate::body_validation::duplicate_error, 4);
    reveal_with_fuel(crate::body_validation::unpaired_error, 4);
    reveal_with_fuel(crate::body_validation::orphan_error, 4);
    reveal_with_fuel(protected_pairs_error, 2);
    let pair = seq![call, output];
    assert(pair[0] == call && pair[1] == output);
    let back = seq![output, call];
    assert(back[0] == output && back[1] == call);
    let calls = seq![call, call, output];
    assert(calls[0] == call && calls[1] == call && calls[2] == output);
    let outputs = seq![call, output, output];
    assert(outputs[0] == call && outputs[1] == output && outputs[2] == output);
    let one = seq![call];
    assert(one[0] == call);
    let other = seq![output];
    assert(other[0] == output);
}

// ---------------------------------------------------------------------------
// The letter of an item
// ---------------------------------------------------------------------------

/// The entry is what only the host knows of an item: its identity, and what is
/// passed through for it.
pub open spec fn is_provenance(named: (Seq<char>, JsonView)) -> bool {
    named.0 == "id"@ || named.0 == "internal_chat_message_metadata_passthrough"@
}

/// The entries without what only the host knows.
pub open spec fn without_what_the_host_knows(e: Entries) -> Entries {
    e.filter(|named: (Seq<char>, JsonView)| !is_provenance(named))
}

broadcast proof fn lemma_filter_push(e: Entries, last: (Seq<char>, JsonView))
    ensures
        #[trigger] without_what_the_host_knows(e.push(last)) == (if is_provenance(last) {
            without_what_the_host_knows(e)
        } else {
            without_what_the_host_knows(e).push(last)
        }),
{
    reveal(Seq::filter);
    assert(e.push(last).drop_last() =~= e);
}

/// The letter of an item is the notation of all that goes to the model: its image
/// without what only the host knows of it, everything else in its place.
#[verifier::rlimit(50)]
pub proof fn letter_is_all_that_goes_to_the_model(item: ResponseItemView)
    ensures
        bytes_of(item) == json_text(
            JsonView::Object(
                without_what_the_host_knows(ResponseItem::wire(item)->Object_0),
            ),
        ),
        ResponseItem::wire(without_provenance(item)) == JsonView::Object(
            without_what_the_host_knows(ResponseItem::wire(item)->Object_0),
        ),
{
    broadcast use lemma_filter_push;

    reveal_strlit("action");
    reveal_strlit("arguments");
    reveal_strlit("author");
    reveal_strlit("call_id");
    reveal_strlit("content");
    reveal_strlit("encrypted_content");
    reveal_strlit("encrypted_function_args");
    reveal_strlit("execution");
    reveal_strlit("id");
    reveal_strlit("input");
    reveal_strlit("internal_chat_message_metadata_passthrough");
    reveal_strlit("name");
    reveal_strlit("namespace");
    reveal_strlit("output");
    reveal_strlit("phase");
    reveal_strlit("recipient");
    reveal_strlit("result");
    reveal_strlit("revised_prompt");
    reveal_strlit("role");
    reveal_strlit("status");
    reveal_strlit("summary");
    reveal_strlit("tools");
    reveal_strlit("type");
    assert("action"@.len() == 6 && "arguments"@.len() == 9 && "author"@.len() == 6 && "call_id"@.len() == 7 && "content"@.len() == 7 && "encrypted_content"@.len() == 17 && "encrypted_function_args"@.len() == 23 && "execution"@.len() == 9 && "id"@.len() == 2 && "input"@.len() == 5 && "internal_chat_message_metadata_passthrough"@.len() == 42 && "name"@.len() == 4 && "namespace"@.len() == 9 && "output"@.len() == 6 && "phase"@.len() == 5 && "recipient"@.len() == 9 && "result"@.len() == 6 && "revised_prompt"@.len() == 14 && "role"@.len() == 4 && "status"@.len() == 6 && "summary"@.len() == 7 && "tools"@.len() == 5 && "type"@.len() == 4);
    let e = response_item_entries(item);
    let none = Seq::<(Seq<char>, JsonView)>::empty();
    assert(without_what_the_host_knows(none) =~= none) by {
        reveal(Seq::filter);
    }
    assert forall|tag: Seq<char>| #[trigger]
        without_what_the_host_knows(tagged(tag)) == tagged(tag) by {
        assert(tagged(tag) =~= none.push(("type"@, JsonView::Text(tag))));
    }
    assert(without_what_the_host_knows(e) == response_item_entries(without_provenance(item)));
}

// ---------------------------------------------------------------------------
// Expectations
// ---------------------------------------------------------------------------

/// Item `at` is the first that is call `id`.
pub open spec fn is_first_call(items: Seq<ResponseItemView>, id: Seq<char>, at: int) -> bool {
    &&& 0 <= at < items.len()
    &&& is_call(items[at], id)
    &&& forall|j: int| 0 <= j < at ==> !is_call(#[trigger] items[j], id)
}

/// Item `at` is the first that is the output of call `id`.
pub open spec fn is_first_output(items: Seq<ResponseItemView>, id: Seq<char>, at: int) -> bool {
    &&& 0 <= at < items.len()
    &&& is_output(items[at], id)
    &&& forall|j: int| 0 <= j < at ==> !is_output(#[trigger] items[j], id)
}

proof fn lemma_first(items: Seq<ResponseItemView>, id: Seq<char>)
    ensures
        find(items, Side::Call, id) < items.len() ==> is_first_call(
            items,
            id,
            find(items, Side::Call, id),
        ),
        find(items, Side::Call, id) >= items.len() ==> forall|j: int|
            0 <= j < items.len() ==> !is_call(#[trigger] items[j], id),
        find(items, Side::Output, id) < items.len() ==> is_first_output(
            items,
            id,
            find(items, Side::Output, id),
        ),
        find(items, Side::Output, id) >= items.len() ==> forall|j: int|
            0 <= j < items.len() ==> !is_output(#[trigger] items[j], id),
        0 <= find(items, Side::Call, id),
        0 <= find(items, Side::Output, id),
{
    lemma_find_from(items, Side::Call, id, 0);
    lemma_find_from(items, Side::Output, id, 0);
    assert forall|j: int| 0 <= j < items.len() implies {
        &&& tool_id(#[trigger] items[j], Side::Call) == Some(id) <==> is_call(items[j], id)
        &&& tool_id(items[j], Side::Output) == Some(id) <==> is_output(items[j], id)
    } by {
        items_are_known_by_their_call(items[j], id);
    }
}

/// Of a protected call that the live history holds with its output, both are taken
/// down to the letter; of one that it does not hold so, nothing.
pub proof fn protected_pair_is_taken_down(
    live: Seq<ResponseItemView>,
    id: Seq<char>,
    call: int,
    output: int,
)
    ensures
        is_first_call(live, id, call) && is_first_output(live, id, output) ==> expected_pairs(
            live,
            seq![id],
        ) == seq![
            ProtectedPairExpectationView {
                call_id: id,
                call_bytes: bytes_of(live[call]),
                output_bytes: bytes_of(live[output]),
            },
        ],
        (forall|j: int| 0 <= j < live.len() ==> !is_call(#[trigger] live[j], id)) || (forall|j: int|
            0 <= j < live.len() ==> !is_output(#[trigger] live[j], id)) ==> expected_pairs(
            live,
            seq![id],
        ).len() == 0,
{
    lemma_first(live, id);
    let ids = seq![id];
    assert(ids.drop_last() =~= Seq::<Seq<char>>::empty());
    assert(ids.last() == id);
    reveal_with_fuel(expected_pairs, 2);
    let c = find(live, Side::Call, id);
    let o = find(live, Side::Output, id);
    if is_first_call(live, id, call) && is_first_output(live, id, output) {
        assert(c == call) by {
            if c < call {
                assert(!is_call(live[c], id));
            }
            if call < c {
                assert(is_call(live[call], id));
            }
        }
        assert(o == output) by {
            if o < output {
                assert(!is_output(live[o], id));
            }
            if output < o {
                assert(is_output(live[output], id));
            }
        }
        assert(expected_pairs(live, ids) =~= seq![
            ProtectedPairExpectationView {
                call_id: id,
                call_bytes: bytes_of(live[call]),
                output_bytes: bytes_of(live[output]),
            },
        ]);
    }
}

/// Pairs are taken down one call after the other.
pub proof fn pairs_are_taken_down_in_order(
    live: Seq<ResponseItemView>,
    a: Seq<Seq<char>>,
    b: Seq<Seq<char>>,
)
    ensures
        expected_pairs(live, a + b) == expected_pairs(live, a) + expected_pairs(live, b),
    decreases b.len(),
{
    if b.len() == 0 {
        assert(a + b =~= a);
        assert(expected_pairs(live, a) + expected_pairs(live, b) =~= expected_pairs(live, a));
    } else {
        pairs_are_taken_down_in_order(live, a, b.drop_last());
        assert((a + b).drop_last() =~= a + b.drop_last());
        assert((a + b).last() == b.last());
        assert(expected_pairs(live, a + b) =~= expected_pairs(live, a) + expected_pairs(live, b));
    }
}

/// The item is what the model says without calling anything.
pub open spec fn is_prose(item: ResponseItemView) -> bool {
    ||| item is Reasoning
    ||| item matches ResponseItemView::Message { role, .. } && role == "assistant"@
}

/// The window of the model begins at `from`: with the prose before the first
/// protected call, which is at `first`.
pub open spec fn is_window(
    items: Seq<ResponseItemView>,
    ids: Seq<Seq<char>>,
    from: int,
    first: int,
) -> bool {
    &&& 0 <= from <= first <= items.len()
    &&& forall|j: int, k: int|
        0 <= j < first && 0 <= k < ids.len() ==> !is_call(#[trigger] items[j], #[trigger] ids[k])
    &&& first < items.len() ==> exists|k: int|
        0 <= k < ids.len() && is_call(items[first], #[trigger] ids[k])
    &&& forall|j: int| from <= j < first ==> is_prose(#[trigger] items[j])
    &&& from > 0 ==> !is_prose(items[from - 1])
}

proof fn lemma_first_protected(
    items: Seq<ResponseItemView>,
    ids: Seq<Seq<char>>,
    i: int,
    first: int,
)
    requires
        0 <= i <= first <= items.len(),
        forall|j: int, k: int|
            0 <= j < first && 0 <= k < ids.len() ==> !is_call(
                #[trigger] items[j],
                #[trigger] ids[k],
            ),
        first < items.len() ==> exists|k: int|
            0 <= k < ids.len() && is_call(items[first], #[trigger] ids[k]),
    ensures
        first_protected_call(items, ids, i) == first,
    decreases first - i,
{
    if i < first {
        if let Some(id) = tool_id(items[i], Side::Call) {
            items_are_known_by_their_call(items[i], id);
            if ids.contains(id) {
                let k = choose|k: int| 0 <= k < ids.len() && ids[k] == id;
                assert(!is_call(items[i], ids[k]));
            }
        }
        lemma_first_protected(items, ids, i + 1, first);
    } else if first < items.len() {
        let k = choose|k: int| 0 <= k < ids.len() && is_call(items[first], #[trigger] ids[k]);
        items_are_known_by_their_call(items[first], ids[k]);
        assert(ids.contains(ids[k]));
    }
}

proof fn lemma_window_start(items: Seq<ResponseItemView>, from: int, at: int)
    requires
        0 <= from <= at <= items.len(),
        forall|j: int| from <= j < at ==> is_prose(#[trigger] items[j]),
        from > 0 ==> !is_prose(items[from - 1]),
    ensures
        window_start(items, at) == from,
    decreases at - from,
{
    if from < at {
        assert(is_prose(items[at - 1]));
        lemma_window_start(items, from, at - 1);
    }
}

/// The signature of reasoning, where it has one.
pub open spec fn signature_of(item: ResponseItemView) -> Option<Seq<char>> {
    match item {
        ResponseItemView::Reasoning { encrypted_content: Some(signed), .. } => if signed.len()
            > 0 {
            Some(signed)
        } else {
            None
        },
        _ => None,
    }
}

proof fn lemma_all_signed(items: Seq<ResponseItemView>)
    ensures
        all_signed_reasoning(items) == items.filter_map(
            |item: ResponseItemView| signature_of(item),
        ),
    decreases items.len(),
{
    if items.len() > 0 {
        lemma_all_signed(items.drop_last());
        assert(all_signed_reasoning(items) =~= items.filter_map(
            |item: ResponseItemView| signature_of(item),
        ));
    }
}

/// Of the signed reasoning in the window of the model, and behind it, all is
/// expected to survive, in order; of what stands before the window, nothing.
pub proof fn window_reasoning_is_expected(
    items: Seq<ResponseItemView>,
    ids: Seq<Seq<char>>,
    from: int,
    first: int,
)
    requires
        is_window(items, ids, from, first),
    ensures
        expected_reasoning(items, ids) == items.skip(from).filter_map(
            |item: ResponseItemView| signature_of(item),
        ),
{
    lemma_first_protected(items, ids, 0, first);
    lemma_window_start(items, from, first);
    lemma_all_signed(items.skip(from));
}

// ---------------------------------------------------------------------------
// Grafting
// ---------------------------------------------------------------------------

/// Exactly one item is call `id`, and exactly one is its output.
pub open spec fn holds_pair_once(items: Seq<ResponseItemView>, id: Seq<char>) -> bool {
    &&& items.filter(|item: ResponseItemView| is_call(item, id)).len() == 1
    &&& items.filter(|item: ResponseItemView| is_output(item, id)).len() == 1
}

proof fn lemma_counts(items: Seq<ResponseItemView>, id: Seq<char>)
    ensures
        count(items, Side::Call, id) == items.filter(
            |item: ResponseItemView| is_call(item, id),
        ).len(),
        count(items, Side::Output, id) == items.filter(
            |item: ResponseItemView| is_output(item, id),
        ).len(),
    decreases items.len(),
{
    reveal(Seq::filter);
    if items.len() > 0 {
        lemma_counts(items.drop_last(), id);
        items_are_known_by_their_call(items.last(), id);
    }
}

proof fn lemma_same_counts(a: Seq<ResponseItemView>, b: Seq<ResponseItemView>, id: Seq<char>)
    requires
        crate::body_validation::same_tools(a, b),
    ensures
        count(a, Side::Call, id) == count(b, Side::Call, id),
        count(a, Side::Output, id) == count(b, Side::Output, id),
    decreases a.len(),
{
    if a.len() > 0 {
        let x = a.drop_last();
        let y = b.drop_last();
        assert forall|i: int|
            #![trigger x[i]]
            #![trigger y[i]]
            0 <= i < x.len() implies tool_id(x[i], Side::Call) == tool_id(y[i], Side::Call)
            && tool_id(x[i], Side::Output) == tool_id(y[i], Side::Output) by {
            assert(x[i] == a[i] && y[i] == b[i]);
        }
        lemma_same_counts(x, y, id);
        assert(a[a.len() - 1] == a.last() && b[b.len() - 1] == b.last());
    }
}

/// A protected pair is grafted exactly when the live history and the body each hold
/// it once; the report names those that were, in order.
pub proof fn pairs_that_stand_once_are_grafted(
    body: Seq<ResponseItemView>,
    live: Seq<ResponseItemView>,
    ids: Seq<Seq<char>>,
)
    ensures
        graft_report(body, live, ids).grafted == ids.filter(
            |id: Seq<char>| holds_pair_once(live, id) && holds_pair_once(body, id),
        ),
        graft_report(body, live, ids).degraded.len() == ids.filter(
            |id: Seq<char>| !(holds_pair_once(live, id) && holds_pair_once(body, id)),
        ).len(),
    decreases ids.len(),
{
    reveal(Seq::filter);
    if ids.len() > 0 {
        let before = grafted_body(body, live, ids.drop_last());
        let id = ids.last();
        pairs_that_stand_once_are_grafted(body, live, ids.drop_last());
        crate::body_validation::grafting_moves_nothing(body, live, ids.drop_last());
        lemma_same_counts(body, before, id);
        lemma_counts(body, id);
        lemma_counts(live, id);
    }
}

/// A graft puts the live call and the live output in the places of those in the
/// body, without what only the host knows of them.
pub proof fn graft_puts_the_live_pair_in_place(
    body: Seq<ResponseItemView>,
    live: Seq<ResponseItemView>,
    id: Seq<char>,
    call: int,
    output: int,
    live_call: int,
    live_output: int,
)
    requires
        holds_pair_once(live, id),
        holds_pair_once(body, id),
        0 <= call < body.len() && is_call(body[call], id),
        0 <= output < body.len() && is_output(body[output], id),
        0 <= live_call < live.len() && is_call(live[live_call], id),
        0 <= live_output < live.len() && is_output(live[live_output], id),
    ensures
        grafted_body(body, live, seq![id]) == body.update(
            call,
            without_provenance(live[live_call]),
        ).update(output, without_provenance(live[live_output])),
{
    lemma_counts(body, id);
    lemma_counts(live, id);
    lemma_only(body, id, call, output);
    lemma_only(live, id, live_call, live_output);
    let ids = seq![id];
    assert(ids.drop_last() =~= Seq::<Seq<char>>::empty());
    assert(ids.last() == id);
    reveal_with_fuel(grafted_body, 2);
}

proof fn lemma_only(items: Seq<ResponseItemView>, id: Seq<char>, call: int, output: int)
    requires
        count(items, Side::Call, id) == 1,
        count(items, Side::Output, id) == 1,
        0 <= call < items.len() && is_call(items[call], id),
        0 <= output < items.len() && is_output(items[output], id),
    ensures
        find(items, Side::Call, id) == call,
        find(items, Side::Output, id) == output,
{
    items_are_known_by_their_call(items[call], id);
    items_are_known_by_their_call(items[output], id);
    lemma_find_from(items, Side::Call, id, 0);
    lemma_find_from(items, Side::Output, id, 0);
    let c = find(items, Side::Call, id);
    let o = find(items, Side::Output, id);
    if c < call {
        lemma_two(items, Side::Call, id, c, call);
    }
    if o < output {
        lemma_two(items, Side::Output, id, o, output);
    }
}

proof fn lemma_two(items: Seq<ResponseItemView>, side: Side, id: Seq<char>, i: int, j: int)
    requires
        0 <= i < j < items.len(),
        tool_id(items[i], side) == Some(id),
        tool_id(items[j], side) == Some(id),
    ensures
        count(items, side, id) >= 2,
    decreases items.len(),
{
    let front = items.drop_last();
    if j < items.len() - 1 {
        lemma_two(front, side, id, i, j);
    } else {
        lemma_one(front, side, id, i);
    }
}

proof fn lemma_one(items: Seq<ResponseItemView>, side: Side, id: Seq<char>, i: int)
    requires
        0 <= i < items.len(),
        tool_id(items[i], side) == Some(id),
    ensures
        count(items, side, id) >= 1,
    decreases items.len(),
{
    if i < items.len() - 1 {
        lemma_one(items.drop_last(), side, id, i);
    }
}

/// Grafting leaves alone what is no side of a call that is grafted.
pub proof fn graft_leaves_the_rest_alone(
    body: Seq<ResponseItemView>,
    live: Seq<ResponseItemView>,
    ids: Seq<Seq<char>>,
    i: int,
)
    requires
        0 <= i < body.len(),
        forall|k: int|
            0 <= k < ids.len() ==> !is_call(body[i], #[trigger] ids[k]) && !is_output(
                body[i],
                ids[k],
            ),
    ensures
        grafted_body(body, live, ids).len() == body.len(),
        grafted_body(body, live, ids)[i] == body[i],
    decreases ids.len(),
{
    crate::body_validation::grafting_moves_nothing(body, live, ids);
    if ids.len() > 0 {
        let shorter = ids.drop_last();
        assert forall|k: int| 0 <= k < shorter.len() implies !is_call(body[i], #[trigger] shorter[k])
            && !is_output(body[i], shorter[k]) by {
            assert(shorter[k] == ids[k]);
        }
        graft_leaves_the_rest_alone(body, live, shorter, i);
        let before = grafted_body(body, live, shorter);
        let id = ids.last();
        assert(id == ids[ids.len() - 1]);
        lemma_first(before, id);
        crate::body_validation::lemma_count_find(before, Side::Call, id);
        crate::body_validation::lemma_count_find(before, Side::Output, id);
    }
}

} // verus!
