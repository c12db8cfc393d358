//! How the work goes on behind a compact in the middle of a turn.

use vstd::prelude::*;
use vstd::string::*;

use crate::compact_continuation::{
    calls_between, continuation_of, facts_of, first_id, has_result, last_calls, may_attempt,
    model_begin, model_end, outcome_of, pressure_of, recorded, settled_seam, usage_split,
    CompactContinuationHysteresisView, CompactContinuationRunResultView,
    MidTurnCompactContinuationRequestView, ProviderUsageAuthorityView, WorkContinuationView,
};
use crate::protocol::ResponseItemView;
use crate::records::TokenUsageView;
use crate::text::stands_before;

verus! {

// ---------------------------------------------------------------------------
// Figures
// ---------------------------------------------------------------------------

/// No less than nothing and no more than the most.
pub open spec fn within(n: int, most: int) -> int {
    if n < 0 {
        0
    } else if n > most {
        most
    } else {
        n
    }
}

/// A reported input is split into what was read from a cache, as far as the whole
/// goes, what was written to one, as far as the rest goes, and what is left.
pub proof fn reported_input_is_split(usage: TokenUsageView)
    ensures
        ({
            let s = usage_split(usage);
            let whole = within(usage.input_tokens as int, usage.input_tokens as int);
            &&& s.available
            &&& s.total == whole
            &&& s.cache_read_tokens == within(usage.cached_input_tokens as int, whole)
            &&& s.cache_creation_tokens == within(
                usage.cache_write_input_tokens as int,
                whole - s.cache_read_tokens,
            )
            &&& s.input_tokens == whole - s.cache_read_tokens - s.cache_creation_tokens
            &&& s.domain == "provider_reported_input"@
        }),
{
}

/// How large the next request will be is what was reported and the estimate of
/// what came behind, as far as a number goes; unknown where nothing was reported.
pub proof fn pressure_is_reported_and_estimated(usage: ProviderUsageAuthorityView, estimate: i64)
    ensures
        ({
            let more = if estimate < 0 {
                0
            } else {
                estimate as int
            };
            &&& usage is Unavailable ==> pressure_of(usage, estimate) is None
            &&& usage matches ProviderUsageAuthorityView::Available(a) ==> {
                &&& pressure_of(usage, estimate) is Some
                &&& a.total + more <= i64::MAX ==> pressure_of(usage, estimate)->0 == a.total + more
                &&& a.total + more > i64::MAX ==> pressure_of(usage, estimate)->0 == i64::MAX
            }
        }),
{
}

// ---------------------------------------------------------------------------
// Continuation
// ---------------------------------------------------------------------------

/// The item answers a call.
pub open spec fn answers(item: ResponseItemView, id: Seq<char>) -> bool {
    ||| item matches ResponseItemView::FunctionCallOutput { call_id: Some(c), .. } && c == id
    ||| item matches ResponseItemView::CustomToolCallOutput { call_id, .. } && call_id == id
}

/// Some item of a history answers a call.
pub open spec fn is_answered(items: Seq<ResponseItemView>, id: Seq<char>) -> bool {
    exists|k: int| 0 <= k < items.len() && answers(#[trigger] items[k], id)
}

proof fn lemma_answered(items: Seq<ResponseItemView>, id: Seq<char>)
    ensures
        is_answered(items, id) <==> has_result(items, id),
{
    if is_answered(items, id) {
        let k = choose|k: int| 0 <= k < items.len() && answers(#[trigger] items[k], id);
        assert(crate::compact_continuation::is_result_of(items[k], id));
    }
    if has_result(items, id) {
        let k = choose|k: int|
            0 <= k < items.len() && crate::compact_continuation::is_result_of(
                #[trigger] items[k],
                id,
            );
        assert(answers(items[k], id));
    }
}

/// Nothing goes on where nothing is to follow. Where the response called nothing,
/// the work goes on by itself. Else it goes on behind the result of the call that
/// stands first in order, and is in order when some call was answered.
pub proof fn work_goes_on_behind_its_calls(
    ids: Seq<Seq<char>>,
    items: Seq<ResponseItemView>,
    follow_up: bool,
)
    ensures
        ({
            let r = continuation_of(ids, items, follow_up);
            let some_call = exists|k: int| 0 <= k < ids.len() && (#[trigger] ids[k]).len() > 0;
            &&& r is Idle <==> !follow_up
            &&& r is ActiveNonTool <==> follow_up && !some_call
            &&& r is PendingCorrelatedToolResult <==> follow_up && some_call
            &&& r matches WorkContinuationView::PendingCorrelatedToolResult {
                tool_call_id,
                correlation_valid,
            } ==> {
                &&& tool_call_id.len() > 0
                &&& ids.contains(tool_call_id)
                &&& forall|k: int|
                    0 <= k < ids.len() && (#[trigger] ids[k]).len() > 0 ==> !stands_before(
                        ids[k],
                        tool_call_id,
                    )
                &&& correlation_valid <==> exists|k: int|
                    0 <= k < ids.len() && (#[trigger] ids[k]).len() > 0 && is_answered(
                        items,
                        ids[k],
                    )
            }
        }),
{
    let n = ids.len() as int;
    crate::compact_continuation::first_id_is_the_smallest(ids, items, false, n);
    crate::compact_continuation::first_id_is_the_smallest(ids, items, true, n);
    assert forall|k: int| 0 <= k < n implies (is_answered(items, #[trigger] ids[k]) <==> has_result(
        items,
        ids[k],
    )) by {
        lemma_answered(items, ids[k]);
    }
    if let Some(b) = first_id(ids, items, false, n) {
        let k = choose|k: int| 0 <= k < ids.len() && ids[k] == b;
        assert(ids[k].len() > 0);
    }
    if let Some(b) = first_id(ids, items, true, n) {
        let k = choose|k: int| 0 <= k < ids.len() && ids[k] == b;
        assert(ids[k].len() > 0);
        assert(is_answered(items, ids[k]));
    }
}

/// The model made the item: it says it, thinks it, calls it, or sums up in it.
pub open spec fn is_of_the_model(item: ResponseItemView) -> bool {
    match item {
        ResponseItemView::Message { role, .. } => role == "assistant"@,
        ResponseItemView::AgentMessage { .. } => false,
        ResponseItemView::FunctionCallOutput { .. } => false,
        ResponseItemView::CustomToolCallOutput { .. } => false,
        ResponseItemView::ToolSearchOutput { .. } => false,
        ResponseItemView::AdditionalTools { .. } => false,
        ResponseItemView::CompactionTrigger { .. } => false,
        ResponseItemView::Other => false,
        _ => true,
    }
}

/// The call that an item makes under a name, where it has one.
pub open spec fn calls(item: ResponseItemView) -> Option<Seq<char>> {
    match item {
        ResponseItemView::FunctionCall { call_id, .. } if call_id.len() > 0 => Some(call_id),
        ResponseItemView::CustomToolCall { call_id, .. } if call_id.len() > 0 => Some(call_id),
        ResponseItemView::LocalShellCall { call_id: Some(c), .. } if c.len() > 0 => Some(c),
        ResponseItemView::ToolSearchCall { call_id: Some(c), .. } if c.len() > 0 => Some(c),
        _ => None,
    }
}

/// The items `from` to `to` are the last run of items of the model.
pub open spec fn is_last_run(items: Seq<ResponseItemView>, from: int, to: int) -> bool {
    &&& 0 <= from < to <= items.len()
    &&& forall|k: int| from <= k < to ==> is_of_the_model(#[trigger] items[k])
    &&& forall|k: int| to <= k < items.len() ==> !is_of_the_model(#[trigger] items[k])
    &&& from > 0 ==> !is_of_the_model(items[from - 1])
}

proof fn lemma_model_end(items: Seq<ResponseItemView>, from: int, to: int, n: int)
    requires
        is_last_run(items, from, to),
        to <= n <= items.len(),
    ensures
        model_end(items, n) == to,
    decreases n,
{
    if n > to {
        assert(!is_of_the_model(items[n - 1]));
        lemma_model_end(items, from, to, n - 1);
    } else {
        assert(is_of_the_model(items[to - 1]));
    }
}

proof fn lemma_model_begin(items: Seq<ResponseItemView>, from: int, to: int, n: int)
    requires
        is_last_run(items, from, to),
        from <= n <= to,
    ensures
        model_begin(items, n) == from,
    decreases n,
{
    if n > from {
        assert(is_of_the_model(items[n - 1]));
        lemma_model_begin(items, from, to, n - 1);
    }
}

proof fn lemma_no_model_end(items: Seq<ResponseItemView>, n: int)
    requires
        0 <= n <= items.len(),
        forall|k: int| 0 <= k < items.len() ==> !is_of_the_model(#[trigger] items[k]),
    ensures
        model_end(items, n) == 0,
    decreases n,
{
    if n > 0 {
        assert(!is_of_the_model(items[n - 1]));
        lemma_no_model_end(items, n - 1);
    }
}

proof fn lemma_calls_between(items: Seq<ResponseItemView>, from: int, n: int)
    requires
        0 <= from <= n <= items.len(),
    ensures
        calls_between(items, from, n) == items.subrange(from, n).filter(
            |x: ResponseItemView| calls(x) is Some,
        ).map_values(|x: ResponseItemView| calls(x)->0),
    decreases n - from,
{
    reveal(Seq::filter);
    let p = |x: ResponseItemView| calls(x) is Some;
    let f = |x: ResponseItemView| calls(x)->0;
    if n == from {
        assert(items.subrange(from, n).filter(p).map_values(f) =~= Seq::<Seq<char>>::empty());
    } else {
        lemma_calls_between(items, from, n - 1);
        assert(items.subrange(from, n).drop_last() =~= items.subrange(from, n - 1));
        let before = items.subrange(from, n - 1).filter(p);
        if p(items[n - 1]) {
            assert(items.subrange(from, n).filter(p) =~= before.push(items[n - 1]));
            assert(before.push(items[n - 1]).map_values(f) =~= before.map_values(f).push(
                f(items[n - 1]),
            ));
        } else {
            assert(items.subrange(from, n).filter(p) =~= before);
        }
    }
}

/// The calls that count are those of the last run of items of the model, in their
/// order: all that have a name, and no other.
pub proof fn calls_of_the_last_run_count(items: Seq<ResponseItemView>, from: int, to: int)
    ensures
        is_last_run(items, from, to) ==> last_calls(items) == items.subrange(from, to).filter(
            |x: ResponseItemView| calls(x) is Some,
        ).map_values(|x: ResponseItemView| calls(x)->0),
        (forall|k: int| 0 <= k < items.len() ==> !is_of_the_model(#[trigger] items[k]))
            ==> last_calls(items).len() == 0,
{
    if is_last_run(items, from, to) {
        lemma_model_end(items, from, to, items.len() as int);
        lemma_model_begin(items, from, to, to);
        lemma_calls_between(items, from, to);
    }
    if forall|k: int| 0 <= k < items.len() ==> !is_of_the_model(#[trigger] items[k]) {
        lemma_no_model_end(items, items.len() as int);
    }
}

// ---------------------------------------------------------------------------
// Attempts
// ---------------------------------------------------------------------------

/// A turn is settled where its response is complete, its tools have answered and
/// no request is out; what the host knows of the rest is told as it is.
pub proof fn settled_turns_are_told(decision: i64, apply: i64, retry: bool, flushed: bool)
    ensures
        ({
            let s = settled_seam(decision, apply, retry, flushed);
            &&& s.model_response_complete
            &&& s.requested_tools_settled
            &&& s.before_next_provider_request
            &&& s.capture_flushed == flushed
            &&& s.inside_transport_retry == retry
            &&& s.input_epoch_at_decision == decision
            &&& s.input_epoch_at_apply == apply
        }),
{
}

/// What the host tells of an attempt is what it was asked with; figures below
/// nothing count as nothing.
pub proof fn facts_are_told_as_asked(req: MidTurnCompactContinuationRequestView)
    ensures
        ({
            let f = facts_of(req);
            let floor = |n: i64| if n < 0 {
                0i64
            } else {
                n
            };
            &&& f.attempt_id == req.attempt_id
            &&& f.seam == settled_seam(
                req.input_epoch_at_decision,
                req.input_epoch_at_apply,
                req.inside_transport_retry,
                req.capture_complete,
            )
            &&& f.provider_usage == req.provider_usage
            &&& f.post_measurement_estimate.tokens == floor(req.post_measurement_tokens)
            &&& f.policy.upper_trigger_tokens == floor(req.upper_trigger_tokens)
            &&& f.policy.lower_target_tokens == floor(req.lower_target_tokens)
            &&& f.continuation == req.continuation
            &&& f.writer_claim == req.writer_claim
            &&& f.capture_complete == req.capture_complete
            &&& f.provider_identity_valid == req.provider_identity_valid
            &&& f.single_open_turn == Some(true)
            &&& f.compact == req.compact
        }),
{
}

/// A view is installed where there is a receipt and it was decided to install one.
/// Something was reduced where one was installed and the outcome does not say
/// otherwise. The rest is told as the runtime told it.
pub proof fn outcomes_are_told(run: CompactContinuationRunResultView)
    ensures
        ({
            let o = outcome_of(run);
            let decided = exists|k: int|
                0 <= k < run.effects.len() && #[trigger] run.effects[k] == "install_serving_view"@;
            &&& o.installed <==> run.has_compact_receipt && decided
            &&& o.reduced <==> o.installed && run.outcome != "no_reduction"@ && run.outcome
                != "skip_seam"@ && run.outcome != "refuse"@ && run.outcome != "continue_normal"@
                && run.outcome != "normal_complete"@
            &&& o.next_provider_request_allowed == run.next_provider_request_allowed
            &&& o.outcome_kind == run.outcome
            &&& o.refuse_code == run.refuse_code
            &&& o.skip_code == run.skip_code
            &&& o.reason_code == run.reason_code
            &&& o.marker_persisted == run.marker_persisted
            &&& o.continuation_turn_id == run.continuation_turn_id
            &&& o.run == run
        }),
{
}

/// An attempt that truthfully reduced nothing holds later ones back until the
/// pressure has grown by the margin from where it was; one that reduced something
/// lets the next one through; any other leaves things as they are.
pub proof fn attempts_are_remembered(
    h: CompactContinuationHysteresisView,
    attempt_id: Seq<char>,
    pressure: i64,
    reduced: bool,
    outcome: Seq<char>,
    next: i64,
)
    requires
        i64::MIN <= pressure + h.growth_margin_tokens <= i64::MAX,
    ensures
        ({
            let r = recorded(h, attempt_id, pressure, reduced, outcome);
            let nothing = outcome == "no_reduction"@ || outcome == "terminal_no_reduction"@
                || outcome == "dry_relief_no_reduction"@;
            &&& reduced ==> may_attempt(r, next)
            &&& !reduced && nothing ==> (may_attempt(r, next) <==> next >= pressure
                + h.growth_margin_tokens)
            &&& !reduced && !nothing ==> r == h
            &&& reduced || nothing ==> r.last_attempt_id == attempt_id && r.last_pressure_tokens
                == pressure && r.last_outcome == outcome && r.last_reduced == reduced
            &&& r.growth_margin_tokens == h.growth_margin_tokens
        }),
{
}

} // verus!
