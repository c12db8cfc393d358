//! What the told figures add up to.

use vstd::prelude::*;

use crate::records::{MessageRecordView, TokenUsageView};
use crate::usage::{usage_at, usage_counts, usage_index, used_up_to};

verus! {

/// The message reports what it used, and its turn was not taken back.
pub open spec fn is_counted(m: MessageRecordView, excluded: Seq<Seq<char>>) -> bool {
    m.provider_usage is Some && forall|i: int|
        0 <= i < excluded.len() ==> #[trigger] excluded[i] != m.turn_id
}

/// The message at `j` stands before the one at `k`, or is it.
pub open spec fn is_up_to(messages: Seq<MessageRecordView>, j: int, k: int) -> bool {
    let a = messages[j].source_event_order;
    let b = messages[k].source_event_order;
    a < b || (a == b && j <= k)
}

/// The figures that are told for `id` are those of message `k`: of the messages
/// of that name that count, the latest.
pub open spec fn is_told_for(
    messages: Seq<MessageRecordView>,
    excluded: Seq<Seq<char>>,
    id: Seq<char>,
    k: int,
) -> bool {
    &&& 0 <= k < messages.len()
    &&& messages[k].message_id == id
    &&& is_counted(messages[k], excluded)
    &&& forall|j: int|
        0 <= j < messages.len() && (#[trigger] messages[j]).message_id == id && is_counted(
            messages[j],
            excluded,
        ) ==> is_up_to(messages, j, k)
}

/// One figure of all that counts among the first `n` messages, up to message `k`.
pub open spec fn added_up(
    messages: Seq<MessageRecordView>,
    excluded: Seq<Seq<char>>,
    k: int,
    n: nat,
    figure: spec_fn(TokenUsageView) -> int,
) -> int
    decreases n,
{
    if n == 0 {
        0
    } else {
        let m = messages[n - 1];
        added_up(messages, excluded, k, (n - 1) as nat, figure) + (if is_counted(m, excluded)
            && is_up_to(messages, n - 1, k) {
            figure(m.provider_usage->0)
        } else {
            0
        })
    }
}

/// Budget units that a message reports, where it reports them.
pub open spec fn budget(u: TokenUsageView) -> int {
    match u.codex_rollout_budget_units {
        Some(b) => b as int,
        None => 0,
    }
}

proof fn lemma_counted(m: MessageRecordView, excluded: Seq<Seq<char>>)
    ensures
        is_counted(m, excluded) == usage_counts(m, excluded),
{
}

proof fn lemma_added_up(
    messages: Seq<MessageRecordView>,
    excluded: Seq<Seq<char>>,
    k: int,
    n: nat,
)
    ensures
        ({
            let s = used_up_to(messages, excluded, k, n as int);
            &&& s.input == added_up(messages, excluded, k, n, |u: TokenUsageView|
                u.input_tokens as int)
            &&& s.cached == added_up(messages, excluded, k, n, |u: TokenUsageView|
                u.cached_input_tokens as int)
            &&& s.cache_write == added_up(messages, excluded, k, n, |u: TokenUsageView|
                u.cache_write_input_tokens as int)
            &&& s.output == added_up(messages, excluded, k, n, |u: TokenUsageView|
                u.output_tokens as int)
            &&& s.reasoning == added_up(messages, excluded, k, n, |u: TokenUsageView|
                u.reasoning_output_tokens as int)
            &&& s.total == added_up(messages, excluded, k, n, |u: TokenUsageView|
                u.total_tokens as int)
            &&& (s.budget matches Some(b) ==> b == added_up(
                messages,
                excluded,
                k,
                n,
                |u: TokenUsageView| budget(u),
            ))
            &&& (s.budget is None ==> 0 == added_up(
                messages,
                excluded,
                k,
                n,
                |u: TokenUsageView| budget(u),
            ))
            &&& s.budget is Some <==> exists|j: int|
                0 <= j < n && is_counted(#[trigger] messages[j], excluded) && is_up_to(
                    messages,
                    j,
                    k,
                ) && messages[j].provider_usage->0.codex_rollout_budget_units is Some
        }),
    decreases n,
{
    if n > 0 {
        lemma_added_up(messages, excluded, k, (n - 1) as nat);
        lemma_counted(messages[n - 1], excluded);
        let s = used_up_to(messages, excluded, k, n as int);
        let before = used_up_to(messages, excluded, k, n - 1);
        if s.budget is Some && before.budget is None {
            assert(is_counted(messages[n - 1], excluded));
        }
    }
}

proof fn lemma_told_index(
    messages: Seq<MessageRecordView>,
    excluded: Seq<Seq<char>>,
    id: Seq<char>,
    n: int,
)
    requires
        0 <= n <= messages.len(),
    ensures
        match usage_index(messages, excluded, id, n) {
            Some(k) => 0 <= k < n && messages[k].message_id == id && is_counted(
                messages[k],
                excluded,
            ) && forall|j: int|
                0 <= j < n && (#[trigger] messages[j]).message_id == id && is_counted(
                    messages[j],
                    excluded,
                ) ==> is_up_to(messages, j, k),
            None => forall|j: int|
                0 <= j < n && (#[trigger] messages[j]).message_id == id ==> !is_counted(
                    messages[j],
                    excluded,
                ),
        },
    decreases n,
{
    if n > 0 {
        lemma_told_index(messages, excluded, id, n - 1);
        lemma_counted(messages[n - 1], excluded);
    }
}

/// For a message that reports what it used, what it used is told, and with it the
/// sums of all that counts up to it. What was taken back counts nowhere.
pub proof fn told_usage_is_the_sum(
    messages: Seq<MessageRecordView>,
    excluded: Seq<Seq<char>>,
    id: Seq<char>,
    k: int,
)
    requires
        is_told_for(messages, excluded, id, k),
        crate::usage::usage_fits(messages, excluded),
    ensures
        usage_at(messages, excluded, id) matches Some((total, last)) && {
            let n = messages.len();
            &&& last == messages[k].provider_usage->0
            &&& total.input_tokens == added_up(messages, excluded, k, n, |u: TokenUsageView|
                u.input_tokens as int)
            &&& total.cached_input_tokens == added_up(messages, excluded, k, n, |u: TokenUsageView|
                u.cached_input_tokens as int)
            &&& total.cache_write_input_tokens == added_up(
                messages,
                excluded,
                k,
                n,
                |u: TokenUsageView| u.cache_write_input_tokens as int,
            )
            &&& total.output_tokens == added_up(messages, excluded, k, n, |u: TokenUsageView|
                u.output_tokens as int)
            &&& total.reasoning_output_tokens == added_up(
                messages,
                excluded,
                k,
                n,
                |u: TokenUsageView| u.reasoning_output_tokens as int,
            )
            &&& total.total_tokens == added_up(messages, excluded, k, n, |u: TokenUsageView|
                u.total_tokens as int)
            &&& total.codex_rollout_budget_units is Some <==> exists|j: int|
                0 <= j < n && is_counted(#[trigger] messages[j], excluded) && is_up_to(
                    messages,
                    j,
                    k,
                ) && messages[j].provider_usage->0.codex_rollout_budget_units is Some
            &&& total.codex_rollout_budget_units matches Some(b) ==> b == added_up(
                messages,
                excluded,
                k,
                n,
                |u: TokenUsageView| budget(u),
            )
        },
{
    let n = messages.len() as int;
    lemma_told_index(messages, excluded, id, n);
    lemma_counted(messages[k], excluded);
    let at = usage_index(messages, excluded, id, n);
    assert(messages[k].message_id == id);
    assert(at is Some);
    assert(at == Some(k)) by {
        assert(is_up_to(messages, k, at->0));
        assert(is_up_to(messages, at->0, k));
    }
    lemma_added_up(messages, excluded, k, n as nat);
    assert(crate::usage::sum_fits(used_up_to(messages, excluded, k, n)));
}

/// Where no message of a name reports what it used, nothing is told for it.
pub proof fn nothing_is_told_without_usage(
    messages: Seq<MessageRecordView>,
    excluded: Seq<Seq<char>>,
    id: Seq<char>,
)
    requires
        forall|k: int|
            0 <= k < messages.len() && (#[trigger] messages[k]).message_id == id ==> !is_counted(
                messages[k],
                excluded,
            ),
    ensures
        usage_at(messages, excluded, id) is None,
{
    lemma_told_index(messages, excluded, id, messages.len() as int);
}

} // verus!
