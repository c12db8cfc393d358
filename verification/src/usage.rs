//! Tokens used so far, message by message.

use vstd::prelude::*;

use crate::records::{MessageRecord, MessageRecordView, TokenUsage, TokenUsageView};
use crate::text::{holds_text, text_eq};

verus! {

/// A sum of token usages.
#[verifier::ext_equal]
pub struct UsageSum {
    pub input: int,
    pub cached: int,
    pub cache_write: int,
    pub output: int,
    pub reasoning: int,
    pub total: int,
    pub budget: Option<int>,
}

/// The sum of nothing.
pub open spec fn no_usage() -> UsageSum {
    UsageSum {
        input: 0,
        cached: 0,
        cache_write: 0,
        output: 0,
        reasoning: 0,
        total: 0,
        budget: None,
    }
}

/// A sum and one usage more. Budget units count where a call reports them.
pub open spec fn plus_usage(s: UsageSum, u: TokenUsageView) -> UsageSum {
    UsageSum {
        input: s.input + u.input_tokens,
        cached: s.cached + u.cached_input_tokens,
        cache_write: s.cache_write + u.cache_write_input_tokens,
        output: s.output + u.output_tokens,
        reasoning: s.reasoning + u.reasoning_output_tokens,
        total: s.total + u.total_tokens,
        budget: match (s.budget, u.codex_rollout_budget_units) {
            (Some(a), Some(b)) => Some(a + b),
            (Some(a), None) => Some(a),
            (None, Some(b)) => Some(b as int),
            (None, None) => None,
        },
    }
}

/// The message reports usage that counts: its turn is not excluded.
pub open spec fn usage_counts(m: MessageRecordView, excluded: Seq<Seq<char>>) -> bool {
    m.provider_usage is Some && !excluded.contains(m.turn_id)
}

/// The message at `j` was stored no later than the one at `k`.
pub open spec fn not_after(messages: Seq<MessageRecordView>, j: int, k: int) -> bool {
    messages[j].source_event_order < messages[k].source_event_order || (
    messages[j].source_event_order == messages[k].source_event_order && j <= k)
}

/// What was used up to the message at `k`, by the first `n` messages.
pub open spec fn used_up_to(
    messages: Seq<MessageRecordView>,
    excluded: Seq<Seq<char>>,
    k: int,
    n: int,
) -> UsageSum
    decreases n,
{
    if n <= 0 {
        no_usage()
    } else {
        let before = used_up_to(messages, excluded, k, n - 1);
        if usage_counts(messages[n - 1], excluded) && not_after(messages, n - 1, k) {
            plus_usage(before, messages[n - 1].provider_usage->0)
        } else {
            before
        }
    }
}

/// The message named `id` whose usage counts, among the first `n`; of several,
/// the one that was stored last.
pub open spec fn usage_index(
    messages: Seq<MessageRecordView>,
    excluded: Seq<Seq<char>>,
    id: Seq<char>,
    n: int,
) -> Option<int>
    decreases n,
{
    if n <= 0 {
        None
    } else {
        let before = usage_index(messages, excluded, id, n - 1);
        if usage_counts(messages[n - 1], excluded) && messages[n - 1].message_id == id {
            match before {
                Some(k) => if messages[k].source_event_order <= messages[n
                    - 1].source_event_order {
                    Some(n - 1)
                } else {
                    before
                },
                None => Some(n - 1),
            }
        } else {
            before
        }
    }
}

/// The number is one that a token count can hold.
pub open spec fn is_count(n: int) -> bool {
    i64::MIN <= n <= i64::MAX
}

/// The sum is one that a token usage can hold.
pub open spec fn sum_fits(s: UsageSum) -> bool {
    &&& is_count(s.input)
    &&& is_count(s.cached)
    &&& is_count(s.cache_write)
    &&& is_count(s.output)
    &&& is_count(s.reasoning)
    &&& is_count(s.total)
    &&& (s.budget matches Some(b) ==> is_count(b))
}

/// What was used up to each message can be told.
pub open spec fn usage_fits(messages: Seq<MessageRecordView>, excluded: Seq<Seq<char>>) -> bool {
    forall|k: int|
        0 <= k < messages.len() && usage_counts(#[trigger] messages[k], excluded) ==> sum_fits(
            used_up_to(messages, excluded, k, messages.len() as int),
        )
}

/// A sum as a token usage.
pub open spec fn sum_view(s: UsageSum) -> TokenUsageView {
    TokenUsageView {
        input_tokens: s.input as i64,
        cached_input_tokens: s.cached as i64,
        cache_write_input_tokens: s.cache_write as i64,
        output_tokens: s.output as i64,
        reasoning_output_tokens: s.reasoning as i64,
        total_tokens: s.total as i64,
        codex_rollout_budget_units: match s.budget {
            Some(b) => Some(b as i64),
            None => None,
        },
    }
}

/// What was used up to the message named `id`, and by it alone.
pub open spec fn usage_at(
    messages: Seq<MessageRecordView>,
    excluded: Seq<Seq<char>>,
    id: Seq<char>,
) -> Option<(TokenUsageView, TokenUsageView)> {
    match usage_index(messages, excluded, id, messages.len() as int) {
        Some(k) => Some(
            (
                sum_view(used_up_to(messages, excluded, k, messages.len() as int)),
                messages[k].provider_usage->0,
            ),
        ),
        None => None,
    }
}

/// A sum under way.
struct Adding {
    input: i128,
    cached: i128,
    cache_write: i128,
    output: i128,
    reasoning: i128,
    total: i128,
    budget: Option<i128>,
}

impl Adding {
    spec fn sum(self) -> UsageSum {
        UsageSum {
            input: self.input as int,
            cached: self.cached as int,
            cache_write: self.cache_write as int,
            output: self.output as int,
            reasoning: self.reasoning as int,
            total: self.total as int,
            budget: match self.budget {
                Some(b) => Some(b as int),
                None => None,
            },
        }
    }

    /// No part is larger than `n` usages can make it.
    spec fn within(self, n: int) -> bool {
        let most = n * 0x8000_0000_0000_0000;
        &&& -most <= self.input <= most
        &&& -most <= self.cached <= most
        &&& -most <= self.cache_write <= most
        &&& -most <= self.output <= most
        &&& -most <= self.reasoning <= most
        &&& -most <= self.total <= most
        &&& (self.budget matches Some(b) ==> -most <= b <= most)
    }

    fn plus(&mut self, u: &TokenUsage, Ghost(n): Ghost<int>)
        requires
            old(self).within(n),
            0 <= n < 0xffff_ffff_ffff_ffff,
        ensures
            final(self).sum() == plus_usage(old(self).sum(), u@),
            final(self).within(n + 1),
    {
        self.input = self.input + u.input_tokens as i128;
        self.cached = self.cached + u.cached_input_tokens as i128;
        self.cache_write = self.cache_write + u.cache_write_input_tokens as i128;
        self.output = self.output + u.output_tokens as i128;
        self.reasoning = self.reasoning + u.reasoning_output_tokens as i128;
        self.total = self.total + u.total_tokens as i128;
        self.budget =
        match (self.budget, u.codex_rollout_budget_units) {
            (Some(a), Some(b)) => Some(a + b as i128),
            (Some(a), None) => Some(a),
            (None, Some(b)) => Some(b as i128),
            (None, None) => None,
        };
    }
}

fn is_count_value(n: i128) -> (r: bool)
    ensures
        r == is_count(n as int),
{
    n >= i64::MIN as i128 && n <= i64::MAX as i128
}

/// Whether the usage of a message counts.
fn counts(m: &MessageRecord, excluded: &Vec<String>) -> (r: bool)
    ensures
        r == usage_counts(m@, excluded.deep_view()),
{
    m.provider_usage.is_some() && !holds_text(excluded, m.turn_id.as_str())
}

fn add_up_to(messages: &Vec<MessageRecord>, excluded: &Vec<String>, k: usize) -> (r: Adding)
    requires
        k < messages.len(),
    ensures
        r.sum() == used_up_to(
            messages.deep_view(),
            excluded.deep_view(),
            k as int,
            messages.len() as int,
        ),
{
    let ghost view = messages.deep_view();
    let ghost ex = excluded.deep_view();
    let at: i64 = messages[k].source_event_order;
    let mut acc = Adding {
        input: 0,
        cached: 0,
        cache_write: 0,
        output: 0,
        reasoning: 0,
        total: 0,
        budget: None,
    };
    let mut i: usize = 0;
    while i < messages.len()
        invariant
            k < messages.len(),
            i <= messages.len(),
            view == messages.deep_view(),
            ex == excluded.deep_view(),
            at == view[k as int].source_event_order,
            acc.sum() == used_up_to(view, ex, k as int, i as int),
            acc.within(i as int),
        decreases messages.len() - i,
    {
        let m = &messages[i];
        assert(view[i as int] == m@);
        if counts(m, excluded) && (m.source_event_order < at || (m.source_event_order == at && i
            <= k)) {
            if let Some(u) = &m.provider_usage {
                acc.plus(u, Ghost(i as int));
            }
        }
        i = i + 1;
    }
    acc
}

/// What was used up to the message named `id`, and by it alone.
pub fn cumulative_usage_at(
    messages: &Vec<MessageRecord>,
    excluded: &Vec<String>,
    id: &str,
) -> (r: Option<(TokenUsage, TokenUsage)>)
    requires
        usage_fits(messages.deep_view(), excluded.deep_view()),
    ensures
        match r {
            Some((total, last)) => usage_at(messages.deep_view(), excluded.deep_view(), id@)
                == Some((total@, last@)),
            None => usage_at(messages.deep_view(), excluded.deep_view(), id@) is None,
        },
{
    let ghost view = messages.deep_view();
    let ghost ex = excluded.deep_view();
    let mut best: Option<usize> = None;
    let mut i: usize = 0;
    while i < messages.len()
        invariant
            i <= messages.len(),
            view == messages.deep_view(),
            ex == excluded.deep_view(),
            match best {
                Some(k) => k < i && usage_index(view, ex, id@, i as int) == Some(k as int)
                    && usage_counts(view[k as int], ex),
                None => usage_index(view, ex, id@, i as int) is None,
            },
        decreases messages.len() - i,
    {
        let m = &messages[i];
        assert(view[i as int] == m@);
        if counts(m, excluded) && text_eq(m.message_id.as_str(), id) {
            let newer = match best {
                Some(k) => {
                    assert(view[k as int] == messages@[k as int]@);
                    messages[k].source_event_order <= m.source_event_order
                },
                None => true,
            };
            if newer {
                best = Some(i);
            }
        }
        i = i + 1;
    }
    match best {
        None => None,
        Some(k) => {
            assert(view[k as int] == messages@[k as int]@);
            let sum = add_up_to(messages, excluded, k);
            let total = TokenUsage {
                input_tokens: sum.input as i64,
                cached_input_tokens: sum.cached as i64,
                cache_write_input_tokens: sum.cache_write as i64,
                output_tokens: sum.output as i64,
                reasoning_output_tokens: sum.reasoning as i64,
                total_tokens: sum.total as i64,
                codex_rollout_budget_units: match sum.budget {
                    Some(b) => Some(b as i64),
                    None => None,
                },
            };
            match &messages[k].provider_usage {
                Some(last) => Some((total, last.clone())),
                None => None,
            }
        },
    }
}

/// Whether what was used up to each message can be told.
pub fn usage_totals_fit(messages: &Vec<MessageRecord>, excluded: &Vec<String>) -> (r: bool)
    ensures
        r == usage_fits(messages.deep_view(), excluded.deep_view()),
{
    let ghost view = messages.deep_view();
    let ghost ex = excluded.deep_view();
    let mut k: usize = 0;
    while k < messages.len()
        invariant
            k <= messages.len(),
            view == messages.deep_view(),
            ex == excluded.deep_view(),
            forall|j: int|
                0 <= j < k && usage_counts(#[trigger] view[j], ex) ==> sum_fits(
                    used_up_to(view, ex, j, view.len() as int),
                ),
        decreases messages.len() - k,
    {
        assert(view[k as int] == messages@[k as int]@);
        if counts(&messages[k], excluded) {
            let sum = add_up_to(messages, excluded, k);
            let budget_fits = match sum.budget {
                Some(b) => is_count_value(b),
                None => true,
            };
            if !(is_count_value(sum.input) && is_count_value(sum.cached) && is_count_value(
                sum.cache_write,
            ) && is_count_value(sum.output) && is_count_value(sum.reasoning) && is_count_value(
                sum.total,
            ) && budget_fits) {
                assert(!sum_fits(used_up_to(view, ex, k as int, view.len() as int)));
                return false;
            }
        }
        k = k + 1;
    }
    true
}

/// What was used never falls from one message to a later one, where no call
/// reports less than nothing.
pub proof fn usage_only_grows(
    messages: Seq<MessageRecordView>,
    excluded: Seq<Seq<char>>,
    j: int,
    k: int,
    n: int,
)
    requires
        0 <= j < messages.len(),
        0 <= k < messages.len(),
        0 <= n <= messages.len(),
        not_after(messages, j, k),
        forall|i: int|
            0 <= i < messages.len() && (#[trigger] messages[i]).provider_usage is Some
                ==> messages[i].provider_usage->0.total_tokens >= 0,
    ensures
        used_up_to(messages, excluded, j, n).total <= used_up_to(messages, excluded, k, n).total,
    decreases n,
{
    if n > 0 {
        usage_only_grows(messages, excluded, j, k, n - 1);
        assert(messages[n - 1] == messages[n - 1]);
    }
}

/// Excluded turns count for nothing: with no usage outside them, the sum is nothing.
pub proof fn excluded_usage_does_not_count(
    messages: Seq<MessageRecordView>,
    excluded: Seq<Seq<char>>,
    k: int,
    n: int,
)
    requires
        0 <= n <= messages.len(),
        forall|i: int|
            0 <= i < messages.len() ==> excluded.contains((#[trigger] messages[i]).turn_id),
    ensures
        used_up_to(messages, excluded, k, n) == no_usage(),
    decreases n,
{
    if n > 0 {
        excluded_usage_does_not_count(messages, excluded, k, n - 1);
        assert(excluded.contains(messages[n - 1].turn_id));
    }
}

} // verus!
