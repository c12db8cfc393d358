//! Compacting in the middle of a turn: what the host tells the runtime, and
//! what it makes of the answer.

use vstd::prelude::*;
use vstd::string::*;

use crate::json::{Json, JsonView};
use crate::mapping::HARNESS;
use crate::protocol::{ResponseItem, ResponseItemView};
use crate::records::{TokenUsage, TokenUsageView};
use crate::text::{
    holds_text, is_before, lemma_order_transitive, order_is_strict, stands_before, text, text_eq,
};

verus! {

/// Who states the facts: the host, not a model.
pub const COMPACT_CONTINUATION_ACTOR: &'static str = "codex_host";

/// Where an estimate behind the last measured request comes from.
pub const POST_MEASUREMENT_SOURCE: &'static str = "lhc_token_estimate";

/// How far a compact goes unless told otherwise.
pub const DEFAULT_LOWER_TARGET_TOKENS: i64 = 120_000;

/// How far the pressure must grow unless told otherwise.
pub const DEFAULT_HYSTERESIS_GROWTH_MARGIN_TOKENS: i64 = 10_000;

/// What a provider reported of its input.
#[derive(Debug, PartialEq, Eq)]
pub struct ProviderUsageAvailable {
    pub available: bool,
    pub input_tokens: i64,
    pub cache_creation_tokens: i64,
    pub cache_read_tokens: i64,
    pub total: i64,
    pub domain: String,
}

/// What a [`ProviderUsageAvailable`] stands for.
#[verifier::ext_equal]
pub struct ProviderUsageAvailableView {
    pub available: bool,
    pub input_tokens: i64,
    pub cache_creation_tokens: i64,
    pub cache_read_tokens: i64,
    pub total: i64,
    pub domain: Seq<char>,
}

impl View for ProviderUsageAvailable {
    type V = ProviderUsageAvailableView;

    open spec fn view(&self) -> ProviderUsageAvailableView {
        ProviderUsageAvailableView {
            available: self.available.deep_view(),
            input_tokens: self.input_tokens.deep_view(),
            cache_creation_tokens: self.cache_creation_tokens.deep_view(),
            cache_read_tokens: self.cache_read_tokens.deep_view(),
            total: self.total.deep_view(),
            domain: self.domain.deep_view(),
        }
    }
}

impl DeepView for ProviderUsageAvailable {
    type V = ProviderUsageAvailableView;

    open spec fn deep_view(&self) -> ProviderUsageAvailableView {
        self@
    }
}

impl Clone for ProviderUsageAvailable {
    fn clone(&self) -> (r: Self)
        ensures
            r@ == self@,
            r.deep_view() == self.deep_view(),
    {
        ProviderUsageAvailable {
            available: self.available,
            input_tokens: self.input_tokens,
            cache_creation_tokens: self.cache_creation_tokens,
            cache_read_tokens: self.cache_read_tokens,
            total: self.total,
            domain: self.domain.clone(),
        }
    }
}

/// Why nothing is known of the input.
#[derive(Debug, Clone, Copy, PartialEq, Eq, Structural)]
pub enum ProviderUsageUnavailableReason {
    Missing,
}

impl DeepView for ProviderUsageUnavailableReason {
    type V = ProviderUsageUnavailableReason;

    open spec fn deep_view(&self) -> ProviderUsageUnavailableReason {
        *self
    }
}

/// That a provider reported nothing.
#[derive(Debug, PartialEq, Eq)]
pub struct ProviderUsageUnavailable {
    pub available: bool,
    pub reason: ProviderUsageUnavailableReason,
    pub domain: String,
}

/// What a [`ProviderUsageUnavailable`] stands for.
#[verifier::ext_equal]
pub struct ProviderUsageUnavailableView {
    pub available: bool,
    pub reason: ProviderUsageUnavailableReason,
    pub domain: Seq<char>,
}

impl View for ProviderUsageUnavailable {
    type V = ProviderUsageUnavailableView;

    open spec fn view(&self) -> ProviderUsageUnavailableView {
        ProviderUsageUnavailableView {
            available: self.available.deep_view(),
            reason: self.reason.deep_view(),
            domain: self.domain.deep_view(),
        }
    }
}

impl DeepView for ProviderUsageUnavailable {
    type V = ProviderUsageUnavailableView;

    open spec fn deep_view(&self) -> ProviderUsageUnavailableView {
        self@
    }
}

impl Clone for ProviderUsageUnavailable {
    fn clone(&self) -> (r: Self)
        ensures
            r@ == self@,
            r.deep_view() == self.deep_view(),
    {
        ProviderUsageUnavailable {
            available: self.available,
            reason: self.reason,
            domain: self.domain.clone(),
        }
    }
}

/// What is known of the input of the last request.
#[derive(Debug, PartialEq, Eq)]
#[allow(inconsistent_fields)]
pub enum ProviderUsageAuthority {
    Available(ProviderUsageAvailable),
    Unavailable(ProviderUsageUnavailable),
}

/// What a [`ProviderUsageAuthority`] stands for.
#[verifier::ext_equal]
#[allow(inconsistent_fields)]
pub enum ProviderUsageAuthorityView {
    Available(ProviderUsageAvailableView),
    Unavailable(ProviderUsageUnavailableView),
}

impl View for ProviderUsageAuthority {
    type V = ProviderUsageAuthorityView;

    open spec fn view(&self) -> ProviderUsageAuthorityView {
        match self {
            ProviderUsageAuthority::Available(x) => ProviderUsageAuthorityView::Available(
                x.deep_view(),
            ),
            ProviderUsageAuthority::Unavailable(x) => ProviderUsageAuthorityView::Unavailable(
                x.deep_view(),
            ),
        }
    }
}

impl DeepView for ProviderUsageAuthority {
    type V = ProviderUsageAuthorityView;

    open spec fn deep_view(&self) -> ProviderUsageAuthorityView {
        self@
    }
}

impl Clone for ProviderUsageAuthority {
    fn clone(&self) -> (r: Self)
        ensures
            r@ == self@,
            r.deep_view() == self.deep_view(),
    {
        match self {
            ProviderUsageAuthority::Available(x) => ProviderUsageAuthority::Available(x.clone()),
            ProviderUsageAuthority::Unavailable(x) => ProviderUsageAuthority::Unavailable(
                x.clone(),
            ),
        }
    }
}

/// How the work goes on.
#[derive(Debug, PartialEq, Eq)]
pub enum WorkContinuation {
    /// Not at all.
    Idle,
    /// Without a tool result.
    ActiveNonTool,
    /// With the result of a call.
    PendingCorrelatedToolResult { tool_call_id: String, correlation_valid: bool },
}

/// What a [`WorkContinuation`] stands for.
#[verifier::ext_equal]
pub enum WorkContinuationView {
    Idle,
    ActiveNonTool,
    PendingCorrelatedToolResult { tool_call_id: Seq<char>, correlation_valid: bool },
}

impl View for WorkContinuation {
    type V = WorkContinuationView;

    open spec fn view(&self) -> WorkContinuationView {
        match self {
            WorkContinuation::Idle => WorkContinuationView::Idle,
            WorkContinuation::ActiveNonTool => WorkContinuationView::ActiveNonTool,
            WorkContinuation::PendingCorrelatedToolResult {
                tool_call_id,
                correlation_valid,
            } => WorkContinuationView::PendingCorrelatedToolResult {
                tool_call_id: tool_call_id.deep_view(),
                correlation_valid: correlation_valid.deep_view(),
            },
        }
    }
}

impl DeepView for WorkContinuation {
    type V = WorkContinuationView;

    open spec fn deep_view(&self) -> WorkContinuationView {
        self@
    }
}

impl Clone for WorkContinuation {
    fn clone(&self) -> (r: Self)
        ensures
            r@ == self@,
            r.deep_view() == self.deep_view(),
    {
        match self {
            WorkContinuation::Idle => WorkContinuation::Idle,
            WorkContinuation::ActiveNonTool => WorkContinuation::ActiveNonTool,
            WorkContinuation::PendingCorrelatedToolResult {
                tool_call_id,
                correlation_valid,
            } => WorkContinuation::PendingCorrelatedToolResult {
                tool_call_id: tool_call_id.clone(),
                correlation_valid: *correlation_valid,
            },
        }
    }
}

/// Where a turn stands when it may be compacted.
#[derive(Debug, PartialEq, Eq)]
pub struct CompactContinuationSeam {
    pub model_response_complete: bool,
    pub requested_tools_settled: bool,
    pub capture_flushed: bool,
    pub before_next_provider_request: bool,
    pub inside_transport_retry: bool,
    pub input_epoch_at_decision: i64,
    pub input_epoch_at_apply: i64,
}

/// What a [`CompactContinuationSeam`] stands for.
#[verifier::ext_equal]
pub struct CompactContinuationSeamView {
    pub model_response_complete: bool,
    pub requested_tools_settled: bool,
    pub capture_flushed: bool,
    pub before_next_provider_request: bool,
    pub inside_transport_retry: bool,
    pub input_epoch_at_decision: i64,
    pub input_epoch_at_apply: i64,
}

impl View for CompactContinuationSeam {
    type V = CompactContinuationSeamView;

    open spec fn view(&self) -> CompactContinuationSeamView {
        CompactContinuationSeamView {
            model_response_complete: self.model_response_complete.deep_view(),
            requested_tools_settled: self.requested_tools_settled.deep_view(),
            capture_flushed: self.capture_flushed.deep_view(),
            before_next_provider_request: self.before_next_provider_request.deep_view(),
            inside_transport_retry: self.inside_transport_retry.deep_view(),
            input_epoch_at_decision: self.input_epoch_at_decision.deep_view(),
            input_epoch_at_apply: self.input_epoch_at_apply.deep_view(),
        }
    }
}

impl DeepView for CompactContinuationSeam {
    type V = CompactContinuationSeamView;

    open spec fn deep_view(&self) -> CompactContinuationSeamView {
        self@
    }
}

impl Clone for CompactContinuationSeam {
    fn clone(&self) -> (r: Self)
        ensures
            r@ == self@,
            r.deep_view() == self.deep_view(),
    {
        CompactContinuationSeam {
            model_response_complete: self.model_response_complete,
            requested_tools_settled: self.requested_tools_settled,
            capture_flushed: self.capture_flushed,
            before_next_provider_request: self.before_next_provider_request,
            inside_transport_retry: self.inside_transport_retry,
            input_epoch_at_decision: self.input_epoch_at_decision,
            input_epoch_at_apply: self.input_epoch_at_apply,
        }
    }
}

/// An estimate of what came behind the last measured request.
#[derive(Debug, PartialEq, Eq)]
pub struct PostMeasurementEstimate {
    pub tokens: i64,
    pub source: String,
    pub domain: String,
}

/// What a [`PostMeasurementEstimate`] stands for.
#[verifier::ext_equal]
pub struct PostMeasurementEstimateView {
    pub tokens: i64,
    pub source: Seq<char>,
    pub domain: Seq<char>,
}

impl View for PostMeasurementEstimate {
    type V = PostMeasurementEstimateView;

    open spec fn view(&self) -> PostMeasurementEstimateView {
        PostMeasurementEstimateView {
            tokens: self.tokens.deep_view(),
            source: self.source.deep_view(),
            domain: self.domain.deep_view(),
        }
    }
}

impl DeepView for PostMeasurementEstimate {
    type V = PostMeasurementEstimateView;

    open spec fn deep_view(&self) -> PostMeasurementEstimateView {
        self@
    }
}

impl Clone for PostMeasurementEstimate {
    fn clone(&self) -> (r: Self)
        ensures
            r@ == self@,
            r.deep_view() == self.deep_view(),
    {
        PostMeasurementEstimate {
            tokens: self.tokens,
            source: self.source.clone(),
            domain: self.domain.clone(),
        }
    }
}

/// What the host can do.
#[derive(Debug, Clone, Copy, PartialEq, Eq, Structural)]
pub enum CompactContinuationHostCapability {
    FullStateMachine,
}

impl DeepView for CompactContinuationHostCapability {
    type V = CompactContinuationHostCapability;

    open spec fn deep_view(&self) -> CompactContinuationHostCapability {
        *self
    }
}

/// When to compact, and how far.
#[derive(Debug, PartialEq, Eq)]
pub struct CompactContinuationPolicy {
    pub upper_trigger_tokens: i64,
    pub lower_target_tokens: i64,
    pub host_capability: CompactContinuationHostCapability,
}

/// What a [`CompactContinuationPolicy`] stands for.
#[verifier::ext_equal]
pub struct CompactContinuationPolicyView {
    pub upper_trigger_tokens: i64,
    pub lower_target_tokens: i64,
    pub host_capability: CompactContinuationHostCapability,
}

impl View for CompactContinuationPolicy {
    type V = CompactContinuationPolicyView;

    open spec fn view(&self) -> CompactContinuationPolicyView {
        CompactContinuationPolicyView {
            upper_trigger_tokens: self.upper_trigger_tokens.deep_view(),
            lower_target_tokens: self.lower_target_tokens.deep_view(),
            host_capability: self.host_capability.deep_view(),
        }
    }
}

impl DeepView for CompactContinuationPolicy {
    type V = CompactContinuationPolicyView;

    open spec fn deep_view(&self) -> CompactContinuationPolicyView {
        self@
    }
}

impl Clone for CompactContinuationPolicy {
    fn clone(&self) -> (r: Self)
        ensures
            r@ == self@,
            r.deep_view() == self.deep_view(),
    {
        CompactContinuationPolicy {
            upper_trigger_tokens: self.upper_trigger_tokens,
            lower_target_tokens: self.lower_target_tokens,
            host_capability: self.host_capability,
        }
    }
}

/// Faults that a test may inject.
#[derive(Debug, PartialEq, Eq)]
pub struct MidTurnTestHooks {
    pub force_derivations_missing_or_failed: Option<bool>,
    pub force_install_succeeds: Option<bool>,
    pub fail_candidate_assembly: bool,
    pub fail_install_before_write: bool,
}

/// What a [`MidTurnTestHooks`] stands for.
#[verifier::ext_equal]
pub struct MidTurnTestHooksView {
    pub force_derivations_missing_or_failed: Option<bool>,
    pub force_install_succeeds: Option<bool>,
    pub fail_candidate_assembly: bool,
    pub fail_install_before_write: bool,
}

impl View for MidTurnTestHooks {
    type V = MidTurnTestHooksView;

    open spec fn view(&self) -> MidTurnTestHooksView {
        MidTurnTestHooksView {
            force_derivations_missing_or_failed: self.force_derivations_missing_or_failed.deep_view(),
            force_install_succeeds: self.force_install_succeeds.deep_view(),
            fail_candidate_assembly: self.fail_candidate_assembly.deep_view(),
            fail_install_before_write: self.fail_install_before_write.deep_view(),
        }
    }
}

impl DeepView for MidTurnTestHooks {
    type V = MidTurnTestHooksView;

    open spec fn deep_view(&self) -> MidTurnTestHooksView {
        self@
    }
}

impl Clone for MidTurnTestHooks {
    fn clone(&self) -> (r: Self)
        ensures
            r@ == self@,
            r.deep_view() == self.deep_view(),
    {
        MidTurnTestHooks {
            force_derivations_missing_or_failed: self.force_derivations_missing_or_failed.clone(),
            force_install_succeeds: self.force_install_succeeds.clone(),
            fail_candidate_assembly: self.fail_candidate_assembly,
            fail_install_before_write: self.fail_install_before_write,
        }
    }
}

/// One attempt to compact in the middle of a turn. The claim of the writer and
/// the compact options are held as the runtime takes them.
#[derive(Debug, PartialEq, Eq)]
pub struct MidTurnCompactContinuationRequest {
    pub thread_id: String,
    pub root: Option<String>,
    pub attempt_id: String,
    pub provider_usage: ProviderUsageAuthority,
    pub post_measurement_tokens: i64,
    pub upper_trigger_tokens: i64,
    pub lower_target_tokens: i64,
    pub continuation: WorkContinuation,
    pub writer_claim: Json,
    pub capture_complete: bool,
    pub provider_identity_valid: bool,
    pub input_epoch_at_decision: i64,
    pub input_epoch_at_apply: i64,
    pub inside_transport_retry: bool,
    pub compact: Option<Json>,
    pub test_hooks: Option<MidTurnTestHooks>,
}

/// What a [`MidTurnCompactContinuationRequest`] stands for.
#[verifier::ext_equal]
pub struct MidTurnCompactContinuationRequestView {
    pub thread_id: Seq<char>,
    pub root: Option<Seq<char>>,
    pub attempt_id: Seq<char>,
    pub provider_usage: ProviderUsageAuthorityView,
    pub post_measurement_tokens: i64,
    pub upper_trigger_tokens: i64,
    pub lower_target_tokens: i64,
    pub continuation: WorkContinuationView,
    pub writer_claim: JsonView,
    pub capture_complete: bool,
    pub provider_identity_valid: bool,
    pub input_epoch_at_decision: i64,
    pub input_epoch_at_apply: i64,
    pub inside_transport_retry: bool,
    pub compact: Option<JsonView>,
    pub test_hooks: Option<MidTurnTestHooksView>,
}

impl View for MidTurnCompactContinuationRequest {
    type V = MidTurnCompactContinuationRequestView;

    open spec fn view(&self) -> MidTurnCompactContinuationRequestView {
        MidTurnCompactContinuationRequestView {
            thread_id: self.thread_id.deep_view(),
            root: self.root.deep_view(),
            attempt_id: self.attempt_id.deep_view(),
            provider_usage: self.provider_usage.deep_view(),
            post_measurement_tokens: self.post_measurement_tokens.deep_view(),
            upper_trigger_tokens: self.upper_trigger_tokens.deep_view(),
            lower_target_tokens: self.lower_target_tokens.deep_view(),
            continuation: self.continuation.deep_view(),
            writer_claim: self.writer_claim.deep_view(),
            capture_complete: self.capture_complete.deep_view(),
            provider_identity_valid: self.provider_identity_valid.deep_view(),
            input_epoch_at_decision: self.input_epoch_at_decision.deep_view(),
            input_epoch_at_apply: self.input_epoch_at_apply.deep_view(),
            inside_transport_retry: self.inside_transport_retry.deep_view(),
            compact: self.compact.deep_view(),
            test_hooks: self.test_hooks.deep_view(),
        }
    }
}

impl DeepView for MidTurnCompactContinuationRequest {
    type V = MidTurnCompactContinuationRequestView;

    open spec fn deep_view(&self) -> MidTurnCompactContinuationRequestView {
        self@
    }
}

impl Clone for MidTurnCompactContinuationRequest {
    fn clone(&self) -> (r: Self)
        ensures
            r@ == self@,
            r.deep_view() == self.deep_view(),
    {
        MidTurnCompactContinuationRequest {
            thread_id: self.thread_id.clone(),
            root: self.root.clone(),
            attempt_id: self.attempt_id.clone(),
            provider_usage: self.provider_usage.clone(),
            post_measurement_tokens: self.post_measurement_tokens,
            upper_trigger_tokens: self.upper_trigger_tokens,
            lower_target_tokens: self.lower_target_tokens,
            continuation: self.continuation.clone(),
            writer_claim: self.writer_claim.clone(),
            capture_complete: self.capture_complete,
            provider_identity_valid: self.provider_identity_valid,
            input_epoch_at_decision: self.input_epoch_at_decision,
            input_epoch_at_apply: self.input_epoch_at_apply,
            inside_transport_retry: self.inside_transport_retry,
            compact: self.compact.clone(),
            test_hooks: self.test_hooks.clone(),
        }
    }
}

/// What the host tells the runtime.
#[derive(Debug, PartialEq, Eq)]
pub struct CompactContinuationHostFacts {
    pub attempt_id: String,
    pub seam: CompactContinuationSeam,
    pub provider_usage: ProviderUsageAuthority,
    pub post_measurement_estimate: PostMeasurementEstimate,
    pub policy: CompactContinuationPolicy,
    pub continuation: WorkContinuation,
    pub writer_claim: Json,
    pub capture_complete: bool,
    pub provider_identity_valid: bool,
    pub single_open_turn: Option<bool>,
    pub actor: String,
    pub harness: String,
    pub compact: Option<Json>,
}

/// What a [`CompactContinuationHostFacts`] stands for.
#[verifier::ext_equal]
pub struct CompactContinuationHostFactsView {
    pub attempt_id: Seq<char>,
    pub seam: CompactContinuationSeamView,
    pub provider_usage: ProviderUsageAuthorityView,
    pub post_measurement_estimate: PostMeasurementEstimateView,
    pub policy: CompactContinuationPolicyView,
    pub continuation: WorkContinuationView,
    pub writer_claim: JsonView,
    pub capture_complete: bool,
    pub provider_identity_valid: bool,
    pub single_open_turn: Option<bool>,
    pub actor: Seq<char>,
    pub harness: Seq<char>,
    pub compact: Option<JsonView>,
}

impl View for CompactContinuationHostFacts {
    type V = CompactContinuationHostFactsView;

    open spec fn view(&self) -> CompactContinuationHostFactsView {
        CompactContinuationHostFactsView {
            attempt_id: self.attempt_id.deep_view(),
            seam: self.seam.deep_view(),
            provider_usage: self.provider_usage.deep_view(),
            post_measurement_estimate: self.post_measurement_estimate.deep_view(),
            policy: self.policy.deep_view(),
            continuation: self.continuation.deep_view(),
            writer_claim: self.writer_claim.deep_view(),
            capture_complete: self.capture_complete.deep_view(),
            provider_identity_valid: self.provider_identity_valid.deep_view(),
            single_open_turn: self.single_open_turn.deep_view(),
            actor: self.actor.deep_view(),
            harness: self.harness.deep_view(),
            compact: self.compact.deep_view(),
        }
    }
}

impl DeepView for CompactContinuationHostFacts {
    type V = CompactContinuationHostFactsView;

    open spec fn deep_view(&self) -> CompactContinuationHostFactsView {
        self@
    }
}

impl Clone for CompactContinuationHostFacts {
    fn clone(&self) -> (r: Self)
        ensures
            r@ == self@,
            r.deep_view() == self.deep_view(),
    {
        CompactContinuationHostFacts {
            attempt_id: self.attempt_id.clone(),
            seam: self.seam.clone(),
            provider_usage: self.provider_usage.clone(),
            post_measurement_estimate: self.post_measurement_estimate.clone(),
            policy: self.policy.clone(),
            continuation: self.continuation.clone(),
            writer_claim: self.writer_claim.clone(),
            capture_complete: self.capture_complete,
            provider_identity_valid: self.provider_identity_valid,
            single_open_turn: self.single_open_turn.clone(),
            actor: self.actor.clone(),
            harness: self.harness.clone(),
            compact: self.compact.clone(),
        }
    }
}

/// What the runtime reports of an attempt, as far as the host reads it.
#[derive(Debug, PartialEq, Eq)]
pub struct CompactContinuationRunResult {
    pub has_compact_receipt: bool,
    /// The words for the effects that were decided.
    pub effects: Vec<String>,
    pub outcome: String,
    pub next_provider_request_allowed: bool,
    pub refuse_code: Option<String>,
    pub skip_code: Option<String>,
    pub reason_code: String,
    pub marker_persisted: bool,
    pub continuation_turn_id: Option<String>,
}

/// What a [`CompactContinuationRunResult`] stands for.
#[verifier::ext_equal]
pub struct CompactContinuationRunResultView {
    pub has_compact_receipt: bool,
    pub effects: Seq<Seq<char>>,
    pub outcome: Seq<char>,
    pub next_provider_request_allowed: bool,
    pub refuse_code: Option<Seq<char>>,
    pub skip_code: Option<Seq<char>>,
    pub reason_code: Seq<char>,
    pub marker_persisted: bool,
    pub continuation_turn_id: Option<Seq<char>>,
}

impl View for CompactContinuationRunResult {
    type V = CompactContinuationRunResultView;

    open spec fn view(&self) -> CompactContinuationRunResultView {
        CompactContinuationRunResultView {
            has_compact_receipt: self.has_compact_receipt.deep_view(),
            effects: self.effects.deep_view(),
            outcome: self.outcome.deep_view(),
            next_provider_request_allowed: self.next_provider_request_allowed.deep_view(),
            refuse_code: self.refuse_code.deep_view(),
            skip_code: self.skip_code.deep_view(),
            reason_code: self.reason_code.deep_view(),
            marker_persisted: self.marker_persisted.deep_view(),
            continuation_turn_id: self.continuation_turn_id.deep_view(),
        }
    }
}

impl DeepView for CompactContinuationRunResult {
    type V = CompactContinuationRunResultView;

    open spec fn deep_view(&self) -> CompactContinuationRunResultView {
        self@
    }
}

impl Clone for CompactContinuationRunResult {
    fn clone(&self) -> (r: Self)
        ensures
            r@ == self@,
            r.deep_view() == self.deep_view(),
    {
        CompactContinuationRunResult {
            has_compact_receipt: self.has_compact_receipt,
            effects: self.effects.clone(),
            outcome: self.outcome.clone(),
            next_provider_request_allowed: self.next_provider_request_allowed,
            refuse_code: self.refuse_code.clone(),
            skip_code: self.skip_code.clone(),
            reason_code: self.reason_code.clone(),
            marker_persisted: self.marker_persisted,
            continuation_turn_id: self.continuation_turn_id.clone(),
        }
    }
}

/// What an attempt means for the host.
#[derive(Debug, PartialEq, Eq)]
pub struct MidTurnCompactContinuationOutcome {
    pub run: CompactContinuationRunResult,
    pub next_provider_request_allowed: bool,
    pub installed: bool,
    pub reduced: bool,
    pub outcome_kind: String,
    pub refuse_code: Option<String>,
    pub skip_code: Option<String>,
    pub reason_code: String,
    pub marker_persisted: bool,
    pub continuation_turn_id: Option<String>,
}

/// What a [`MidTurnCompactContinuationOutcome`] stands for.
#[verifier::ext_equal]
pub struct MidTurnCompactContinuationOutcomeView {
    pub run: CompactContinuationRunResultView,
    pub next_provider_request_allowed: bool,
    pub installed: bool,
    pub reduced: bool,
    pub outcome_kind: Seq<char>,
    pub refuse_code: Option<Seq<char>>,
    pub skip_code: Option<Seq<char>>,
    pub reason_code: Seq<char>,
    pub marker_persisted: bool,
    pub continuation_turn_id: Option<Seq<char>>,
}

impl View for MidTurnCompactContinuationOutcome {
    type V = MidTurnCompactContinuationOutcomeView;

    open spec fn view(&self) -> MidTurnCompactContinuationOutcomeView {
        MidTurnCompactContinuationOutcomeView {
            run: self.run.deep_view(),
            next_provider_request_allowed: self.next_provider_request_allowed.deep_view(),
            installed: self.installed.deep_view(),
            reduced: self.reduced.deep_view(),
            outcome_kind: self.outcome_kind.deep_view(),
            refuse_code: self.refuse_code.deep_view(),
            skip_code: self.skip_code.deep_view(),
            reason_code: self.reason_code.deep_view(),
            marker_persisted: self.marker_persisted.deep_view(),
            continuation_turn_id: self.continuation_turn_id.deep_view(),
        }
    }
}

impl DeepView for MidTurnCompactContinuationOutcome {
    type V = MidTurnCompactContinuationOutcomeView;

    open spec fn deep_view(&self) -> MidTurnCompactContinuationOutcomeView {
        self@
    }
}

impl Clone for MidTurnCompactContinuationOutcome {
    fn clone(&self) -> (r: Self)
        ensures
            r@ == self@,
            r.deep_view() == self.deep_view(),
    {
        MidTurnCompactContinuationOutcome {
            run: self.run.clone(),
            next_provider_request_allowed: self.next_provider_request_allowed,
            installed: self.installed,
            reduced: self.reduced,
            outcome_kind: self.outcome_kind.clone(),
            refuse_code: self.refuse_code.clone(),
            skip_code: self.skip_code.clone(),
            reason_code: self.reason_code.clone(),
            marker_persisted: self.marker_persisted,
            continuation_turn_id: self.continuation_turn_id.clone(),
        }
    }
}

/// Keeps an attempt that reduced nothing from being repeated before the pressure has grown.
#[derive(Debug, PartialEq, Eq)]
pub struct CompactContinuationHysteresis {
    pub last_attempt_id: String,
    pub last_pressure_tokens: i64,
    pub last_reduced: bool,
    pub last_outcome: String,
    /// How far the pressure must grow.
    pub growth_margin_tokens: i64,
    /// Whether the last attempt truthfully reduced nothing.
    pub armed: bool,
}

/// What a [`CompactContinuationHysteresis`] stands for.
#[verifier::ext_equal]
pub struct CompactContinuationHysteresisView {
    pub last_attempt_id: Seq<char>,
    pub last_pressure_tokens: i64,
    pub last_reduced: bool,
    pub last_outcome: Seq<char>,
    pub growth_margin_tokens: i64,
    pub armed: bool,
}

impl View for CompactContinuationHysteresis {
    type V = CompactContinuationHysteresisView;

    open spec fn view(&self) -> CompactContinuationHysteresisView {
        CompactContinuationHysteresisView {
            last_attempt_id: self.last_attempt_id.deep_view(),
            last_pressure_tokens: self.last_pressure_tokens.deep_view(),
            last_reduced: self.last_reduced.deep_view(),
            last_outcome: self.last_outcome.deep_view(),
            growth_margin_tokens: self.growth_margin_tokens.deep_view(),
            armed: self.armed.deep_view(),
        }
    }
}

impl DeepView for CompactContinuationHysteresis {
    type V = CompactContinuationHysteresisView;

    open spec fn deep_view(&self) -> CompactContinuationHysteresisView {
        self@
    }
}

impl Clone for CompactContinuationHysteresis {
    fn clone(&self) -> (r: Self)
        ensures
            r@ == self@,
            r.deep_view() == self.deep_view(),
    {
        CompactContinuationHysteresis {
            last_attempt_id: self.last_attempt_id.clone(),
            last_pressure_tokens: self.last_pressure_tokens,
            last_reduced: self.last_reduced,
            last_outcome: self.last_outcome.clone(),
            growth_margin_tokens: self.growth_margin_tokens,
            armed: self.armed,
        }
    }
}

// ---------------------------------------------------------------------------
// Usage
// ---------------------------------------------------------------------------

/// A number, but not less than 0.
pub open spec fn at_least_zero(n: i64) -> i64 {
    if n < 0 {
        0
    } else {
        n
    }
}

fn floor_zero(n: i64) -> (r: i64)
    ensures
        r == at_least_zero(n),
{
    if n < 0 {
        0
    } else {
        n
    }
}

/// The smaller of two numbers.
pub open spec fn smaller(a: i64, b: i64) -> i64 {
    if a < b {
        a
    } else {
        b
    }
}

/// A usage split into what was read from a cache, what was written to one, and
/// the rest.
pub open spec fn usage_split(usage: TokenUsageView) -> ProviderUsageAvailableView {
    let total = at_least_zero(usage.input_tokens);
    let read = smaller(at_least_zero(usage.cached_input_tokens), total);
    let write = smaller(at_least_zero(usage.cache_write_input_tokens), (total - read) as i64);
    ProviderUsageAvailableView {
        available: true,
        input_tokens: (total - read - write) as i64,
        cache_creation_tokens: write,
        cache_read_tokens: read,
        total,
        domain: "provider_reported_input"@,
    }
}

/// What a provider reported of its input, with no cached token counted twice:
/// the parts add up to the reported total.
pub fn token_usage_to_provider_usage_authority(usage: &TokenUsage) -> (r: ProviderUsageAuthority)
    ensures
        r@ == ProviderUsageAuthorityView::Available(usage_split(usage@)),
        r@ matches ProviderUsageAuthorityView::Available(a) && a.input_tokens
            + a.cache_creation_tokens + a.cache_read_tokens == a.total && a.input_tokens >= 0
            && a.cache_creation_tokens >= 0 && a.cache_read_tokens >= 0,
{
    let total: i64 = floor_zero(usage.input_tokens);
    let cached: i64 = floor_zero(usage.cached_input_tokens);
    let read: i64 = if cached < total {
        cached
    } else {
        total
    };
    let rest: i64 = total - read;
    let written: i64 = floor_zero(usage.cache_write_input_tokens);
    let write: i64 = if written < rest {
        written
    } else {
        rest
    };
    ProviderUsageAuthority::Available(
        ProviderUsageAvailable {
            available: true,
            input_tokens: rest - write,
            cache_creation_tokens: write,
            cache_read_tokens: read,
            total,
            domain: text("provider_reported_input"),
        },
    )
}

/// That a provider reported nothing.
pub fn missing_provider_usage_authority() -> (r: ProviderUsageAuthority)
    ensures
        r@ == ProviderUsageAuthorityView::Unavailable(
            (ProviderUsageUnavailableView {
                available: false,
                reason: ProviderUsageUnavailableReason::Missing,
                domain: "provider_reported_input"@,
            }),
        ),
{
    ProviderUsageAuthority::Unavailable(
        ProviderUsageUnavailable {
            available: false,
            reason: ProviderUsageUnavailableReason::Missing,
            domain: text("provider_reported_input"),
        },
    )
}

/// A sum that stops at the largest number.
pub open spec fn saturating_sum(a: i64, b: i64) -> i64 {
    if a + b > i64::MAX {
        i64::MAX
    } else if a + b < i64::MIN {
        i64::MIN
    } else {
        (a + b) as i64
    }
}

fn add_saturating(a: i64, b: i64) -> (r: i64)
    ensures
        r == saturating_sum(a, b),
{
    match a.checked_add(b) {
        Some(sum) => sum,
        None => if b < 0 {
            i64::MIN
        } else {
            i64::MAX
        },
    }
}

/// How large the next request will be: what was reported, and an estimate of
/// what came behind it.
pub open spec fn pressure_of(usage: ProviderUsageAuthorityView, estimate: i64) -> Option<i64> {
    match usage {
        ProviderUsageAuthorityView::Available(a) => Some(
            saturating_sum(a.total, at_least_zero(estimate)),
        ),
        ProviderUsageAuthorityView::Unavailable(_) => None,
    }
}

/// How large the next request will be; unknown when nothing was reported.
pub fn next_request_pressure(usage: &ProviderUsageAuthority, estimate_tokens: i64) -> (r: Option<
    i64,
>)
    ensures
        r == pressure_of(usage@, estimate_tokens),
{
    match usage {
        ProviderUsageAuthority::Available(a) => Some(
            add_saturating(a.total, floor_zero(estimate_tokens)),
        ),
        ProviderUsageAuthority::Unavailable(_) => None,
    }
}

// ---------------------------------------------------------------------------
// Continuation
// ---------------------------------------------------------------------------

/// The item is the result of call `id`, as far as a result can be correlated.
pub open spec fn is_result_of(item: ResponseItemView, id: Seq<char>) -> bool {
    match item {
        ResponseItemView::FunctionCallOutput { call_id, .. } => call_id == Some(id),
        ResponseItemView::CustomToolCallOutput { call_id, .. } => call_id == id,
        _ => false,
    }
}

/// Some item is the result of call `id`.
pub open spec fn has_result(items: Seq<ResponseItemView>, id: Seq<char>) -> bool {
    exists|k: int| 0 <= k < items.len() && is_result_of(#[trigger] items[k], id)
}

/// The first identity in order, among the first `n` that are not empty and,
/// where `settled`, have a result.
pub open spec fn first_id(
    ids: Seq<Seq<char>>,
    items: Seq<ResponseItemView>,
    settled: bool,
    n: int,
) -> Option<Seq<char>>
    decreases n,
{
    if n <= 0 {
        None
    } else {
        let before = first_id(ids, items, settled, n - 1);
        let id = ids[n - 1];
        if id.len() == 0 || (settled && !has_result(items, id)) {
            before
        } else {
            match before {
                Some(b) => if stands_before(id, b) {
                    Some(id)
                } else {
                    before
                },
                None => Some(id),
            }
        }
    }
}

/// How the work goes on behind a response that made the calls `ids`.
pub open spec fn continuation_of(
    ids: Seq<Seq<char>>,
    items: Seq<ResponseItemView>,
    follow_up: bool,
) -> WorkContinuationView {
    if !follow_up {
        WorkContinuationView::Idle
    } else {
        match first_id(ids, items, false, ids.len() as int) {
            None => WorkContinuationView::ActiveNonTool,
            Some(first) => WorkContinuationView::PendingCorrelatedToolResult {
                tool_call_id: first,
                correlation_valid: first_id(ids, items, true, ids.len() as int) is Some,
            },
        }
    }
}

fn holds_result(items: &Vec<ResponseItem>, id: &str) -> (r: bool)
    ensures
        r == has_result(items.deep_view(), id@),
{
    let ghost view = items.deep_view();
    let mut k: usize = 0;
    while k < items.len()
        invariant
            k <= items.len(),
            view == items.deep_view(),
            forall|j: int| 0 <= j < k ==> !is_result_of(#[trigger] view[j], id@),
        decreases items.len() - k,
    {
        assert(view[k as int] == items@[k as int]@);
        let own = match &items[k] {
            ResponseItem::FunctionCallOutput { call_id, .. } => match call_id {
                Some(c) => text_eq(c.as_str(), id),
                None => false,
            },
            ResponseItem::CustomToolCallOutput { call_id, .. } => text_eq(call_id.as_str(), id),
            _ => false,
        };
        if own {
            assert(is_result_of(view[k as int], id@));
            return true;
        }
        k = k + 1;
    }
    false
}

fn find_first_id(ids: &Vec<String>, items: &Vec<ResponseItem>, settled: bool) -> (r: Option<String>)
    ensures
        r.deep_view() == first_id(ids.deep_view(), items.deep_view(), settled, ids.len() as int),
{
    let ghost view = ids.deep_view();
    let ghost item_view = items.deep_view();
    let mut best: Option<String> = None;
    let mut i: usize = 0;
    while i < ids.len()
        invariant
            i <= ids.len(),
            view == ids.deep_view(),
            item_view == items.deep_view(),
            best.deep_view() == first_id(view, item_view, settled, i as int),
        decreases ids.len() - i,
    {
        let id = &ids[i];
        assert(view[i as int] == id@);
        if id.as_str().unicode_len() > 0 && (!settled || holds_result(items, id.as_str())) {
            let better = match &best {
                Some(b) => is_before(id.as_str(), b.as_str()),
                None => true,
            };
            if better {
                best = Some(id.clone());
            }
        }
        i = i + 1;
    }
    best
}

/// How the work goes on in the middle of a turn. The calls must be those of the
/// response that was just completed; the history only tells whether any of them
/// has a result. Of several calls the first in order stands for all.
pub fn work_continuation_for_mid_turn(
    response_tool_call_ids: &Vec<String>,
    history_items: &Vec<ResponseItem>,
    total_needs_follow_up: bool,
) -> (r: WorkContinuation)
    ensures
        r@ == continuation_of(
            response_tool_call_ids.deep_view(),
            history_items.deep_view(),
            total_needs_follow_up,
        ),
{
    if !total_needs_follow_up {
        return WorkContinuation::Idle;
    }
    match find_first_id(response_tool_call_ids, history_items, false) {
        None => WorkContinuation::ActiveNonTool,
        Some(tool_call_id) => WorkContinuation::PendingCorrelatedToolResult {
            tool_call_id,
            correlation_valid: find_first_id(
                response_tool_call_ids,
                history_items,
                true,
            ).is_some(),
        },
    }
}

/// The model made the item.
pub open spec fn is_model_made(item: ResponseItemView) -> bool {
    match item {
        ResponseItemView::Message { role, .. } => role == "assistant"@,
        ResponseItemView::Reasoning { .. } => true,
        ResponseItemView::FunctionCall { .. } => true,
        ResponseItemView::ToolSearchCall { .. } => true,
        ResponseItemView::WebSearchCall { .. } => true,
        ResponseItemView::ImageGenerationCall { .. } => true,
        ResponseItemView::CustomToolCall { .. } => true,
        ResponseItemView::LocalShellCall { .. } => true,
        ResponseItemView::Compaction { .. } => true,
        ResponseItemView::ContextCompaction { .. } => true,
        _ => false,
    }
}

fn is_model_generated_item(item: &ResponseItem) -> (r: bool)
    ensures
        r == is_model_made(item@),
{
    match item {
        ResponseItem::Message { role, .. } => text_eq(role.as_str(), "assistant"),
        ResponseItem::Reasoning { .. } => true,
        ResponseItem::FunctionCall { .. } => true,
        ResponseItem::ToolSearchCall { .. } => true,
        ResponseItem::WebSearchCall { .. } => true,
        ResponseItem::ImageGenerationCall { .. } => true,
        ResponseItem::CustomToolCall { .. } => true,
        ResponseItem::LocalShellCall { .. } => true,
        ResponseItem::Compaction { .. } => true,
        ResponseItem::ContextCompaction { .. } => true,
        _ => false,
    }
}

/// The call that an item makes.
pub open spec fn call_made(item: ResponseItemView) -> Option<Seq<char>> {
    match item {
        ResponseItemView::FunctionCall { call_id, .. } => Some(call_id),
        ResponseItemView::CustomToolCall { call_id, .. } => Some(call_id),
        ResponseItemView::LocalShellCall { call_id, .. } => call_id,
        ResponseItemView::ToolSearchCall { call_id, .. } => call_id,
        _ => None,
    }
}

fn tool_call_id_of(item: &ResponseItem) -> (r: Option<String>)
    ensures
        r.deep_view() == call_made(item@),
{
    match item {
        ResponseItem::FunctionCall { call_id, .. } => Some(call_id.clone()),
        ResponseItem::CustomToolCall { call_id, .. } => Some(call_id.clone()),
        ResponseItem::LocalShellCall { call_id, .. } => call_id.clone(),
        ResponseItem::ToolSearchCall { call_id, .. } => call_id.clone(),
        _ => None,
    }
}

/// Where the last item of the model among the first `n` ends; 0 when there is none.
pub open spec fn model_end(items: Seq<ResponseItemView>, n: int) -> int
    decreases n,
{
    if n <= 0 {
        0
    } else if is_model_made(items[n - 1]) {
        n
    } else {
        model_end(items, n - 1)
    }
}

/// Where the run of items of the model that ends at `n` begins.
pub open spec fn model_begin(items: Seq<ResponseItemView>, n: int) -> int
    decreases n,
{
    if n > 0 && is_model_made(items[n - 1]) {
        model_begin(items, n - 1)
    } else {
        n
    }
}

/// The calls that the items `from` to `n` make, but those without an identity.
pub open spec fn calls_between(items: Seq<ResponseItemView>, from: int, n: int) -> Seq<Seq<char>>
    decreases n - from,
{
    if n <= from {
        Seq::empty()
    } else {
        let before = calls_between(items, from, n - 1);
        match call_made(items[n - 1]) {
            Some(id) => if id.len() == 0 {
                before
            } else {
                before.push(id)
            },
            None => before,
        }
    }
}

/// The calls of the last run of items of the model.
pub open spec fn last_calls(items: Seq<ResponseItemView>) -> Seq<Seq<char>> {
    let end = model_end(items, items.len() as int);
    calls_between(items, model_begin(items, end), end)
}

/// How the work goes on, judging by the end of a history alone.
pub fn work_continuation_from_history_tail(
    items: &Vec<ResponseItem>,
    total_needs_follow_up: bool,
) -> (r: WorkContinuation)
    ensures
        r@ == continuation_of(
            last_calls(items.deep_view()),
            items.deep_view(),
            total_needs_follow_up,
        ),
{
    let ghost view = items.deep_view();
    let mut end: usize = items.len();
    while end > 0 && !is_model_generated_item(&items[end - 1])
        invariant
            end <= items.len(),
            view == items.deep_view(),
            model_end(view, items.len() as int) == model_end(view, end as int),
        decreases end,
    {
        assert(view[end - 1] == items@[end - 1]@);
        end = end - 1;
    }
    assert(end > 0 ==> view[end - 1] == items@[end - 1]@);
    let mut begin: usize = end;
    while begin > 0 && is_model_generated_item(&items[begin - 1])
        invariant
            begin <= end <= items.len(),
            view == items.deep_view(),
            model_begin(view, end as int) == model_begin(view, begin as int),
        decreases begin,
    {
        assert(view[begin - 1] == items@[begin - 1]@);
        begin = begin - 1;
    }
    assert(begin > 0 ==> view[begin - 1] == items@[begin - 1]@);
    let mut ids: Vec<String> = Vec::new();
    assert(ids.deep_view() =~= Seq::<Seq<char>>::empty());
    let mut i: usize = begin;
    while i < end
        invariant
            begin <= i <= end <= items.len(),
            view == items.deep_view(),
            ids.deep_view() == calls_between(view, begin as int, i as int),
        decreases end - i,
    {
        let ghost before = ids.deep_view();
        assert(view[i as int] == items@[i as int]@);
        if let Some(id) = tool_call_id_of(&items[i]) {
            if id.as_str().unicode_len() > 0 {
                let ghost id_view = id@;
                ids.push(id);
                assert(ids.deep_view() =~= before.push(id_view));
            }
        }
        i = i + 1;
    }
    work_continuation_for_mid_turn(&ids, items, total_needs_follow_up)
}

// ---------------------------------------------------------------------------
// Facts
// ---------------------------------------------------------------------------

/// A turn that is settled: the response is complete and the next request not sent.
pub open spec fn settled_seam(decision: i64, apply: i64, retry: bool, flushed: bool) ->
    CompactContinuationSeamView {
    CompactContinuationSeamView {
        model_response_complete: true,
        requested_tools_settled: true,
        capture_flushed: flushed,
        before_next_provider_request: true,
        inside_transport_retry: retry,
        input_epoch_at_decision: decision,
        input_epoch_at_apply: apply,
    }
}

/// A turn that is settled: the response is complete and the next request not sent.
pub fn settled_mid_turn_seam(
    input_epoch_at_decision: i64,
    input_epoch_at_apply: i64,
    inside_transport_retry: bool,
    capture_flushed: bool,
) -> (r: CompactContinuationSeam)
    ensures
        r@ == settled_seam(
            input_epoch_at_decision,
            input_epoch_at_apply,
            inside_transport_retry,
            capture_flushed,
        ),
{
    CompactContinuationSeam {
        model_response_complete: true,
        requested_tools_settled: true,
        capture_flushed,
        before_next_provider_request: true,
        inside_transport_retry,
        input_epoch_at_decision,
        input_epoch_at_apply,
    }
}

/// What the host tells the runtime of an attempt.
pub open spec fn facts_of(req: MidTurnCompactContinuationRequestView) ->
    CompactContinuationHostFactsView {
    CompactContinuationHostFactsView {
        attempt_id: req.attempt_id,
        seam: settled_seam(
            req.input_epoch_at_decision,
            req.input_epoch_at_apply,
            req.inside_transport_retry,
            req.capture_complete,
        ),
        provider_usage: req.provider_usage,
        post_measurement_estimate: PostMeasurementEstimateView {
            tokens: at_least_zero(req.post_measurement_tokens),
            source: POST_MEASUREMENT_SOURCE@,
            domain: "source_labelled_estimate"@,
        },
        policy: CompactContinuationPolicyView {
            upper_trigger_tokens: at_least_zero(req.upper_trigger_tokens),
            lower_target_tokens: at_least_zero(req.lower_target_tokens),
            host_capability: CompactContinuationHostCapability::FullStateMachine,
        },
        continuation: req.continuation,
        writer_claim: req.writer_claim,
        capture_complete: req.capture_complete,
        provider_identity_valid: req.provider_identity_valid,
        single_open_turn: Some(true),
        actor: COMPACT_CONTINUATION_ACTOR@,
        harness: HARNESS@,
        compact: req.compact,
    }
}

/// What the host tells the runtime of an attempt.
pub fn build_host_facts(req: &MidTurnCompactContinuationRequest) -> (r:
    CompactContinuationHostFacts)
    ensures
        r@ == facts_of(req@),
{
    CompactContinuationHostFacts {
        attempt_id: req.attempt_id.clone(),
        seam: settled_mid_turn_seam(
            req.input_epoch_at_decision,
            req.input_epoch_at_apply,
            req.inside_transport_retry,
            req.capture_complete,
        ),
        provider_usage: req.provider_usage.clone(),
        post_measurement_estimate: PostMeasurementEstimate {
            tokens: floor_zero(req.post_measurement_tokens),
            source: text(POST_MEASUREMENT_SOURCE),
            domain: text("source_labelled_estimate"),
        },
        policy: CompactContinuationPolicy {
            upper_trigger_tokens: floor_zero(req.upper_trigger_tokens),
            lower_target_tokens: floor_zero(req.lower_target_tokens),
            host_capability: CompactContinuationHostCapability::FullStateMachine,
        },
        continuation: req.continuation.clone(),
        writer_claim: req.writer_claim.clone(),
        capture_complete: req.capture_complete,
        provider_identity_valid: req.provider_identity_valid,
        single_open_turn: Some(true),
        actor: text(COMPACT_CONTINUATION_ACTOR),
        harness: text(HARNESS),
        compact: req.compact.clone(),
    }
}

/// The file of a thread below a root, where `layout` says how files are laid
/// out; none without a root.
pub fn thread_sqlite_path<F: Fn(&str, &str) -> String>(
    thread_id: &str,
    root: Option<&str>,
    layout: &F,
) -> (r: Option<String>)
    requires
        forall|a: &str, b: &str| #[trigger] layout.requires((a, b)),
    ensures
        r is Some <==> root is Some,
        root matches Some(base) ==> layout.ensures((base, thread_id), r->0),
{
    match root {
        Some(base) => Some(layout(base, thread_id)),
        None => None,
    }
}

// ---------------------------------------------------------------------------
// Outcome
// ---------------------------------------------------------------------------

/// Why an attempt cannot begin: there is no file of the thread to work on.
pub open spec fn attempt_error(path: Option<Seq<char>>, exists_on_disk: bool) -> Option<Seq<char>> {
    match path {
        None => Some("LHC root missing; cannot open compact-continuation thread"@),
        Some(p) => if exists_on_disk {
            None
        } else {
            Some("LHC thread file missing for compact-continuation: "@ + p)
        },
    }
}

/// The file to work on, `exists_on_disk` saying whether it is there.
pub fn attempt_path(path: Option<String>, exists_on_disk: bool) -> (r: Result<String, String>)
    ensures
        match r {
            Ok(p) => path.deep_view() == Some(p@) && attempt_error(path.deep_view(), exists_on_disk)
                is None,
            Err(e) => attempt_error(path.deep_view(), exists_on_disk) == Some(e@),
        },
{
    match path {
        None => Err(text("LHC root missing; cannot open compact-continuation thread")),
        Some(p) => if exists_on_disk {
            Ok(p)
        } else {
            let mut e = text("LHC thread file missing for compact-continuation: ");
            e.append(p.as_str());
            Err(e)
        },
    }
}

/// The error of an attempt that the runtime could not make.
pub fn attempt_failure(code: &str, reason: &str) -> (r: String)
    ensures
        r@ == "compact_continuation "@ + code@ + ": "@ + reason@,
{
    let mut s = text("compact_continuation ");
    s.append(code);
    s.append(": ");
    s.append(reason);
    s
}

/// A new view was installed: there is a receipt, and it was decided to.
pub open spec fn was_installed(run: CompactContinuationRunResultView) -> bool {
    run.has_compact_receipt && run.effects.contains("install_serving_view"@)
}

/// The outcome is one that leaves the view as it was.
pub open spec fn is_idle_outcome(outcome: Seq<char>) -> bool {
    outcome == "no_reduction"@ || outcome == "skip_seam"@ || outcome == "refuse"@ || outcome
        == "continue_normal"@ || outcome == "normal_complete"@
}

/// What an attempt means for the host.
pub open spec fn outcome_of(run: CompactContinuationRunResultView) ->
    MidTurnCompactContinuationOutcomeView {
    MidTurnCompactContinuationOutcomeView {
        run,
        next_provider_request_allowed: run.next_provider_request_allowed,
        installed: was_installed(run),
        reduced: was_installed(run) && !is_idle_outcome(run.outcome),
        outcome_kind: run.outcome,
        refuse_code: run.refuse_code,
        skip_code: run.skip_code,
        reason_code: run.reason_code,
        marker_persisted: run.marker_persisted,
        continuation_turn_id: run.continuation_turn_id,
    }
}

/// What an attempt means for the host.
pub fn mid_turn_outcome(run: CompactContinuationRunResult) -> (r:
    MidTurnCompactContinuationOutcome)
    ensures
        r@ == outcome_of(run@),
{
    let installed = run.has_compact_receipt && holds_text(&run.effects, "install_serving_view");
    let kind = run.outcome.as_str();
    let idle = text_eq(kind, "no_reduction") || text_eq(kind, "skip_seam") || text_eq(
        kind,
        "refuse",
    ) || text_eq(kind, "continue_normal") || text_eq(kind, "normal_complete");
    MidTurnCompactContinuationOutcome {
        next_provider_request_allowed: run.next_provider_request_allowed,
        installed,
        reduced: installed && !idle,
        outcome_kind: run.outcome.clone(),
        refuse_code: run.refuse_code.clone(),
        skip_code: run.skip_code.clone(),
        reason_code: run.reason_code.clone(),
        marker_persisted: run.marker_persisted,
        continuation_turn_id: run.continuation_turn_id.clone(),
        run,
    }
}

impl MidTurnCompactContinuationOutcome {
    /// Whether the host must rewrite its rollout: a new view was installed, and
    /// the next request may go out.
    pub fn should_rewrite_host_rollout(&self) -> (r: bool)
        ensures
            r == (self@.installed && self@.next_provider_request_allowed),
    {
        self.installed && self.next_provider_request_allowed
    }
}

// ---------------------------------------------------------------------------
// Hysteresis
// ---------------------------------------------------------------------------

/// The outcome says truthfully that nothing was reduced.
pub open spec fn is_truthful_no_reduction(outcome: Seq<char>) -> bool {
    outcome == "no_reduction"@ || outcome == "terminal_no_reduction"@ || outcome
        == "dry_relief_no_reduction"@
}

fn is_truthful_no_reduction_outcome(outcome: &str) -> (r: bool)
    ensures
        r == is_truthful_no_reduction(outcome@),
{
    text_eq(outcome, "no_reduction") || text_eq(outcome, "terminal_no_reduction") || text_eq(
        outcome,
        "dry_relief_no_reduction",
    )
}

/// The guard behind an attempt that reduced something.
pub open spec fn cleared(
    h: CompactContinuationHysteresisView,
    attempt_id: Seq<char>,
    pressure: i64,
    outcome: Seq<char>,
) -> CompactContinuationHysteresisView {
    CompactContinuationHysteresisView {
        last_attempt_id: attempt_id,
        last_pressure_tokens: pressure,
        last_reduced: true,
        last_outcome: outcome,
        armed: false,
        ..h
    }
}

/// The guard behind an attempt.
pub open spec fn recorded(
    h: CompactContinuationHysteresisView,
    attempt_id: Seq<char>,
    pressure: i64,
    reduced: bool,
    outcome: Seq<char>,
) -> CompactContinuationHysteresisView {
    if reduced {
        cleared(h, attempt_id, pressure, outcome)
    } else if is_truthful_no_reduction(outcome) {
        CompactContinuationHysteresisView {
            last_attempt_id: attempt_id,
            last_pressure_tokens: pressure,
            last_reduced: false,
            last_outcome: outcome,
            armed: true,
            ..h
        }
    } else {
        h
    }
}

/// Another attempt is warranted.
pub open spec fn may_attempt(h: CompactContinuationHysteresisView, pressure: i64) -> bool {
    !h.armed || pressure >= saturating_sum(h.last_pressure_tokens, h.growth_margin_tokens)
}

/// The guard before any attempt.
pub open spec fn fresh_guard() -> CompactContinuationHysteresisView {
    CompactContinuationHysteresisView {
        last_attempt_id: Seq::empty(),
        last_pressure_tokens: 0,
        last_reduced: true,
        last_outcome: Seq::empty(),
        growth_margin_tokens: DEFAULT_HYSTERESIS_GROWTH_MARGIN_TOKENS,
        armed: false,
    }
}

impl Default for CompactContinuationHysteresis {
    fn default() -> (r: Self)
        ensures
            r@ == fresh_guard(),
    {
        let last_attempt_id = String::new();
        let last_outcome = String::new();
        assert(last_attempt_id@ =~= Seq::<char>::empty());
        assert(last_outcome@ =~= Seq::<char>::empty());
        CompactContinuationHysteresis {
            last_attempt_id,
            last_pressure_tokens: 0,
            last_reduced: true,
            last_outcome,
            growth_margin_tokens: DEFAULT_HYSTERESIS_GROWTH_MARGIN_TOKENS,
            armed: false,
        }
    }
}

impl CompactContinuationHysteresis {
    /// The guard with another margin; none below 0.
    pub fn with_growth_margin(self, margin: i64) -> (r: Self)
        ensures
            r@ == (CompactContinuationHysteresisView {
                growth_margin_tokens: at_least_zero(margin),
                ..self@
            }),
    {
        CompactContinuationHysteresis {
            last_attempt_id: self.last_attempt_id,
            last_pressure_tokens: self.last_pressure_tokens,
            last_reduced: self.last_reduced,
            last_outcome: self.last_outcome,
            growth_margin_tokens: floor_zero(margin),
            armed: self.armed,
        }
    }

    /// Whether another attempt is warranted under the pressure that is measured
    /// now. Behind an attempt that truthfully reduced nothing the pressure must
    /// have grown by the margin.
    pub fn should_attempt_after_no_reduction(&self, next_pressure_tokens: i64) -> (r: bool)
        ensures
            r == may_attempt(self@, next_pressure_tokens),
    {
        !self.armed || next_pressure_tokens >= add_saturating(
            self.last_pressure_tokens,
            self.growth_margin_tokens,
        )
    }

    /// Takes an attempt down. Only a truthful no-reduction arms the guard and
    /// only a reduction disarms it; a skip, a refusal or any other outcome
    /// leaves it as it is.
    pub fn record(&mut self, attempt_id: &str, pressure: i64, reduced: bool, outcome: &str)
        ensures
            final(self)@ == recorded(old(self)@, attempt_id@, pressure, reduced, outcome@),
    {
        if reduced {
            self.clear(attempt_id, pressure, outcome);
            return ;
        }
        if is_truthful_no_reduction_outcome(outcome) {
            self.last_attempt_id = text(attempt_id);
            self.last_pressure_tokens = pressure;
            self.last_reduced = false;
            self.last_outcome = text(outcome);
            self.armed = true;
        }
    }

    /// Disarms the guard behind an attempt that reduced something.
    pub fn clear(&mut self, attempt_id: &str, pressure: i64, outcome: &str)
        ensures
            final(self)@ == cleared(old(self)@, attempt_id@, pressure, outcome@),
    {
        self.last_attempt_id = text(attempt_id);
        self.last_pressure_tokens = pressure;
        self.last_reduced = true;
        self.last_outcome = text(outcome);
        self.armed = false;
    }
}

// ---------------------------------------------------------------------------
// Laws
// ---------------------------------------------------------------------------

/// Behind a truthful no-reduction no attempt is made under the same pressure,
/// and one is made once the pressure has grown by the margin.
pub proof fn no_reduction_waits_for_growth(
    h: CompactContinuationHysteresisView,
    attempt_id: Seq<char>,
    pressure: i64,
    outcome: Seq<char>,
    next: i64,
)
    requires
        is_truthful_no_reduction(outcome),
        h.growth_margin_tokens > 0,
        pressure + h.growth_margin_tokens <= i64::MAX,
    ensures
        may_attempt(recorded(h, attempt_id, pressure, false, outcome), next) <==> next >= pressure
            + h.growth_margin_tokens,
        !may_attempt(recorded(h, attempt_id, pressure, false, outcome), pressure),
{
}

/// An outcome that is no truthful no-reduction never holds a later attempt back
/// that was not held back already.
pub proof fn other_outcomes_do_not_suppress(
    h: CompactContinuationHysteresisView,
    attempt_id: Seq<char>,
    pressure: i64,
    reduced: bool,
    outcome: Seq<char>,
    next: i64,
)
    requires
        !is_truthful_no_reduction(outcome) || reduced,
        may_attempt(h, next),
    ensures
        may_attempt(recorded(h, attempt_id, pressure, reduced, outcome), next),
{
}

/// A reduction clears the way for the next attempt, whatever came before.
pub proof fn reduction_clears_the_way(
    h: CompactContinuationHysteresisView,
    attempt_id: Seq<char>,
    pressure: i64,
    outcome: Seq<char>,
    next: i64,
)
    ensures
        may_attempt(recorded(h, attempt_id, pressure, true, outcome), next),
{
}

/// The parts of a usage add up to what was reported.
pub proof fn usage_is_split_exactly(usage: TokenUsageView)
    ensures
        ({
            let s = usage_split(usage);
            &&& s.input_tokens + s.cache_creation_tokens + s.cache_read_tokens == s.total
            &&& s.total == at_least_zero(usage.input_tokens)
            &&& s.input_tokens >= 0
            &&& s.cache_creation_tokens >= 0
            &&& s.cache_read_tokens >= 0
        }),
{
}

proof fn lemma_first_id_of_all(
    ids: Seq<Seq<char>>,
    a: Seq<ResponseItemView>,
    b: Seq<ResponseItemView>,
    n: int,
)
    ensures
        first_id(ids, a, false, n) == first_id(ids, b, false, n),
    decreases n,
{
    if n > 0 {
        lemma_first_id_of_all(ids, a, b, n - 1);
    }
}

/// Which call stands for a response depends on its calls alone: whatever results
/// the history holds by then, a retry takes the same call.
pub proof fn retries_take_the_same_call(
    ids: Seq<Seq<char>>,
    a: Seq<ResponseItemView>,
    b: Seq<ResponseItemView>,
)
    ensures
        match continuation_of(ids, a, true) {
            WorkContinuationView::PendingCorrelatedToolResult { tool_call_id: id, .. } =>
                continuation_of(ids, b, true) matches
                WorkContinuationView::PendingCorrelatedToolResult { tool_call_id, .. }
                && tool_call_id == id,
            other => continuation_of(ids, b, true) == other,
        },
{
    lemma_first_id_of_all(ids, a, b, ids.len() as int);
}

/// The first identity in order is one of those looked at, and none of these
/// stands before it.
pub proof fn first_id_is_the_smallest(
    ids: Seq<Seq<char>>,
    items: Seq<ResponseItemView>,
    settled: bool,
    n: int,
)
    requires
        0 <= n <= ids.len(),
    ensures
        match first_id(ids, items, settled, n) {
            Some(b) => {
                &&& b.len() > 0
                &&& settled ==> has_result(items, b)
                &&& ids.contains(b)
                &&& forall|k: int|
                    0 <= k < n && (#[trigger] ids[k]).len() > 0 && (settled ==> has_result(
                        items,
                        ids[k],
                    )) ==> !stands_before(ids[k], b)
            },
            None => forall|k: int|
                0 <= k < n ==> (#[trigger] ids[k]).len() == 0 || (settled && !has_result(
                    items,
                    ids[k],
                )),
        },
    decreases n,
{
    if n > 0 {
        first_id_is_the_smallest(ids, items, settled, n - 1);
        let id = ids[n - 1];
        let before = first_id(ids, items, settled, n - 1);
        if id.len() > 0 && (settled ==> has_result(items, id)) {
            order_is_strict(id, id);
            if let Some(b) = before {
                order_is_strict(id, b);
                let r = first_id(ids, items, settled, n)->0;
                assert forall|k: int|
                    0 <= k < n && (#[trigger] ids[k]).len() > 0 && (settled ==> has_result(
                        items,
                        ids[k],
                    )) implies !stands_before(ids[k], r) by {
                    if k < n - 1 {
                        assert(!stands_before(ids[k], b));
                        if r == id {
                            lemma_order_transitive(id, b, ids[k]);
                        }
                    }
                }
            }
        }
    }
}

} // verus!
