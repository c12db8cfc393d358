//! Usage, continuation, hysteresis and outcomes of a compact in the middle of a
//! turn.

use codex_lhc_host::compact_continuation::{
    attempt_failure, attempt_path, build_host_facts, mid_turn_outcome,
    missing_provider_usage_authority, next_request_pressure, settled_mid_turn_seam,
    thread_sqlite_path, token_usage_to_provider_usage_authority, work_continuation_for_mid_turn,
    work_continuation_from_history_tail, CompactContinuationHysteresis,
    CompactContinuationRunResult, MidTurnCompactContinuationRequest, ProviderUsageAuthority,
    WorkContinuation, COMPACT_CONTINUATION_ACTOR, DEFAULT_LOWER_TARGET_TOKENS,
    POST_MEASUREMENT_SOURCE,
};
use codex_lhc_host::json::Json;
use codex_lhc_host::protocol::{FunctionCallOutputBody, FunctionCallOutputPayload, ResponseItem};
use codex_lhc_host::records::TokenUsage;

fn usage(input: i64, cached: i64, write: i64) -> TokenUsage {
    TokenUsage {
        input_tokens: input,
        cached_input_tokens: cached,
        cache_write_input_tokens: write,
        output_tokens: 5,
        reasoning_output_tokens: 0,
        total_tokens: input + 5,
        codex_rollout_budget_units: None,
    }
}

fn call(name: &str, id: &str) -> ResponseItem {
    ResponseItem::FunctionCall {
        id: None,
        name: name.into(),
        namespace: None,
        arguments: "{}".into(),
        encrypted_function_args: None,
        call_id: id.into(),
        internal_chat_message_metadata_passthrough: None,
    }
}

fn output(id: &str, body: &str) -> ResponseItem {
    ResponseItem::FunctionCallOutput {
        id: None,
        call_id: Some(id.into()),
        name: None,
        namespace: None,
        output: FunctionCallOutputPayload {
            body: FunctionCallOutputBody::Text(body.into()),
            success: Some(true),
        },
        internal_chat_message_metadata_passthrough: None,
    }
}

fn assistant() -> ResponseItem {
    ResponseItem::Message {
        id: None,
        role: "assistant".into(),
        content: vec![],
        phase: None,
        internal_chat_message_metadata_passthrough: None,
    }
}

#[test]
fn usage_mapping_splits_without_double_counting_cache() {
    let usage = TokenUsage {
        input_tokens: 100,
        cached_input_tokens: 40,
        cache_write_input_tokens: 10,
        output_tokens: 5,
        reasoning_output_tokens: 0,
        total_tokens: 105,
        codex_rollout_budget_units: None,
    };
    let auth = token_usage_to_provider_usage_authority(&usage);
    match auth {
        ProviderUsageAuthority::Available(a) => {
            assert_eq!(a.input_tokens, 50);
            assert_eq!(a.cache_creation_tokens, 10);
            assert_eq!(a.cache_read_tokens, 40);
            assert_eq!(a.total, 100);
            assert_eq!(
                a.input_tokens + a.cache_creation_tokens + a.cache_read_tokens,
                a.total
            );
        }
        ProviderUsageAuthority::Unavailable(_) => panic!("expected available"),
    }
}

#[test]
fn usage_mapping_clamps_when_cache_exceeds_total() {
    let usage = TokenUsage {
        input_tokens: 10,
        cached_input_tokens: 20,
        cache_write_input_tokens: 5,
        output_tokens: 0,
        reasoning_output_tokens: 0,
        total_tokens: 10,
        codex_rollout_budget_units: None,
    };
    let auth = token_usage_to_provider_usage_authority(&usage);
    match auth {
        ProviderUsageAuthority::Available(a) => {
            assert_eq!(a.total, 10);
            assert_eq!(
                a.input_tokens + a.cache_creation_tokens + a.cache_read_tokens,
                a.total
            );
        }
        ProviderUsageAuthority::Unavailable(_) => panic!("expected available"),
    }
}

#[test]
fn parallel_tool_branch_picks_lexicographically_smallest_correlated_id() {
    let items = vec![
        assistant(),
        call("a", "call-b"),
        call("b", "call-a"),
        output("call-b", "b"),
        output("call-a", "a"),
    ];
    match work_continuation_from_history_tail(&items, true) {
        WorkContinuation::PendingCorrelatedToolResult {
            tool_call_id,
            correlation_valid,
        } => {
            assert_eq!(tool_call_id, "call-a");
            assert!(correlation_valid);
        }
        other => panic!("expected pending tool, got {other:?}"),
    }
}

#[test]
fn active_non_tool_when_follow_up_without_tools() {
    let items = vec![assistant()];
    assert_eq!(
        work_continuation_from_history_tail(&items, true),
        WorkContinuation::ActiveNonTool
    );
    assert_eq!(
        work_continuation_from_history_tail(&items, false),
        WorkContinuation::Idle
    );
}

#[test]
fn hysteresis_blocks_until_growth_margin_after_no_reduction() {
    let mut h = CompactContinuationHysteresis::default();
    h.record("a1", 100_000, false, "no_reduction");
    assert!(h.armed);
    assert!(!h.should_attempt_after_no_reduction(100_000));
    assert!(!h.should_attempt_after_no_reduction(109_999));
    assert!(h.should_attempt_after_no_reduction(110_000));
}

#[test]
fn hysteresis_table_truthful_only() {
    let cases = [
        ("no_reduction", false, true, false),
        ("terminal_no_reduction", false, true, false),
        ("dry_relief_no_reduction", false, true, false),
        ("skip_seam", false, false, true),
        ("refuse", false, false, true),
        ("continue_normal", false, false, true),
        ("compact_continue_turn", true, false, true),
        ("degraded_compact", true, false, true),
    ];
    for (outcome, reduced, expect_armed, expect_attempt_same) in cases {
        let mut h = CompactContinuationHysteresis::default();
        h.record("t", 50_000, reduced, outcome);
        assert_eq!(
            h.armed, expect_armed,
            "outcome={outcome} reduced={reduced} armed"
        );
        assert_eq!(
            h.should_attempt_after_no_reduction(50_000),
            expect_attempt_same,
            "outcome={outcome} same-pressure attempt"
        );
    }
}

#[test]
fn hysteresis_clears_on_successful_reduction() {
    let mut h = CompactContinuationHysteresis::default();
    h.record("a1", 100_000, false, "no_reduction");
    assert!(!h.should_attempt_after_no_reduction(100_000));
    h.record("a2", 100_000, true, "compact_continue_turn");
    assert!(!h.armed);
    assert!(h.should_attempt_after_no_reduction(100_000));
}

#[test]
fn hysteresis_skip_does_not_suppress_recovery() {
    let mut h = CompactContinuationHysteresis::default();
    // Prior skip must not arm.
    h.record("skip1", 90_000, false, "skip_seam");
    assert!(!h.armed);
    assert!(h.should_attempt_after_no_reduction(90_000));
    // Capture lag / transport / epoch refuse aliases.
    for outcome in [
        "skip_capture_incomplete",
        "input_epoch_changed",
        "inside_transport_retry",
        "invalid_install",
    ] {
        let mut h = CompactContinuationHysteresis::default();
        h.record("x", 80_000, false, outcome);
        assert!(!h.armed, "{outcome} must not arm hysteresis");
        assert!(h.should_attempt_after_no_reduction(80_000));
    }
}

#[test]
fn pending_tool_uses_response_scoped_ids_not_older_history() {
    let history = vec![
        call("old", "old-call"),
        output("old-call", "old"),
        call("new", "new-call"),
        output("new-call", "new"),
    ];
    match work_continuation_for_mid_turn(
        &vec!["new-call".into()],
        &history,
        /*total_needs_follow_up*/ true,
    ) {
        WorkContinuation::PendingCorrelatedToolResult {
            tool_call_id,
            correlation_valid,
        } => {
            assert_eq!(tool_call_id, "new-call");
            assert!(correlation_valid);
        }
        other => panic!("expected new-call branch, got {other:?}"),
    }
}

#[test]
fn queued_input_only_is_active_non_tool() {
    assert_eq!(
        work_continuation_for_mid_turn(&vec![], &vec![], /*total_needs_follow_up*/ true),
        WorkContinuation::ActiveNonTool
    );
    assert_eq!(
        work_continuation_for_mid_turn(&vec![], &vec![], /*total_needs_follow_up*/ false),
        WorkContinuation::Idle
    );
}

#[test]
fn call_without_a_result_is_pending_but_not_correlated() {
    let ids = vec!["".to_string(), "z".to_string(), "b".to_string()];
    match work_continuation_for_mid_turn(&ids, &vec![], true) {
        WorkContinuation::PendingCorrelatedToolResult {
            tool_call_id,
            correlation_valid,
        } => {
            assert_eq!(tool_call_id, "b");
            assert!(!correlation_valid);
        }
        other => panic!("unexpected {other:?}"),
    }
    // A result of any of them correlates; the first still stands for all.
    match work_continuation_for_mid_turn(&ids, &vec![output("z", "r")], true) {
        WorkContinuation::PendingCorrelatedToolResult {
            tool_call_id,
            correlation_valid,
        } => {
            assert_eq!(tool_call_id, "b");
            assert!(correlation_valid);
        }
        other => panic!("unexpected {other:?}"),
    }
}

#[test]
fn negative_usage_counts_as_none() {
    match token_usage_to_provider_usage_authority(&usage(-4, -1, -1)) {
        ProviderUsageAuthority::Available(a) => {
            assert_eq!(
                (a.input_tokens, a.cache_creation_tokens, a.cache_read_tokens, a.total),
                (0, 0, 0, 0)
            );
            assert_eq!(a.domain, "provider_reported_input");
        }
        other => panic!("unexpected {other:?}"),
    }
}

#[test]
fn pressure_is_the_total_and_the_estimate() {
    let known = token_usage_to_provider_usage_authority(&usage(100, 40, 10));
    assert_eq!(next_request_pressure(&known, 25), Some(125));
    assert_eq!(next_request_pressure(&known, -25), Some(100));
    assert_eq!(next_request_pressure(&known, i64::MAX), Some(i64::MAX));
    assert_eq!(
        next_request_pressure(&missing_provider_usage_authority(), 25),
        None
    );
}

#[test]
fn growth_margin_can_be_set() {
    let mut h = CompactContinuationHysteresis::default().with_growth_margin(-5);
    assert_eq!(h.growth_margin_tokens, 0);
    h.record("a", 10, false, "no_reduction");
    assert!(h.should_attempt_after_no_reduction(10));
    let mut h = CompactContinuationHysteresis::default().with_growth_margin(i64::MAX);
    h.record("a", 10, false, "no_reduction");
    assert!(!h.should_attempt_after_no_reduction(i64::MAX - 1));
    assert!(h.should_attempt_after_no_reduction(i64::MAX));
    h.clear("b", 11, "compacted");
    assert!(!h.armed && h.last_reduced);
    assert_eq!(h.last_outcome, "compacted");
}

fn request() -> MidTurnCompactContinuationRequest {
    MidTurnCompactContinuationRequest {
        thread_id: "t".into(),
        root: None,
        attempt_id: "attempt".into(),
        provider_usage: missing_provider_usage_authority(),
        post_measurement_tokens: -3,
        upper_trigger_tokens: 200_000,
        lower_target_tokens: DEFAULT_LOWER_TARGET_TOKENS,
        continuation: WorkContinuation::ActiveNonTool,
        writer_claim: Json::Text("claim".into()),
        capture_complete: true,
        provider_identity_valid: true,
        input_epoch_at_decision: 3,
        input_epoch_at_apply: 4,
        inside_transport_retry: false,
        compact: None,
        test_hooks: None,
    }
}

#[test]
fn host_facts_carry_the_request() {
    let facts = build_host_facts(&request());
    assert_eq!(facts.attempt_id, "attempt");
    assert_eq!(facts.seam, settled_mid_turn_seam(3, 4, false, true));
    assert_eq!(facts.post_measurement_estimate.tokens, 0);
    assert_eq!(facts.post_measurement_estimate.source, POST_MEASUREMENT_SOURCE);
    assert_eq!(facts.post_measurement_estimate.domain, "source_labelled_estimate");
    assert_eq!(facts.policy.upper_trigger_tokens, 200_000);
    assert_eq!(facts.policy.lower_target_tokens, 120_000);
    assert_eq!(facts.single_open_turn, Some(true));
    assert_eq!(facts.actor, COMPACT_CONTINUATION_ACTOR);
    assert_eq!(facts.harness, "codex");
    assert_eq!(facts.writer_claim, Json::Text("claim".into()));
}

fn run(outcome: &str, receipt: bool, effects: &[&str]) -> CompactContinuationRunResult {
    CompactContinuationRunResult {
        has_compact_receipt: receipt,
        effects: effects.iter().map(|e| e.to_string()).collect(),
        outcome: outcome.into(),
        next_provider_request_allowed: true,
        refuse_code: None,
        skip_code: None,
        reason_code: "r".into(),
        marker_persisted: false,
        continuation_turn_id: None,
    }
}

#[test]
fn only_an_installed_view_reduces() {
    let o = mid_turn_outcome(run("compact_continue_turn", true, &["x", "install_serving_view"]));
    assert!(o.installed && o.reduced && o.should_rewrite_host_rollout());
    let o = mid_turn_outcome(run("compact_continue_turn", false, &["install_serving_view"]));
    assert!(!o.installed && !o.reduced && !o.should_rewrite_host_rollout());
    let o = mid_turn_outcome(run("compact_continue_turn", true, &["other"]));
    assert!(!o.installed && !o.reduced);
    for idle in ["no_reduction", "skip_seam", "refuse", "continue_normal", "normal_complete"] {
        let o = mid_turn_outcome(run(idle, true, &["install_serving_view"]));
        assert!(o.installed && !o.reduced, "{idle}");
    }
}

#[test]
fn attempt_needs_a_file() {
    assert_eq!(
        attempt_path(None, true),
        Err("LHC root missing; cannot open compact-continuation thread".to_string())
    );
    assert_eq!(
        attempt_path(Some("/x".into()), false),
        Err("LHC thread file missing for compact-continuation: /x".to_string())
    );
    assert_eq!(attempt_path(Some("/x".into()), true), Ok("/x".to_string()));
    assert_eq!(
        attempt_failure("writer_lost", "gone"),
        "compact_continuation writer_lost: gone"
    );
}

#[test]
fn thread_file_needs_a_root() {
    let layout = |root: &str, thread: &str| format!("{root}/threads/{thread}");
    assert_eq!(thread_sqlite_path("t", None, &layout), None);
    assert_eq!(
        thread_sqlite_path("t", Some("/r"), &layout),
        Some("/r/threads/t".to_string())
    );
}

#[test]
fn retry_takes_the_same_call_whatever_has_settled() {
    let ids = vec!["call-b".to_string(), "call-a".to_string()];
    for (history, settled) in [
        (vec![], false),
        (vec![output("call-b", "b")], true),
        (vec![output("call-b", "b"), output("call-a", "a")], true),
    ] {
        assert_eq!(
            work_continuation_for_mid_turn(&ids, &history, true),
            WorkContinuation::PendingCorrelatedToolResult {
                tool_call_id: "call-a".into(),
                correlation_valid: settled,
            }
        );
    }
}
