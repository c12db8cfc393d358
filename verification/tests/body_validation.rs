//! What the next request may hold, and what is done when it may not.

use codex_lhc_host::body_degrade::{degrade_body_to_best_available, TRUNCATION_MARKER};
use codex_lhc_host::body_validation::{
    capture_body_expectations, client_call_id, estimate_response_items_tokens,
    graft_live_protected_pairs, item_bytes_without_id, output_call_id, validate_next_request_body,
    BodyDegradationKind, BodyValidationSpec, DegradedBody,
};
use codex_lhc_host::idempotency::OccurrenceTracker;
use codex_lhc_host::mapping::map_item;
use codex_lhc_host::protocol::{
    FunctionCallOutputBody, FunctionCallOutputContentItem, FunctionCallOutputPayload, ResponseItem,
};
use codex_lhc_host::records::RawItemProvenance;
use codex_lhc_host::rollout::{CompactedItem, RolloutItem};
use codex_lhc_host::wire::Wire;

fn tokens(s: &str) -> i64 {
    (s.chars().count() as i64 + 3) / 4
}

fn call(id: &str, args: &str) -> ResponseItem {
    ResponseItem::FunctionCall {
        id: None,
        name: "tool".into(),
        namespace: None,
        arguments: args.into(),
        encrypted_function_args: None,
        call_id: id.into(),
        internal_chat_message_metadata_passthrough: None,
    }
}

fn output(id: &str, body: &str) -> ResponseItem {
    ResponseItem::FunctionCallOutput {
        id: None,
        call_id: Some(id.into()),
        name: None,
        namespace: None,
        output: FunctionCallOutputPayload {
            body: FunctionCallOutputBody::Text(body.into()),
            success: Some(true),
        },
        internal_chat_message_metadata_passthrough: None,
    }
}

fn spec_for(live: &Vec<ResponseItem>, ids: &[&str], threshold: Option<i64>) -> BodyValidationSpec {
    let ids: Vec<String> = ids.iter().map(ToString::to_string).collect();
    let (pairs, reasoning) = capture_body_expectations(live, &ids);
    BodyValidationSpec {
        attempt_id: "a1".into(),
        protected_tool_call_ids: ids,
        protected_pairs: pairs,
        required_encrypted_reasoning: reasoning,
        safe_runway_threshold_tokens: threshold,
    }
}

#[test]
fn valid_body_passes_and_reports_size() {
    let live = vec![call("c1", "{\"p\":1}"), output("c1", "r1")];
    let spec = spec_for(&live, &["c1"], Some(100_000));
    let report = validate_next_request_body(&live, &spec, &tokens).expect("valid");
    assert_eq!(report.protected_pair_count, 1);
    assert!(report.body_token_estimate > 0);
}

#[test]
fn missing_protected_output_fails() {
    let live = vec![call("c1", "{}"), output("c1", "r1")];
    let spec = spec_for(&live, &["c1"], None);
    let body = vec![call("c1", "{}")];
    let err = validate_next_request_body(&body, &spec, &tokens).unwrap_err();
    assert!(err.contains("without output"), "{err}");
}

#[test]
fn altered_protected_output_fails_byte_stability() {
    let live = vec![call("c1", "{}"), output("c1", "original")];
    let spec = spec_for(&live, &["c1"], None);
    let body = vec![call("c1", "{}"), output("c1", "altered")];
    let err = validate_next_request_body(&body, &spec, &tokens).unwrap_err();
    assert!(err.contains("not byte-stable"), "{err}");
}

#[test]
fn orphan_output_fails() {
    let live = vec![call("c1", "{}"), output("c1", "r")];
    let spec = spec_for(&live, &["c1"], None);
    let body = vec![call("c1", "{}"), output("c1", "r"), output("ghost", "x")];
    let err = validate_next_request_body(&body, &spec, &tokens).unwrap_err();
    assert!(err.contains("orphan"), "{err}");
}

#[test]
fn oversized_body_fails_threshold() {
    let live = vec![call("c1", "{}"), output("c1", &"tok ".repeat(500))];
    let spec = spec_for(&live, &["c1"], Some(10));
    let err = validate_next_request_body(&live, &spec, &tokens).unwrap_err();
    assert!(err.contains("safe-runway"), "{err}");
}

#[test]
fn id_differences_do_not_break_byte_stability() {
    let live = vec![call("c1", "{\"x\":2}"), output("c1", "r")];
    let spec = spec_for(&live, &["c1"], None);
    let mut rebuilt_call = call("c1", "{\"x\":2}");
    rebuilt_call.set_id(Some("assigned".to_string()));
    let body = vec![rebuilt_call, output("c1", "r")];
    validate_next_request_body(&body, &spec, &tokens).expect("id-only drift is legal");
}

fn custom_call(id: &str, status: Option<&str>, name: &str, input: &str) -> ResponseItem {
    ResponseItem::CustomToolCall {
        id: None,
        status: status.map(str::to_string),
        call_id: id.into(),
        name: name.into(),
        namespace: None,
        input: input.into(),
        internal_chat_message_metadata_passthrough: None,
    }
}

fn custom_output_content_items(id: &str, name: Option<&str>, texts: &[&str]) -> ResponseItem {
    ResponseItem::CustomToolCallOutput {
        id: None,
        call_id: id.into(),
        name: name.map(str::to_string),
        output: FunctionCallOutputPayload {
            body: FunctionCallOutputBody::ContentItems(
                texts
                    .iter()
                    .map(|text| FunctionCallOutputContentItem::InputText {
                        text: (*text).into(),
                    })
                    .collect(),
            ),
            success: Some(true),
        },
        internal_chat_message_metadata_passthrough: None,
    }
}

#[test]
fn incident_custom_tool_pair_grafts_and_validates() {
    let live = vec![
        custom_call("c1", Some("completed"), "exec", "{\"cmd\":\"ls\"}"),
        custom_output_content_items("c1", None, &["part-a", "part-b"]),
    ];
    let mut body = vec![
        custom_call("c1", None, "exec", "{\"cmd\":\"ls\"}"),
        ResponseItem::CustomToolCallOutput {
            id: None,
            call_id: "c1".into(),
            name: Some("exec".into()),
            output: FunctionCallOutputPayload {
                body: FunctionCallOutputBody::Text("part-a\npart-b".into()),
                success: Some(true),
            },
            internal_chat_message_metadata_passthrough: None,
        },
    ];
    let report = graft_live_protected_pairs(&mut body, &live, &vec!["c1".into()]);
    assert_eq!(report.grafted, vec!["c1".to_string()]);
    assert!(report.degraded.is_empty(), "{}", report.degraded_summary());
    match &body[0] {
        ResponseItem::CustomToolCall { status, name, .. } => {
            assert_eq!(status.as_deref(), Some("completed"));
            assert_eq!(name, "exec");
        }
        other => panic!("expected CustomToolCall, got {other:?}"),
    }
    match &body[1] {
        ResponseItem::CustomToolCallOutput { name, output, .. } => {
            assert_eq!(name.as_deref(), None);
            assert!(matches!(
                output.body,
                FunctionCallOutputBody::ContentItems(ref items) if items.len() == 2
            ));
        }
        other => panic!("expected CustomToolCallOutput, got {other:?}"),
    }
    let spec = spec_for(&live, &["c1"], Some(100_000));
    validate_next_request_body(&body, &spec, &tokens).expect("grafted incident shape validates");
}

/// Ambiguous live cardinality degrades to the reconstructed pair. The body keeps
/// a correlated call/output for the protected id and stays sendable; the caller
/// gets a debuggable reason.
#[test]
fn duplicate_live_call_cardinality_degrades_to_lhc_pair() {
    let live = vec![call("c1", "{}"), call("c1", "{}"), output("c1", "r")];
    let mut body = vec![call("c1", "{}"), output("c1", "r")];
    let report = graft_live_protected_pairs(&mut body, &live, &vec!["c1".into()]);
    assert!(report.grafted.is_empty());
    assert_eq!(report.degraded.len(), 1);
    assert_eq!(report.degraded[0].call_id, "c1");
    assert!(
        report.degraded[0].reason.contains("expected exactly 1"),
        "{}",
        report.degraded_summary()
    );
    assert_eq!(body.len(), 2, "the materialized pair stays in the body");
    assert_eq!(client_call_id(&body[0]).as_deref(), Some("c1"));
    assert_eq!(output_call_id(&body[1]).as_deref(), Some("c1"));
}

#[test]
fn estimator_counts_large_tool_output_and_rejects_at_threshold() {
    let huge = "x".repeat(10_000);
    let items = vec![output("c1", &huge)];
    let estimate = estimate_response_items_tokens(&items, &tokens);
    assert!(
        estimate > 1000,
        "an estimate of a 10k-char tool result must not look like ~16 tokens: {estimate}"
    );
    let live = vec![call("c1", "{}"), output("c1", &huge)];
    let spec = spec_for(&live, &["c1"], Some(estimate));
    let err = validate_next_request_body(&live, &spec, &tokens).unwrap_err();
    assert!(err.contains("safe-runway"), "{err}");
    assert!(
        err.contains(&estimate.to_string()),
        "threshold reject should report the same estimate: {err}"
    );
}

/// A missing live pair is a degradation, not a stop. Every other protected id
/// still grafts.
#[test]
fn missing_live_pair_degrades_and_other_pairs_still_graft() {
    let live = vec![call("c2", "{\"live\":true}"), output("c2", "live-out")];
    let mut body = vec![
        call("c1", "{}"),
        output("c1", "r"),
        call("c2", "{}"),
        output("c2", "stale"),
    ];
    let report = graft_live_protected_pairs(&mut body, &live, &vec!["c1".into(), "c2".into()]);
    assert_eq!(report.grafted, vec!["c2".to_string()]);
    assert_eq!(report.degraded.len(), 1);
    assert_eq!(report.degraded[0].call_id, "c1");
    assert_eq!(body.len(), 4, "no pair is removed by a failed graft");
    assert_eq!(
        item_bytes_without_id(&body[3]),
        item_bytes_without_id(&output("c2", "live-out")),
        "the provable pair still takes the live bytes"
    );
}

fn reasoning(encrypted: &str) -> ResponseItem {
    ResponseItem::Reasoning {
        id: None,
        summary: Vec::new(),
        content: None,
        encrypted_content: Some(encrypted.into()),
        internal_chat_message_metadata_passthrough: None,
    }
}

/// A spec with nothing left to prove: the structural rules every provider
/// request must satisfy, and nothing else.
fn structural_spec() -> BodyValidationSpec {
    BodyValidationSpec {
        attempt_id: "structural".into(),
        protected_tool_call_ids: Vec::new(),
        protected_pairs: Vec::new(),
        required_encrypted_reasoning: Vec::new(),
        safe_runway_threshold_tokens: None,
    }
}

fn has_kind(degraded: &DegradedBody, kind: BodyDegradationKind) -> bool {
    degraded.degradations.iter().any(|d| d.kind == kind)
}

fn text_of(item: &ResponseItem) -> &str {
    match item {
        ResponseItem::FunctionCallOutput { output, .. } => match &output.body {
            FunctionCallOutputBody::Text(text) => text,
            other => panic!("unexpected {other:?}"),
        },
        other => panic!("expected FunctionCallOutput, got {other:?}"),
    }
}

#[test]
fn degrade_leaves_a_clean_body_untouched() {
    let live = vec![call("c1", "{}"), output("c1", "r")];
    let spec = spec_for(&live, &["c1"], Some(100_000));
    let degraded = degrade_body_to_best_available(&live, &spec, &tokens);
    assert_eq!(degraded.body, live);
    assert!(degraded.kept.iter().all(|kept| *kept));
    assert!(degraded.degradations.is_empty(), "{}", degraded.summary());
}

#[test]
fn degrade_drops_unpaired_and_orphan_tool_items_into_a_sendable_body() {
    let live = vec![call("c1", "{}"), output("c1", "r")];
    let spec = spec_for(&live, &["c1"], None);
    let body = vec![
        call("lonely", "{}"), // call with no output
        output("ghost", "x"), // output with no call
        call("c1", "{}"),
        output("c1", "r"),
        output("c1", "duplicate"), // duplicate output
    ];
    let degraded = degrade_body_to_best_available(&body, &spec, &tokens);
    assert_eq!(degraded.kept, vec![false, false, true, true, false]);
    assert_eq!(degraded.body.len(), 2);
    validate_next_request_body(&degraded.body, &spec, &tokens)
        .expect("degraded body is a legal provider request");
    assert!(has_kind(
        &degraded,
        BodyDegradationKind::DroppedUnpairedToolCall
    ));
    assert!(has_kind(
        &degraded,
        BodyDegradationKind::DroppedOrphanToolOutput
    ));
    assert!(has_kind(&degraded, BodyDegradationKind::DroppedDuplicate));
    let summary = degraded.summary();
    for id in ["lonely", "ghost", "c1"] {
        assert!(summary.contains(id), "summary must name {id}: {summary}");
    }
}

#[test]
fn degrade_drops_an_out_of_order_pair_on_both_sides() {
    let spec = structural_spec();
    let body = vec![output("c1", "r"), call("c1", "{}")];
    let degraded = degrade_body_to_best_available(&body, &spec, &tokens);
    assert!(degraded.body.is_empty());
    assert_eq!(
        degraded.degradations[0].kind,
        BodyDegradationKind::DroppedUnpairedToolCall
    );
    validate_next_request_body(&degraded.body, &spec, &tokens).expect("empty body is still legal");
}

/// The reconstructed pair survives a failed graft, degrade reports it as not
/// byte-stable, and the pair stays in the request.
#[test]
fn degrade_keeps_the_lhc_reconstructed_protected_pair() {
    let live = vec![
        custom_call("c1", Some("completed"), "exec", "{\"cmd\":\"ls\"}"),
        custom_output_content_items("c1", None, &["part-a"]),
    ];
    let spec = spec_for(&live, &["c1"], None);
    // What materialize reconstructs: same call_id, no provider status/name.
    let body = vec![
        custom_call("c1", None, "exec", "{\"cmd\":\"ls\"}"),
        ResponseItem::CustomToolCallOutput {
            id: None,
            call_id: "c1".into(),
            name: Some("exec".into()),
            output: FunctionCallOutputPayload {
                body: FunctionCallOutputBody::Text("part-a".into()),
                success: Some(true),
            },
            internal_chat_message_metadata_passthrough: None,
        },
    ];
    validate_next_request_body(&body, &spec, &tokens)
        .expect_err("byte-stability is what fails without the graft");
    let degraded = degrade_body_to_best_available(&body, &spec, &tokens);
    assert_eq!(degraded.body, body, "the correlated pair is not dropped");
    assert!(has_kind(
        &degraded,
        BodyDegradationKind::ProtectedPairNotByteStable
    ));
    validate_next_request_body(&degraded.body, &structural_spec(), &tokens)
        .expect("degraded protected pair is still a legal provider request");
}

#[test]
fn degrade_reports_a_protected_pair_the_body_cannot_carry() {
    let live = vec![call("c1", "{}"), output("c1", "r")];
    let spec = spec_for(&live, &["c1"], None);
    let body = vec![call("c1", "{}")]; // output never materialized
    let degraded = degrade_body_to_best_available(&body, &spec, &tokens);
    assert!(degraded.body.is_empty());
    assert!(has_kind(
        &degraded,
        BodyDegradationKind::ProtectedPairUnavailable
    ));
    assert!(degraded.summary().contains("c1"), "{}", degraded.summary());
}

#[test]
fn degrade_reports_an_uncaptured_protected_expectation() {
    let mut spec = structural_spec();
    spec.protected_tool_call_ids = vec!["never-captured".into()];
    let body = vec![call("c1", "{}"), output("c1", "r")];
    let degraded = degrade_body_to_best_available(&body, &spec, &tokens);
    assert_eq!(degraded.body, body);
    assert_eq!(
        degraded.degradations[0].kind,
        BodyDegradationKind::ProtectedExpectationMissing
    );
}

#[test]
fn degrade_omits_missing_encrypted_reasoning_without_dropping_items() {
    let live = vec![reasoning("signed-abc"), call("c1", "{}"), output("c1", "r")];
    let spec = spec_for(&live, &["c1"], None);
    assert_eq!(spec.required_encrypted_reasoning, vec!["signed-abc"]);
    let body = vec![call("c1", "{}"), output("c1", "r")];
    let degraded = degrade_body_to_best_available(&body, &spec, &tokens);
    assert_eq!(degraded.body, body, "nothing is dropped for lost reasoning");
    assert_eq!(
        degraded.degradations[0].kind,
        BodyDegradationKind::MissingEncryptedReasoning
    );
    validate_next_request_body(&degraded.body, &structural_spec(), &tokens)
        .expect("still sendable");
}

#[test]
fn degrade_truncates_oversized_content_under_the_threshold() {
    let huge = "tok ".repeat(20_000);
    let live = vec![call("c1", "{}"), output("c1", &huge)];
    let full = estimate_response_items_tokens(&live, &tokens);
    let threshold = full / 4;
    let spec = spec_for(&live, &["c1"], Some(threshold));
    validate_next_request_body(&live, &spec, &tokens)
        .expect_err("oversized body fails validation");
    let degraded = degrade_body_to_best_available(&live, &spec, &tokens);
    assert!(
        degraded.kept.iter().all(|kept| *kept),
        "truncation drops content, not items"
    );
    let estimate = estimate_response_items_tokens(&degraded.body, &tokens);
    assert!(
        estimate < threshold,
        "truncated body {estimate} must be under threshold {threshold}"
    );
    assert!(has_kind(
        &degraded,
        BodyDegradationKind::TruncatedOversizedContent
    ));
    assert!(!has_kind(
        &degraded,
        BodyDegradationKind::StillOverThreshold
    ));
    let text = text_of(&degraded.body[1]);
    assert!(
        text.ends_with(TRUNCATION_MARKER),
        "truncated content must say so: {}",
        &text[text.len().saturating_sub(80)..]
    );
    // Truncating a protected payload is exactly what byte-stability forbids: the
    // request is still structurally legal and the provider decides.
    validate_next_request_body(&degraded.body, &structural_spec(), &tokens)
        .expect("the truncated body is still a legal provider request");
}

#[test]
fn degrade_truncates_unprotected_content_before_protected_content() {
    let filler = "tok ".repeat(20_000);
    let protected_text = "tok ".repeat(20_000);
    let live = vec![
        call("plain", "{}"),
        output("plain", &filler),
        call("c1", "{}"),
        output("c1", &protected_text),
    ];
    let full = estimate_response_items_tokens(&live, &tokens);
    // Room for one large payload but not two.
    let spec = spec_for(&live, &["c1"], Some(full * 3 / 4));
    let degraded = degrade_body_to_best_available(&live, &spec, &tokens);
    let unprotected_len = text_of(&degraded.body[1]).len();
    let protected_len = text_of(&degraded.body[3]).len();
    assert!(
        unprotected_len < protected_len,
        "unprotected content is cut first: unprotected {unprotected_len} vs protected {protected_len}"
    );
}

/// When there is nothing left to cut, the body is sent oversized with a warning.
/// The provider is the final authority; a stop is not an option.
#[test]
fn degrade_sends_an_oversized_body_when_nothing_is_left_to_cut() {
    let live = vec![call("c1", "{\"a\":1}"), output("c1", "small")];
    let spec = spec_for(&live, &["c1"], Some(1));
    let degraded = degrade_body_to_best_available(&live, &spec, &tokens);
    assert_eq!(degraded.body, live, "an unshrinkable body still ships");
    assert_eq!(
        degraded.degradations.last().expect("degradation").kind,
        BodyDegradationKind::StillOverThreshold
    );
}

/// The degraded body is not just structurally valid on paper: every item still
/// goes through the capture mapping, and its wire format reads as it was written.
#[test]
fn degraded_body_round_trips_through_the_mapping() {
    let huge = "tok ".repeat(20_000);
    let live = vec![
        reasoning("signed-abc"),
        call("c1", "{}"),
        output("c1", &huge),
    ];
    let spec_live = spec_for(&live, &["c1"], None);
    let threshold = estimate_response_items_tokens(&live, &tokens) / 4;
    let spec = BodyValidationSpec {
        safe_runway_threshold_tokens: Some(threshold),
        ..spec_live
    };
    let body = vec![
        call("c1", "{}"),
        output("c1", &huge),
        output("ghost", "orphan"),
    ];
    let degraded = degrade_body_to_best_available(&body, &spec, &tokens);
    assert!(!degraded.degradations.is_empty());
    validate_next_request_body(&degraded.body, &structural_spec(), &tokens)
        .expect("degraded body is a legal provider request");
    let mut tracker = OccurrenceTracker::new();
    for item in &degraded.body {
        let image = item.to_wire().to_text();
        let value: serde_json::Value =
            serde_json::from_str(&image).expect("degraded item has a wire format");
        assert_eq!(
            value.to_string(),
            image,
            "degraded item must survive the wire format byte-for-byte"
        );
        let events = map_item(
            "degrade-thread",
            item,
            RawItemProvenance::ModelOutput,
            &mut tracker,
            None,
        );
        assert!(
            !events.is_empty(),
            "degraded item must still map into capture events: {item:?}"
        );
    }
}

fn live_pair() -> Vec<ResponseItem> {
    vec![
        custom_call("call-1", Some("completed"), "exec", r#"{"cmd":"ls"}"#),
        custom_output_content_items("call-1", None, &["part-a", "part-b"]),
    ]
}

/// The items behind the last boundary of a rollout.
fn history_from_materialized_items(items: &[RolloutItem]) -> Vec<&ResponseItem> {
    let mut history = Vec::new();
    for item in items {
        match item {
            RolloutItem::Compacted(_) => history.clear(),
            RolloutItem::ResponseItem(item) => history.push(item),
            _ => {}
        }
    }
    history
}

#[test]
fn grafted_custom_tool_pair_survives_rollout_resume() {
    let live = live_pair();
    let mut body = live.clone();
    if let ResponseItem::CustomToolCall { status, .. } = &mut body[0] {
        *status = None;
    }
    if let ResponseItem::CustomToolCallOutput { name, output, .. } = &mut body[1] {
        *name = Some("exec".into());
        output.body = FunctionCallOutputBody::Text("part-a\npart-b".into());
    }
    let report = graft_live_protected_pairs(&mut body, &live, &vec!["call-1".into()]);
    assert!(report.is_fully_grafted());
    for (got, want) in body.iter().zip(&live) {
        assert_eq!(item_bytes_without_id(got), item_bytes_without_id(want));
    }
    let compacted = CompactedItem {
        message: "lhc".into(),
        replacement_history: Some(vec![]),
        window_number: None,
        first_window_id: None,
        previous_window_id: None,
        window_id: None,
        guardian_history: None,
    };
    let items = vec![
        RolloutItem::Compacted(compacted),
        RolloutItem::ResponseItem(body[0].clone()),
        RolloutItem::ResponseItem(body[1].clone()),
    ];
    let history = history_from_materialized_items(&items);
    assert_eq!(history.len(), 2);
    for (got, want) in history.iter().zip(&live) {
        assert_eq!(item_bytes_without_id(got), item_bytes_without_id(want));
    }
}

#[test]
fn cut_text_halves_at_a_character() {
    let text = "ä".repeat(4_000);
    let live = vec![call("c1", "{}"), output("c1", &text)];
    let full = estimate_response_items_tokens(&live, &tokens);
    let mut spec = structural_spec();
    spec.safe_runway_threshold_tokens = Some(full - 1);
    let degraded = degrade_body_to_best_available(&live, &spec, &tokens);
    let cut = text_of(&degraded.body[1]);
    assert!(cut.ends_with(TRUNCATION_MARKER));
    assert!(cut.len() < text.len());
    assert_eq!(degraded.dropped_count(), 0);
    assert_eq!(
        degraded.degradations[0].kind.as_str(),
        "truncated_oversized_content"
    );
}

#[test]
fn nothing_is_given_up_exactly_when_the_body_is_valid() {
    let live = vec![call("c1", "{}"), output("c1", "r")];
    let big = vec![call("c1", "{}"), output("c1", &"x".repeat(4000))];
    let swapped = vec![output("c1", "r"), call("c1", "{}")];
    let other = vec![call("c1", "{\"a\":1}"), output("c1", "r")];
    for (ids, threshold, body) in [
        (vec!["c1"], None, &live),
        (vec!["c1"], Some(1), &live),
        (vec!["c1"], None, &swapped),
        (vec!["c1"], None, &other),
        (vec!["c1", "c2"], None, &live),
        (vec![], Some(100), &big),
        (vec![], None, &big),
    ] {
        let spec = spec_for(&live, &ids, threshold);
        let valid = validate_next_request_body(body, &spec, &tokens).is_ok();
        let degraded = degrade_body_to_best_available(body, &spec, &tokens);
        assert_eq!(degraded.degradations.is_empty(), valid, "{}", degraded.summary());
    }
}
