//! From items of a conversation to events of the store.

use codex_lhc_host::idempotency::OccurrenceTracker;
use codex_lhc_host::json::{get_entry, Json};
use codex_lhc_host::mapping::{
    arguments_from_read, attach_provider_usage, attach_steer, attach_step_index, map_item,
    map_model_or_thinking_change, map_runtime_note, map_turn_end, token_usage_to_provider_usage,
    MappedEvent, ModelIdentity, TurnEndFacts,
};
use codex_lhc_host::protocol::{
    ContentItem, FunctionCallOutputBody, FunctionCallOutputPayload, LocalShellAction,
    LocalShellExecAction, LocalShellStatus, ReasoningItemReasoningSummary, ResponseItem,
};
use codex_lhc_host::records::{RawItemProvenance, TokenUsage};

fn tracker() -> OccurrenceTracker {
    OccurrenceTracker::new()
}

fn text(s: &str) -> Json {
    Json::Text(s.to_string())
}

fn field<'a>(event: &'a MappedEvent, key: &str) -> Option<&'a Json> {
    get_entry(&event.input.payload, key)
}

fn object(j: Option<&Json>) -> &Vec<(String, Json)> {
    match j {
        Some(Json::Object(entries)) => entries,
        other => panic!("expected an object, got {other:?}"),
    }
}

fn message(role: &str, id: Option<&str>, content: Vec<ContentItem>) -> ResponseItem {
    ResponseItem::Message {
        id: id.map(str::to_string),
        role: role.into(),
        content,
        phase: None,
        internal_chat_message_metadata_passthrough: None,
    }
}

#[test]
fn user_prompt_provenance_maps_to_user_prompt() {
    let item = message(
        "user",
        Some("msg_1"),
        vec![ContentItem::InputText {
            text: "<user_instructions> what does this tag mean?".into(),
        }],
    );
    let events = map_item(
        "t",
        &item,
        RawItemProvenance::UserPrompt,
        &mut tracker(),
        None,
    );
    assert_eq!(events[0].input.event_kind, "user_prompt");
}

#[test]
fn host_context_user_role_is_runtime_note() {
    let item = message(
        "user",
        Some("msg_ctx"),
        vec![ContentItem::InputText {
            text: "RolloutBudgetContext stuff".into(),
        }],
    );
    let events = map_item(
        "t",
        &item,
        RawItemProvenance::HostContext,
        &mut tracker(),
        None,
    );
    assert_eq!(events[0].input.event_kind, "runtime_note");
}

#[test]
fn same_id_replays_identical_key() {
    let item = message(
        "user",
        Some("msg_stable"),
        vec![ContentItem::InputText {
            text: "hello".into(),
        }],
    );
    let mut t = tracker();
    let e1 = map_item("t", &item, RawItemProvenance::UserPrompt, &mut t, None);
    let e2 = map_item("t", &item, RawItemProvenance::UserPrompt, &mut t, None);
    assert_eq!(
        e1[0].input.idempotency_key, e2[0].input.idempotency_key,
        "restart re-presentation of the same id must collide"
    );
}

#[test]
fn function_call_preserves_arguments_raw_bytes() {
    let raw = r#"{ "a" : 1 ,  "b" : 2 }"#;
    let item = ResponseItem::FunctionCall {
        id: Some("fc_1".into()),
        name: "x".into(),
        namespace: None,
        arguments: raw.into(),
        encrypted_function_args: Some(Vec::new()),
        call_id: "c1".into(),
        internal_chat_message_metadata_passthrough: None,
    };
    let events = map_item(
        "t",
        &item,
        RawItemProvenance::ModelOutput,
        &mut tracker(),
        None,
    );
    let args = object(field(&events[0], "arguments"));
    assert_eq!(
        get_entry(args, "__hostRaw"),
        Some(&text(raw)),
        "verbatim wire string must land in arguments.__hostRaw"
    );
    assert_eq!(
        get_entry(args, "__hostEncryptedFunctionArgs"),
        Some(&Json::List(vec![])),
        "Some(empty) is distinct from an absent encrypted-args field"
    );
    assert!(events[0].input.extra.is_empty(), "extra must stay empty");
}

#[test]
fn function_call_duplicate_keys_raw_preserved() {
    let raw = r#"{"k":1,"k":2}"#;
    let item = ResponseItem::FunctionCall {
        id: None,
        name: "x".into(),
        namespace: None,
        arguments: raw.into(),
        encrypted_function_args: None,
        call_id: "c2".into(),
        internal_chat_message_metadata_passthrough: None,
    };
    let events = map_item(
        "t",
        &item,
        RawItemProvenance::ModelOutput,
        &mut tracker(),
        None,
    );
    let args = object(field(&events[0], "arguments"));
    assert_eq!(get_entry(args, "__hostRaw"), Some(&text(raw)));
}

#[test]
fn image_url_full_in_text_payload() {
    let url = format!("data:image/png;base64,{}", "A".repeat(4000));
    let item = message(
        "user",
        None,
        vec![ContentItem::InputImage {
            image_url: url.clone(),
            detail: None,
        }],
    );
    let events = map_item(
        "t",
        &item,
        RawItemProvenance::UserPrompt,
        &mut tracker(),
        None,
    );
    let shown = field(&events[0], "text").and_then(Json::as_text).expect("text");
    assert!(
        shown.contains(&url),
        "full image URL must be in text payload, got {} chars",
        shown.len()
    );
    assert!(events[0].input.extra.is_empty());
}

#[test]
fn reasoning_encrypted_passthrough() {
    let secret = "enc-blob-verbatim-Ω";
    let identity = ModelIdentity::new("openai", "gpt-test", ModelIdentity::RESPONSES_API);
    let item = ResponseItem::Reasoning {
        id: Some("r1".into()),
        summary: vec![],
        content: None,
        encrypted_content: Some(secret.into()),
        internal_chat_message_metadata_passthrough: None,
    };
    let events = map_item(
        "t",
        &item,
        RawItemProvenance::ModelOutput,
        &mut tracker(),
        Some(&identity),
    );
    assert_eq!(events.len(), 1);
    assert_eq!(events[0].input.event_kind, "assistant_thinking");
    // The encrypted content lands in the signature, not in the text.
    assert_eq!(field(&events[0], "text"), Some(&text("")));
    assert_eq!(field(&events[0], "signature"), Some(&text(secret)));
    assert_eq!(field(&events[0], "provider"), Some(&text("openai")));
    assert_eq!(field(&events[0], "model"), Some(&text("gpt-test")));
    assert_eq!(
        field(&events[0], "api"),
        Some(&text(ModelIdentity::RESPONSES_API))
    );
}

#[test]
fn reasoning_summary_plus_encrypted_is_single_event() {
    let identity = ModelIdentity::new("openai", "gpt-test", ModelIdentity::RESPONSES_API);
    let item = ResponseItem::Reasoning {
        id: Some("r2".into()),
        summary: vec![ReasoningItemReasoningSummary::SummaryText {
            text: "think aloud".into(),
        }],
        content: None,
        encrypted_content: Some("sig-bytes".into()),
        internal_chat_message_metadata_passthrough: None,
    };
    let events = map_item(
        "t",
        &item,
        RawItemProvenance::ModelOutput,
        &mut tracker(),
        Some(&identity),
    );
    assert_eq!(events.len(), 1, "one thinking event with text+signature");
    assert_eq!(field(&events[0], "text"), Some(&text("think aloud")));
    assert_eq!(field(&events[0], "signature"), Some(&text("sig-bytes")));
}

#[test]
fn model_change_only_on_actual_diff() {
    let none = map_model_or_thinking_change("t", "m", "m", "high", "high");
    assert!(none.is_empty());
    let events = map_model_or_thinking_change("t", "m1", "m2", "low", "high");
    assert_eq!(events.len(), 2);
    assert_eq!(events[0].input.event_kind, "model_change");
    assert_eq!(events[1].input.event_kind, "thinking_level_change");
    // Same transition collides (restart re-fire stability).
    let again = map_model_or_thinking_change("t", "m1", "m2", "low", "high");
    assert_eq!(
        events[0].input.idempotency_key,
        again[0].input.idempotency_key
    );
}

#[test]
fn turn_end_empty_payload_when_no_facts() {
    let event = map_turn_end("t", "turn-1", "stop", &TurnEndFacts::default());
    assert_eq!(event.input.event_kind, "turn_end");
    assert!(event.input.payload.is_empty());
}

#[test]
fn turn_end_carries_v5_host_facts() {
    let facts = TurnEndFacts {
        outcome: Some("aborted"),
        outcome_reason: Some("interrupted".into()),
        started_at: Some("2026-07-01T12:00:00.000Z".into()),
        ended_at: Some("2026-07-01T12:00:04.000Z".into()),
    };
    let event = map_turn_end("t", "turn-1", "aborted", &facts);
    assert_eq!(field(&event, "outcome"), Some(&text("aborted")));
    assert_eq!(field(&event, "outcomeReason"), Some(&text("interrupted")));
    assert_eq!(
        field(&event, "startedAt"),
        Some(&text("2026-07-01T12:00:00.000Z"))
    );
    assert_eq!(
        field(&event, "endedAt"),
        Some(&text("2026-07-01T12:00:04.000Z"))
    );
    assert!(event.input.extra.is_empty());
}

#[test]
fn provider_usage_attaches_only_to_assistant_text() {
    let item = message(
        "assistant",
        Some("a1"),
        vec![ContentItem::OutputText {
            text: "hello".into(),
        }],
    );
    let mut events = map_item(
        "t",
        &item,
        RawItemProvenance::ModelOutput,
        &mut tracker(),
        None,
    );
    assert_eq!(events.len(), 1);
    let usage = vec![
        ("input_tokens".to_string(), Json::Int(11)),
        ("output_tokens".to_string(), Json::Int(3)),
    ];
    attach_provider_usage(&mut events[0], &usage);
    assert_eq!(field(&events[0], "providerUsage"), Some(&Json::Object(usage)));
}

#[test]
fn partial_image_gen_keys_stable_for_retry() {
    let item = ResponseItem::ImageGenerationCall {
        id: Some("ig_probe".into()),
        status: "completed".into(),
        revised_prompt: Some("a cat".into()),
        result: "base64".into(),
        internal_chat_message_metadata_passthrough: None,
    };
    let mut t = tracker();
    let e1 = map_item("t", &item, RawItemProvenance::ModelOutput, &mut t, None);
    let e2 = map_item("t", &item, RawItemProvenance::ModelOutput, &mut t, None);
    assert_eq!(e1.len(), 2);
    assert_eq!(e1[0].input.idempotency_key, e2[0].input.idempotency_key);
    assert_eq!(e1[1].input.idempotency_key, e2[1].input.idempotency_key);
}

#[test]
fn usage_goes_to_no_other_event() {
    let mut prompt = map_item(
        "t",
        &message("user", Some("u"), vec![ContentItem::InputText { text: "hi".into() }]),
        RawItemProvenance::UserPrompt,
        &mut tracker(),
        None,
    );
    let usage = vec![("input_tokens".to_string(), Json::Int(1))];
    attach_provider_usage(&mut prompt[0], &usage);
    assert_eq!(field(&prompt[0], "providerUsage"), None);
    attach_steer(&mut prompt[0]);
    assert_eq!(field(&prompt[0], "steer"), Some(&Json::Bool(true)));
    attach_step_index(&mut prompt[0], 3);
    assert_eq!(field(&prompt[0], "stepIndex"), None);
}

#[test]
fn step_index_goes_with_what_the_model_made() {
    let mut events = map_item(
        "t",
        &message(
            "assistant",
            Some("a"),
            vec![ContentItem::OutputText { text: "hi".into() }],
        ),
        RawItemProvenance::ModelOutput,
        &mut tracker(),
        None,
    );
    attach_step_index(&mut events[0], 3);
    assert_eq!(field(&events[0], "stepIndex"), Some(&Json::Int(3)));
    attach_steer(&mut events[0]);
    assert_eq!(field(&events[0], "steer"), None);
}

#[test]
fn arguments_that_are_no_object_are_kept_as_they_are() {
    let args = arguments_from_read("[1,2]", Some(Json::List(vec![Json::Int(1), Json::Int(2)])));
    assert_eq!(get_entry(&args, "__hostRaw"), Some(&text("[1,2]")));
    let broken = arguments_from_read("{oops", None);
    assert_eq!(get_entry(&broken, "__hostRaw"), Some(&text("{oops")));
    let object = arguments_from_read(
        "{\"a\":1}",
        Some(Json::Object(vec![("a".to_string(), Json::Int(1))])),
    );
    assert_eq!(get_entry(&object, "a"), Some(&Json::Int(1)));
    assert_eq!(get_entry(&object, "__hostRaw"), Some(&text("{\"a\":1}")));
}

#[test]
fn call_arguments_are_read() {
    let item = ResponseItem::FunctionCall {
        id: None,
        name: "x".into(),
        namespace: None,
        arguments: r#" { "a" : "\u0041" , "n" : null , "i" : -7 , "o" : { "b" : [ true ] } } "#.into(),
        encrypted_function_args: None,
        call_id: "c".into(),
        internal_chat_message_metadata_passthrough: None,
    };
    let events = map_item(
        "t",
        &item,
        RawItemProvenance::ModelOutput,
        &mut tracker(),
        None,
    );
    let args = object(field(&events[0], "arguments"));
    assert_eq!(get_entry(args, "a"), Some(&text("A")));
    assert_eq!(get_entry(args, "n"), Some(&Json::Null));
    assert_eq!(
        get_entry(args, "i").map(Json::to_text).as_deref(),
        Some("-7")
    );
    assert_eq!(
        get_entry(args, "o").map(Json::to_text).as_deref(),
        Some(r#"{"b":[true]}"#)
    );
}

#[test]
fn usage_is_told_field_by_field() {
    let usage = TokenUsage {
        input_tokens: 1,
        cached_input_tokens: 2,
        cache_write_input_tokens: 3,
        output_tokens: 4,
        reasoning_output_tokens: 5,
        total_tokens: 6,
        codex_rollout_budget_units: None,
    };
    let names = [
        "input_tokens",
        "cached_input_tokens",
        "cache_write_input_tokens",
        "output_tokens",
        "reasoning_output_tokens",
        "total_tokens",
    ];
    let expected: Vec<(String, Json)> = names
        .iter()
        .enumerate()
        .map(|(i, name)| (name.to_string(), Json::Int(i as i128 + 1)))
        .collect();
    assert_eq!(token_usage_to_provider_usage(&usage), Some(expected));
}

#[test]
fn note_has_its_own_key() {
    let note = map_runtime_note("t:1", "hello", "suffix");
    assert_eq!(note.input.event_kind, "runtime_note");
    assert_eq!(
        note.input.idempotency_key.as_deref(),
        Some("codex:t%3A1:runtime_note:host:suffix")
    );
    assert_eq!(field(&note, "text"), Some(&text("hello")));
    assert_eq!(note.input.actor, "system");
    assert_eq!(note.input.harness, "codex");
}

#[test]
fn identities_match_field_by_field() {
    let a = ModelIdentity::new("p", "m", "a");
    assert!(a.is_complete() && a.matches(&ModelIdentity::new("p", "m", "a")));
    assert!(!a.matches(&ModelIdentity::new("p", "m2", "a")));
    let part = ModelIdentity {
        provider: Some("p".into()),
        model: None,
        api: Some("a".into()),
    };
    assert!(!part.is_complete());
    assert!(part.matches(&part.clone()) && !part.matches(&a));
    assert!(!ModelIdentity::new("p", "", "a").is_complete());
}

#[test]
fn shell_call_and_results_are_tool_events() {
    let shell = ResponseItem::LocalShellCall {
        id: Some("ls_1".into()),
        call_id: Some("c".into()),
        status: LocalShellStatus::Completed,
        action: LocalShellAction::Exec(LocalShellExecAction {
            command: vec!["ls".into()],
            timeout_ms: None,
            working_directory: None,
            env: None,
            user: None,
        }),
        internal_chat_message_metadata_passthrough: None,
    };
    let out = ResponseItem::FunctionCallOutput {
        id: None,
        call_id: Some("c".into()),
        name: None,
        namespace: None,
        output: FunctionCallOutputPayload {
            body: FunctionCallOutputBody::Text("done".into()),
            success: Some(false),
        },
        internal_chat_message_metadata_passthrough: None,
    };
    let mut t = tracker();
    let a = map_item("t", &shell, RawItemProvenance::ModelOutput, &mut t, None);
    let b = map_item("t", &out, RawItemProvenance::ModelOutput, &mut t, None);
    assert_eq!(a[0].input.event_kind, "tool_call");
    assert_eq!(b[0].input.event_kind, "tool_result");
    assert_eq!(field(&b[0], "toolCallId"), Some(&text("c")));
    assert_eq!(field(&b[0], "isError"), Some(&Json::Bool(true)));
}
