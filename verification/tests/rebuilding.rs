//! From the store back to a rollout.

use codex_lhc_host::guardian_fold::{
    materialize_guardian_tool_fold, GuardianFoldTailExtras, OVERLAP_CALL_ID,
};
use codex_lhc_host::host_ids::{
    decode_percent, host_id_kind_prefix, parse_host_id_from_key, sanitize_id,
};
use codex_lhc_host::host_turn_ids::{HostTurnIds, TurnIdPair};
use codex_lhc_host::json::Json;
use codex_lhc_host::mapping::ModelIdentity;
use codex_lhc_host::materialize::{
    boundary_completeness_error, can_tell_usage, materialize_rollout,
    model_stream_response_item_count, try_materialize_rollout, CompactBoundaryMeta,
    MaterializeInput,
};
use codex_lhc_host::ordering::sorted_positions;
use codex_lhc_host::protocol::{
    ContentItem, EnvVar, FunctionCallOutputBody, FunctionCallOutputPayload, LocalShellAction,
    LocalShellExecAction, LocalShellStatus, ReasoningItemReasoningSummary, ResponseItem,
    WebSearchAction,
};
use codex_lhc_host::records::{
    Block, BlockType, MessageKind, MessageRecord, TokenUsage, TurnOutcome, TurnRecord, TurnStatus,
};
use codex_lhc_host::reverse::{
    complete_image_generation, emit_display_twins, reverse_tool_call, reverse_tool_result,
    unanswered_image_item, RecoveredToolCallKind,
};
use codex_lhc_host::rollback::{
    lhc_user_prompt_turns_ordered, prior_user_segments_with_drop, rolled_back_turn_ids,
};
use codex_lhc_host::rollout::{
    CompactedItem, CompletedItem, EventMsg, RolloutItem, TurnAbortReason,
};
use codex_lhc_host::tail::{emit_turn_end, map_abort_reason};
use codex_lhc_host::thread_view::{
    SessionAssistantMessage, SessionAssistantPart, SessionAssistantPartType,
    SessionThreadViewEntry, SessionThreadViewEntrySource, SessionThreadViewMessage,
    SessionToolResultMessage, SessionUserMessage,
};
use codex_lhc_host::timestamps::{iso_to_unix_secs, unix_secs_to_iso};
use codex_lhc_host::unwire::{read_search_action, read_shell_action};
use codex_lhc_host::usage::{cumulative_usage_at, usage_totals_fit};
use codex_lhc_host::wire::Wire;

fn text(s: &str) -> Json {
    Json::Text(s.to_string())
}

fn object(entries: &[(&str, Json)]) -> Json {
    Json::Object(entries_of(entries))
}

fn entries_of(entries: &[(&str, Json)]) -> Vec<(String, Json)> {
    entries
        .iter()
        .map(|(k, v)| (k.to_string(), v.clone()))
        .collect()
}

fn usage(n: i64) -> TokenUsage {
    TokenUsage {
        input_tokens: n,
        cached_input_tokens: 1,
        cache_write_input_tokens: 0,
        output_tokens: 2,
        reasoning_output_tokens: 0,
        total_tokens: n + 2,
        codex_rollout_budget_units: None,
    }
}

fn stored(id: &str, order: i64, kind: MessageKind, turn: &str, said: &str) -> MessageRecord {
    MessageRecord {
        message_id: id.into(),
        source_event_order: order,
        kind,
        blocks: vec![Block {
            block_type: BlockType::Text,
            content: object(&[("text", text(said))]),
        }],
        turn_id: turn.into(),
        provider_usage: None,
    }
}

fn turn(id: &str, order: i64, status: TurnStatus, members: &[&str]) -> TurnRecord {
    TurnRecord {
        turn_id: id.into(),
        turn_order: order,
        status,
        member_message_ids: members.iter().map(|m| m.to_string()).collect(),
        closed_at_event_order: None,
        outcome: None,
        outcome_reason: None,
        started_at: None,
        ended_at: None,
    }
}

fn source(id: &str, key: Option<&str>) -> SessionThreadViewEntrySource {
    SessionThreadViewEntrySource {
        message_id: id.into(),
        idempotency_key: key.map(str::to_string),
    }
}

fn user_entry(said: &str, sources: Vec<SessionThreadViewEntrySource>) -> SessionThreadViewEntry {
    SessionThreadViewEntry::Message(SessionThreadViewMessage::User(SessionUserMessage {
        content: said.into(),
        source_messages: sources,
    }))
}

fn part(type_: SessionAssistantPartType) -> SessionAssistantPart {
    SessionAssistantPart {
        type_,
        text: None,
        thinking: None,
        thinking_signature: None,
        tool_call_id: None,
        tool_name: None,
        arguments: None,
    }
}

fn assistant_entry(
    content: Vec<SessionAssistantPart>,
    sources: Vec<SessionThreadViewEntrySource>,
) -> SessionThreadViewEntry {
    SessionThreadViewEntry::Message(SessionThreadViewMessage::Assistant(SessionAssistantMessage {
        content,
        provider: Some("p".into()),
        model: Some("m".into()),
        api: Some("responses".into()),
        source_messages: sources,
    }))
}

fn said_by(role: &str, id: Option<&str>, said: &str) -> ResponseItem {
    let s = said.to_string();
    ResponseItem::Message {
        id: id.map(str::to_string),
        role: role.into(),
        content: vec![if role == "user" {
            ContentItem::InputText { text: s }
        } else {
            ContentItem::OutputText { text: s }
        }],
        phase: None,
        internal_chat_message_metadata_passthrough: None,
    }
}

fn item(i: ResponseItem) -> RolloutItem {
    RolloutItem::ResponseItem(i)
}

fn event(e: EventMsg) -> RolloutItem {
    RolloutItem::EventMsg(e)
}

fn started(id: &str) -> RolloutItem {
    event(EventMsg::TurnStarted {
        turn_id: id.into(),
        started_at: None,
    })
}

fn shown(said: &str) -> RolloutItem {
    event(EventMsg::UserMessage {
        message: said.into(),
    })
}

fn input() -> MaterializeInput {
    MaterializeInput {
        session_meta: object(&[("id", text("thread"))]),
        entries: vec![],
        messages: vec![],
        turns: vec![],
        host_turn_ids: HostTurnIds::default(),
        prior_generation: vec![],
        boundary: CompactBoundaryMeta {
            message: "lhc".into(),
            window_number: 3,
            first_window_id: "w1".into(),
            previous_window_id: Some("w2".into()),
            window_id: "w3".into(),
        },
        world_state: None,
        turn_context: None,
        guardian_history: None,
        live_identity: Some(ModelIdentity::new("p", "m", "responses")),
    }
}

fn boundary(history: Vec<ResponseItem>) -> RolloutItem {
    RolloutItem::Compacted(CompactedItem {
        message: "lhc".into(),
        replacement_history: Some(history),
        window_number: Some(3),
        first_window_id: Some("w1".into()),
        previous_window_id: Some("w2".into()),
        window_id: Some("w3".into()),
        guardian_history: None,
    })
}

fn conversation() -> MaterializeInput {
    let mut thinking = part(SessionAssistantPartType::Thinking);
    thinking.thinking = Some("hm".into());
    thinking.thinking_signature = Some("sig".into());
    let mut call = part(SessionAssistantPartType::ToolCall);
    call.tool_call_id = Some("c1".into());
    call.tool_name = Some("shell".into());
    call.arguments = Some(object(&[("__hostRaw", text("{\"cmd\":\"ls\"}"))]));
    let mut words = part(SessionAssistantPartType::Text);
    words.text = Some("done".into());
    let result = SessionThreadViewEntry::Message(SessionThreadViewMessage::ToolResult(
        SessionToolResultMessage {
            tool_call_id: "c1".into(),
            tool_name: Some("shell".into()),
            content: "files".into(),
            is_error: Some(false),
            source_messages: vec![source("m4", Some("codex:t:id:fco_1:d:tool_result"))],
        },
    ));
    let mut last = stored("m5", 15, MessageKind::AssistantText, "t1", "done");
    last.provider_usage = Some(usage(10));
    let mut first = turn("t1", 1, TurnStatus::Closed, &["m1", "m2", "m3", "m4", "m5"]);
    first.outcome = Some(TurnOutcome::Completed);
    first.started_at = Some("1970-01-01T00:00:10.000Z".into());
    first.ended_at = Some("1970-01-01T00:00:12.000Z".into());
    MaterializeInput {
        entries: vec![
            user_entry("[context · brief] earlier", vec![]),
            user_entry("list", vec![source("m1", Some("codex:t:id:msg_1:d:user_prompt"))]),
            assistant_entry(
                vec![thinking, call],
                vec![
                    source("m2", Some("codex:t:id:rs_1:d:assistant_thinking")),
                    source("m3", Some("codex:t:id:fc_1:d:tool_call")),
                ],
            ),
            result,
            assistant_entry(
                vec![words],
                vec![source("m5", Some("codex:t:id:msg_2:d:assistant_text"))],
            ),
            user_entry("again", vec![source("m6", None)]),
        ],
        messages: vec![
            stored("m1", 11, MessageKind::UserPrompt, "t1", "list"),
            stored("m2", 12, MessageKind::AssistantThinking, "t1", "hm"),
            stored("m3", 13, MessageKind::ToolCall, "t1", ""),
            stored("m4", 14, MessageKind::ToolResult, "t1", "files"),
            last,
            stored("m6", 16, MessageKind::UserPrompt, "t2", "again"),
        ],
        turns: vec![first, turn("t2", 2, TurnStatus::Open, &["m6"])],
        ..input()
    }
}

#[test]
fn conversation_is_rebuilt_line_by_line() {
    let band = said_by("user", None, "[context · brief] earlier");
    let expected = vec![
        RolloutItem::SessionMeta(object(&[("id", text("thread"))])),
        shown("list"),
        item(band.clone()),
        boundary(vec![band]),
        event(EventMsg::ContextCompacted),
        event(EventMsg::TurnStarted {
            turn_id: "t1".into(),
            started_at: Some(10),
        }),
        item(said_by("user", None, "list")),
        shown("list"),
        item(ResponseItem::Reasoning {
            id: Some("rs_1".into()),
            summary: vec![ReasoningItemReasoningSummary::SummaryText { text: "hm".into() }],
            content: None,
            encrypted_content: Some("sig".into()),
            internal_chat_message_metadata_passthrough: None,
        }),
        event(EventMsg::AgentReasoning { text: "hm".into() }),
        item(ResponseItem::FunctionCall {
            id: Some("fc_1".into()),
            name: "shell".into(),
            namespace: None,
            arguments: "{\"cmd\":\"ls\"}".into(),
            encrypted_function_args: None,
            call_id: "c1".into(),
            internal_chat_message_metadata_passthrough: None,
        }),
        item(ResponseItem::FunctionCallOutput {
            id: Some("fco_1".into()),
            call_id: Some("c1".into()),
            name: None,
            namespace: None,
            output: FunctionCallOutputPayload {
                body: FunctionCallOutputBody::Text("files".into()),
                success: Some(true),
            },
            internal_chat_message_metadata_passthrough: None,
        }),
        item(said_by("assistant", Some("msg_2"), "done")),
        event(EventMsg::AgentMessage {
            message: "done".into(),
        }),
        event(EventMsg::TokenCount {
            total_token_usage: usage(10),
            last_token_usage: usage(10),
        }),
        event(EventMsg::TurnComplete {
            turn_id: "t1".into(),
            started_at: Some(10),
            completed_at: Some(12),
            duration_ms: Some(2000),
        }),
        item(said_by("user", None, "again")),
        shown("again"),
    ];
    let result = try_materialize_rollout(&conversation()).expect("usage fits");
    assert_eq!(result.items, expected);
    assert!(result.gap_notes.is_empty(), "{:?}", result.gap_notes);
    assert_eq!(boundary_completeness_error(&result.items), None);
    assert_eq!(model_stream_response_item_count(&result.items), 1);
}

#[test]
fn signature_of_another_model_is_left_out() {
    let other = MaterializeInput {
        live_identity: Some(ModelIdentity::new("p", "m2", "responses")),
        ..conversation()
    };
    let result = materialize_rollout(&other);
    for line in &result.items {
        if let RolloutItem::ResponseItem(ResponseItem::Reasoning {
            encrypted_content, ..
        }) = line
        {
            assert_eq!(*encrypted_content, None);
            return;
        }
    }
    panic!("the thought itself must stay");
}

#[test]
fn rolled_back_turn_is_left_out() {
    let prior = vec![
        started("h1"),
        shown("list"),
        started("h2"),
        shown("again"),
        event(EventMsg::ThreadRolledBack { num_turns: 1 }),
    ];
    let rebuilt = MaterializeInput {
        prior_generation: prior,
        ..conversation()
    };
    let result = materialize_rollout(&rebuilt);
    assert!(!result.items.contains(&started("t2")));
    assert!(!result.items.contains(&shown("again")));
    assert!(result.items.contains(&shown("list")));
    assert!(result.gap_notes.is_empty());
    assert!(!result
        .items
        .iter()
        .any(|l| matches!(l, RolloutItem::EventMsg(EventMsg::ThreadRolledBack { .. }))));
}

#[test]
fn doubtful_rollback_excludes_nothing() {
    let c = conversation();
    let prior = vec![
        started("h1"),
        shown("list"),
        started("h2"),
        shown("some \"other\" text\n"),
        event(EventMsg::ThreadRolledBack { num_turns: 1 }),
    ];
    let (turns, notes) = rolled_back_turn_ids(&prior, &c.messages, &c.turns);
    assert!(turns.is_empty());
    assert_eq!(
        notes,
        vec![
            "rollback alignment mismatch at position 1: \
             prior_segment=\"some \\\"other\\\" text\\n\" lhc_turn=\"again\"; \
             excluding nothing (under-exclusion)"
                .to_string()
        ]
    );
    let (turns, notes) = rolled_back_turn_ids(&prior, &vec![], &vec![]);
    assert!(turns.is_empty());
    assert_eq!(
        notes,
        vec![
            "rollback alignment: fewer LHC user-prompt turns (0) than prior post-boundary \
             segments (2); excluding nothing (under-exclusion)"
                .to_string()
        ]
    );
}

#[test]
fn segments_begin_behind_the_boundary() {
    let segments = prior_user_segments_with_drop(&vec![
        started("h0"),
        shown("before"),
        boundary(vec![]),
        started("h1"),
        shown("one"),
        item(said_by("user", None, "one")),
        started("h2"),
        item(said_by("user", None, "two")),
        event(EventMsg::ThreadRolledBack { num_turns: 1 }),
        started("h3"),
        shown("three"),
    ]);
    let seen: Vec<(&str, bool)> = segments
        .iter()
        .map(|s| (s.text.as_str(), s.dropped))
        .collect();
    assert_eq!(seen, vec![("one", false), ("two", true), ("three", false)]);
}

#[test]
fn prompts_are_ordered_by_their_turns() {
    let messages = vec![
        stored("b", 9, MessageKind::UserPrompt, "t2", "second"),
        stored("a2", 3, MessageKind::UserPrompt, "t1", "steer"),
        stored("a", 2, MessageKind::UserPrompt, "t1", "first"),
        stored("x", 1, MessageKind::UserPrompt, "unknown", "lost"),
        stored("n", 4, MessageKind::RuntimeNote, "t1", "note"),
    ];
    let turns = vec![
        turn("t1", 1, TurnStatus::Closed, &[]),
        turn("t2", 2, TurnStatus::Open, &[]),
    ];
    let rows = lhc_user_prompt_turns_ordered(&messages, &turns);
    let seen: Vec<(&str, &str)> = rows
        .iter()
        .map(|r| (r.turn_id.as_str(), r.text.as_str()))
        .collect();
    assert_eq!(
        seen,
        vec![("t1", "first"), ("t2", "second"), ("unknown", "lost")]
    );
}

#[test]
fn lines_that_only_a_rollout_knows_are_carried() {
    let settings = event(EventMsg::ThreadSettingsApplied(text("s")));
    let goal = event(EventMsg::ThreadGoalUpdated(text("g")));
    let plan = event(EventMsg::ItemCompleted {
        item: CompletedItem::Plan,
        event: text("p"),
    });
    let other = event(EventMsg::ItemCompleted {
        item: CompletedItem::Other,
        event: text("o"),
    });
    let agent = RolloutItem::InterAgentCommunication(text("i"));
    let rebuilt = MaterializeInput {
        prior_generation: vec![
            plan.clone(),
            settings.clone(),
            other,
            RolloutItem::TurnContext(text("old")),
            agent.clone(),
            goal.clone(),
        ],
        world_state: Some(object(&[("w", Json::Int(1))])),
        turn_context: Some(text("ctx")),
        guardian_history: Some(text("seen")),
        ..input()
    };
    let result = materialize_rollout(&rebuilt);
    let record = match boundary(vec![]) {
        RolloutItem::Compacted(c) => CompactedItem {
            guardian_history: Some(text("seen")),
            ..c
        },
        other => panic!("unexpected {other:?}"),
    };
    assert_eq!(
        result.items,
        vec![
            RolloutItem::SessionMeta(object(&[("id", text("thread"))])),
            settings,
            goal,
            RolloutItem::Compacted(record),
            RolloutItem::WorldState(object(&[("w", Json::Int(1))])),
            event(EventMsg::ContextCompacted),
            RolloutItem::TurnContext(text("ctx")),
            plan,
            agent,
        ]
    );
    let broken = MaterializeInput {
        world_state: Some(Json::Int(1)),
        ..input()
    };
    assert_eq!(
        materialize_rollout(&broken).gap_notes,
        vec!["world_state snapshot was not an object; omitted from rebuilt rollout".to_string()]
    );
}

#[test]
fn boundary_record_must_be_whole() {
    let whole = boundary(vec![said_by("user", None, "x")]);
    let with = |history: Option<Vec<ResponseItem>>, window: Option<u64>| {
        match boundary(vec![]) {
            RolloutItem::Compacted(c) => RolloutItem::Compacted(CompactedItem {
                replacement_history: history,
                window_number: window,
                ..c
            }),
            other => other,
        }
    };
    for (lines, error) in [
        (vec![], Some("missing Compacted boundary record")),
        (
            vec![whole.clone(), whole.clone()],
            Some("expected exactly one Compacted boundary record"),
        ),
        (
            vec![with(None, Some(1))],
            Some("Compacted.replacement_history is None"),
        ),
        (
            vec![with(Some(vec![]), Some(1))],
            Some("Compacted.replacement_history is empty"),
        ),
        (
            vec![with(Some(vec![said_by("user", None, "x")]), None)],
            Some("Compacted.window_number is None"),
        ),
        (vec![whole.clone()], None),
    ] {
        assert_eq!(boundary_completeness_error(&lines), error);
    }
}

#[test]
fn usage_adds_up_in_stored_order() {
    let mut a = stored("a", 1, MessageKind::AssistantText, "t1", "x");
    a.provider_usage = Some(usage(10));
    let mut b = stored("b", 5, MessageKind::AssistantText, "t2", "x");
    b.provider_usage = Some(usage(100));
    let mut c = stored("c", 3, MessageKind::AssistantText, "t1", "x");
    c.provider_usage = Some(usage(1000));
    let messages = vec![a, b, c];
    let (total, last) = cumulative_usage_at(&messages, &vec![], "b").expect("usage");
    assert_eq!(total.input_tokens, 1110);
    assert_eq!(total.cached_input_tokens, 3);
    assert_eq!(total.total_tokens, 1116);
    assert_eq!(last, usage(100));
    let (total, _) = cumulative_usage_at(&messages, &vec!["t1".to_string()], "b").expect("usage");
    assert_eq!(total, usage(100));
    assert_eq!(
        cumulative_usage_at(&messages, &vec!["t2".to_string()], "b"),
        None
    );
    assert_eq!(cumulative_usage_at(&messages, &vec![], "zz"), None);
}

#[test]
fn usage_beyond_all_counts_is_refused() {
    let mut c = conversation();
    let mut big = usage(0);
    big.input_tokens = i64::MAX;
    c.messages[0].provider_usage = Some(big);
    assert!(!usage_totals_fit(&c.messages, &vec![]));
    assert!(!can_tell_usage(&c));
    assert!(try_materialize_rollout(&c).is_none());
    assert!(can_tell_usage(&conversation()));
}

#[test]
fn end_of_a_turn_tells_how_it_ended() {
    let mut t = turn("t1", 1, TurnStatus::Closed, &[]);
    t.outcome = Some(TurnOutcome::Aborted);
    t.outcome_reason = Some("Review_Ended".into());
    t.started_at = Some("5".into());
    t.ended_at = Some("nonsense".into());
    assert_eq!(
        emit_turn_end(&t, &HostTurnIds::default()),
        EventMsg::TurnAborted {
            turn_id: Some("t1".into()),
            reason: map_abort_reason(&t.outcome_reason),
            started_at: Some(5),
            completed_at: None,
            duration_ms: None,
        }
    );
    for (word, reason) in [
        (Some("replaced"), TurnAbortReason::Replaced),
        (Some("review_ended"), TurnAbortReason::ReviewEnded),
        (Some("budget_limited"), TurnAbortReason::BudgetLimited),
        (Some("interrupted"), TurnAbortReason::Interrupted),
        (Some("anything"), TurnAbortReason::Interrupted),
        (None, TurnAbortReason::Interrupted),
    ] {
        assert_eq!(map_abort_reason(&word.map(str::to_string)), reason);
    }
}

#[test]
fn times_read_back() {
    assert_eq!(unix_secs_to_iso(0), "1970-01-01T00:00:00.000Z");
    assert_eq!(unix_secs_to_iso(1_782_907_204), "2026-07-01T12:00:04.000Z");
    let last = chrono::DateTime::<chrono::Utc>::MAX_UTC.timestamp();
    let first = chrono::DateTime::<chrono::Utc>::MIN_UTC.timestamp();
    for secs in [
        0,
        -1,
        1_782_907_204,
        253_402_300_799, // the last second of the year 9999
        253_402_300_800,
        -62_135_596_800, // the first second of the year 1
        -62_135_596_801,
        -62_167_219_201, // the last second before the year 0
        last,
        last + 1,
        first,
        first - 1,
        i64::MAX,
        i64::MIN,
    ] {
        let iso = unix_secs_to_iso(secs);
        assert_eq!(iso_to_unix_secs(&iso), Some(secs), "{iso}");
    }
    assert_eq!(unix_secs_to_iso(i64::MIN), "-9223372036854775808");
    assert_eq!(iso_to_unix_secs("+12"), Some(12));
    assert_eq!(iso_to_unix_secs("-+12"), None);
    assert_eq!(
        iso_to_unix_secs("1970-01-01T01:00:00.5+01:00"),
        Some(0)
    );
    assert_eq!(iso_to_unix_secs("1970-01-01"), None);
}

#[test]
fn identities_come_out_of_keys() {
    assert_eq!(
        parse_host_id_from_key("codex:t%3A1:id:msg%3A1%25:d:user_prompt").as_deref(),
        Some("msg:1%")
    );
    assert_eq!(
        parse_host_id_from_key("codex:t:anon:d:0:user_prompt"),
        None
    );
    assert_eq!(
        parse_host_id_from_key("codex:t:id:synthetic%3Ax:d:user_prompt"),
        None
    );
    assert_eq!(decode_percent("a%C3%BCb"), "aüb");
    assert_eq!(decode_percent("100%"), "100%");
    assert_eq!(decode_percent("%FF"), "ÿ");
    assert_eq!(sanitize_id("synthetic:1"), None);
    assert_eq!(host_id_kind_prefix("ctco_1"), Some("ctco"));
    assert_eq!(host_id_kind_prefix("ctc"), Some("ctc"));
    assert_eq!(host_id_kind_prefix("fcx"), None);
}

#[test]
fn calls_are_rebuilt_by_what_they_were() {
    let mut notes = vec![];
    let raw = entries_of(&[("__hostRaw", text("raw input"))]);
    let (call, kind) = reverse_tool_call("apply", "c1", &raw, &Some("ctc_9".into()), &mut notes);
    assert_eq!(kind, RecoveredToolCallKind::Custom);
    assert_eq!(
        call,
        ResponseItem::CustomToolCall {
            id: Some("ctc_9".into()),
            status: None,
            call_id: "c1".into(),
            name: "apply".into(),
            namespace: None,
            input: "raw input".into(),
            internal_chat_message_metadata_passthrough: None,
        }
    );
    assert!(notes.is_empty());
    let (call, _) = reverse_tool_call("apply", "c1", &raw, &Some("ws_1".into()), &mut notes);
    assert_eq!(call.id(), None);
    assert_eq!(
        notes,
        vec![
            "tool_call id prefix \"ws\" unrepresentable as \
             FunctionCall/CustomToolCall; id=None"
                .to_string()
        ]
    );
    let mut notes = vec![];
    let action = LocalShellAction::Exec(LocalShellExecAction {
        command: vec!["ls".into(), "-l".into()],
        timeout_ms: Some(5),
        working_directory: Some("/w".into()),
        env: Some(vec![EnvVar {
            name: "A".into(),
            value: "b".into(),
        }]),
        user: None,
    });
    let arguments = match action.to_wire() {
        Json::Object(e) => e,
        other => panic!("unexpected {other:?}"),
    };
    assert_eq!(read_shell_action(&arguments), action);
    let (call, kind) =
        reverse_tool_call("local_shell", "", &arguments, &Some("lsh_1".into()), &mut notes);
    assert_eq!(kind, RecoveredToolCallKind::LocalShell);
    assert_eq!(
        call,
        ResponseItem::LocalShellCall {
            id: Some("lsh_1".into()),
            call_id: None,
            status: LocalShellStatus::Completed,
            action,
            internal_chat_message_metadata_passthrough: None,
        }
    );
}

/// The entries of a value, each value by its notation.
fn by_notation(value: Json) -> Vec<(String, Json)> {
    match value {
        Json::Object(e) => e
            .into_iter()
            .map(|(name, value)| (name, Json::Raw(value.to_text())))
            .collect(),
        other => panic!("unexpected {other:?}"),
    }
}

#[test]
fn values_by_their_notation_are_looked_into() {
    let shell = LocalShellAction::Exec(LocalShellExecAction {
        command: vec!["ls".into(), "-l".into()],
        timeout_ms: Some(5),
        working_directory: Some("/w".into()),
        env: Some(vec![EnvVar {
            name: "A".into(),
            value: "b".into(),
        }]),
        user: Some("me".into()),
    });
    assert_eq!(read_shell_action(&by_notation(shell.to_wire())), shell);
    let search = WebSearchAction::Search {
        query: Some("q".into()),
        queries: Some(vec!["q".into(), "r".into()]),
    };
    assert_eq!(read_search_action(&by_notation(search.to_wire())), Some(search));
    let broken = entries_of(&[
        ("type", text("exec")),
        ("command", Json::Raw("[\"ls\"".into())),
        ("timeout_ms", Json::Raw("-5".into())),
    ]);
    assert_ne!(read_shell_action(&broken), shell);
}

#[test]
fn searches_are_rebuilt() {
    let action = WebSearchAction::Search {
        query: Some("q".into()),
        queries: Some(vec!["q".into(), "r".into()]),
    };
    let arguments = match action.to_wire() {
        Json::Object(e) => e,
        other => panic!("unexpected {other:?}"),
    };
    assert_eq!(read_search_action(&arguments), Some(action));
    let mut notes = vec![];
    let (call, _) = reverse_tool_call("web_search", "ws_7", &arguments, &None, &mut notes);
    assert_eq!(call.id().map(String::as_str), Some("ws_7"));
    assert_eq!(
        emit_display_twins(&call),
        Some(EventMsg::WebSearchEnd {
            call_id: "ws_7".into(),
            query: "q".into(),
            action: WebSearchAction::Search {
                query: Some("q".into()),
                queries: Some(vec!["q".into(), "r".into()]),
            },
        })
    );
    let (search, _) = reverse_tool_call(
        "tool_search",
        "c",
        &entries_of(&[("__hostRaw", text("{ \"query\" : \"x\" }"))]),
        &Some("tsc_1".into()),
        &mut notes,
    );
    match search {
        ResponseItem::ToolSearchCall { arguments, .. } => {
            assert_eq!(arguments.to_text(), "{\"query\":\"x\"}")
        }
        other => panic!("unexpected {other:?}"),
    }
}

#[test]
fn results_follow_their_calls() {
    let mut notes = vec![];
    let custom = reverse_tool_result(
        "c1",
        &Some("apply".into()),
        "ok",
        Some(true),
        &None,
        Some(RecoveredToolCallKind::Custom),
        &mut notes,
    );
    assert_eq!(
        custom,
        ResponseItem::CustomToolCallOutput {
            id: None,
            call_id: "c1".into(),
            name: Some("apply".into()),
            output: FunctionCallOutputPayload {
                body: FunctionCallOutputBody::Text("ok".into()),
                success: Some(false),
            },
            internal_chat_message_metadata_passthrough: None,
        }
    );
    assert!(notes.is_empty());
    let found = reverse_tool_result(
        "c2",
        &Some("tool_search".into()),
        "[{\"name\":\"a\"}]",
        None,
        &Some("tso_1".into()),
        None,
        &mut notes,
    );
    match found {
        ResponseItem::ToolSearchOutput {
            id, status, tools, ..
        } => {
            assert_eq!(id.as_deref(), Some("tso_1"));
            assert_eq!(status, "completed");
            let shown: Vec<String> = tools.iter().map(Json::to_text).collect();
            assert_eq!(shown, vec!["{\"name\":\"a\"}".to_string()]);
        }
        other => panic!("unexpected {other:?}"),
    }
    let misfit = reverse_tool_result(
        "c3",
        &None,
        "r",
        None,
        &Some("msg_1".into()),
        None,
        &mut notes,
    );
    assert!(matches!(
        misfit,
        ResponseItem::FunctionCallOutput { id: None, .. }
    ));
    assert_eq!(
        notes,
        vec![
            "tool_result id prefix \"msg\" unrepresentable as fco/ctco; id=None, kind \
             from call pairing"
                .to_string()
        ]
    );
}

#[test]
fn images_are_put_together() {
    assert_eq!(
        complete_image_generation(
            "ig_1",
            "{\"status\":\"generating\",\"result\":\"AAAA\"}",
            Some("a cat".into()),
            None
        ),
        ResponseItem::ImageGenerationCall {
            id: Some("ig_1".into()),
            status: "generating".into(),
            revised_prompt: Some("a cat".into()),
            result: "AAAA".into(),
            internal_chat_message_metadata_passthrough: None,
        }
    );
    assert_eq!(
        complete_image_generation("ig_2", "no json", None, Some(true)),
        ResponseItem::ImageGenerationCall {
            id: Some("ig_2".into()),
            status: "failed".into(),
            revised_prompt: None,
            result: "no json".into(),
            internal_chat_message_metadata_passthrough: None,
        }
    );
    assert_eq!(
        unanswered_image_item("synthetic:1", None),
        ResponseItem::ImageGenerationCall {
            id: None,
            status: "unknown".into(),
            revised_prompt: None,
            result: "".into(),
            internal_chat_message_metadata_passthrough: None,
        }
    );
}

#[test]
fn image_that_nothing_answered_is_told_at_the_end() {
    let mut call = part(SessionAssistantPartType::ToolCall);
    call.tool_call_id = Some("ig_1".into());
    call.tool_name = Some("image_generation".into());
    call.arguments = Some(object(&[("revisedPrompt", text("a dog"))]));
    let rebuilt = MaterializeInput {
        entries: vec![assistant_entry(vec![call], vec![source("m1", None)])],
        messages: vec![stored("m1", 1, MessageKind::ToolCall, "t1", "")],
        turns: vec![turn("t1", 1, TurnStatus::Open, &["m1"])],
        ..input()
    };
    let result = materialize_rollout(&rebuilt);
    let n = result.items.len();
    assert_eq!(
        result.items[n - 2..],
        [
            item(unanswered_image_item("ig_1", Some("a dog".into()))),
            event(EventMsg::ImageGenerationEnd {
                call_id: "ig_1".into(),
                status: "unknown".into(),
                revised_prompt: Some("a dog".into()),
                result: "".into(),
            })
        ]
    );
}

#[test]
fn guardian_fold_pairs_its_calls() {
    let session = object(&[("id", text("s"))]);
    let fold = materialize_guardian_tool_fold(
        session.clone(),
        object(&[("seen", Json::Bool(true))]),
        GuardianFoldTailExtras {
            extra_call_id: Some("fc_extra"),
            unpaired_call_id: None,
        },
    );
    assert_eq!(fold[0], RolloutItem::SessionMeta(session));
    assert_eq!(boundary_completeness_error(&fold), None);
    let calls: Vec<&str> = fold
        .iter()
        .filter_map(|l| match l {
            RolloutItem::ResponseItem(ResponseItem::FunctionCall { call_id, .. }) => {
                Some(call_id.as_str())
            }
            _ => None,
        })
        .collect();
    assert_eq!(calls, vec![OVERLAP_CALL_ID, "fc_extra"]);
    let results: Vec<Option<&str>> = fold
        .iter()
        .filter_map(|l| match l {
            RolloutItem::ResponseItem(ResponseItem::FunctionCallOutput { call_id, .. }) => {
                Some(call_id.as_deref())
            }
            _ => None,
        })
        .collect();
    assert_eq!(results, vec![Some(OVERLAP_CALL_ID), Some("fc_extra")]);
    let guardian = fold.iter().find_map(|l| match l {
        RolloutItem::Compacted(c) => c.guardian_history.clone(),
        _ => None,
    });
    assert_eq!(guardian, Some(object(&[("seen", Json::Bool(true))])));
}

#[test]
fn order_is_stable() {
    assert_eq!(
        sorted_positions(&vec![(2, 0), (1, 5), (2, 0), (1, 4), (i64::MIN, 9)]),
        vec![4, 3, 1, 0, 2]
    );
}

#[test]
fn arguments_without_a_wire_string_are_written_anew() {
    let mut notes = vec![];
    let arguments = entries_of(&[
        (
            "__hostEncryptedFunctionArgs",
            Json::List(vec![text("x"), Json::Int(1), text("y")]),
        ),
        ("a", Json::Int(1)),
        ("b", Json::Int(2)),
        ("c", Json::Int(3)),
    ]);
    let (call, kind) = reverse_tool_call("apply", "c1", &arguments, &None, &mut notes);
    assert_eq!(kind, RecoveredToolCallKind::Function);
    assert_eq!(
        call,
        ResponseItem::FunctionCall {
            id: None,
            name: "apply".into(),
            namespace: None,
            arguments: "{\"c\":3,\"a\":1,\"b\":2}".into(),
            encrypted_function_args: Some(vec!["x".into(), "y".into()]),
            call_id: "c1".into(),
            internal_chat_message_metadata_passthrough: None,
        }
    );
    assert!(notes.is_empty());
}

fn lifecycle_names(items: &[RolloutItem]) -> Vec<String> {
    items
        .iter()
        .filter_map(|l| match l {
            RolloutItem::EventMsg(EventMsg::TurnStarted { turn_id, .. }) => {
                Some(format!("start {turn_id}"))
            }
            RolloutItem::EventMsg(EventMsg::TurnComplete { turn_id, .. }) => {
                Some(format!("end {turn_id}"))
            }
            RolloutItem::EventMsg(EventMsg::TurnAborted { turn_id, .. }) => {
                Some(format!("abort {}", turn_id.as_deref().unwrap_or("")))
            }
            _ => None,
        })
        .collect()
}

#[test]
fn open_turn_is_not_told() {
    let result = materialize_rollout(&conversation());
    assert_eq!(lifecycle_names(&result.items), vec!["start t1", "end t1"]);
    let alone = MaterializeInput {
        entries: vec![user_entry("hi", vec![source("m1", None)])],
        messages: vec![stored("m1", 1, MessageKind::UserPrompt, "t1", "hi")],
        turns: vec![turn("t1", 1, TurnStatus::Open, &["m1"])],
        ..input()
    };
    let result = materialize_rollout(&alone);
    assert!(lifecycle_names(&result.items).is_empty());
    assert!(result.items.contains(&item(said_by("user", None, "hi"))));
    let unknown = MaterializeInput {
        turns: vec![],
        ..alone
    };
    assert!(lifecycle_names(&materialize_rollout(&unknown).items).is_empty());
}

#[test]
fn turns_that_are_over_end_before_the_next_begins() {
    let mut turns = vec![];
    let mut entries = vec![];
    let mut messages = vec![];
    for n in 1..=3_i64 {
        let (id, m) = (format!("t{n}"), format!("m{n}"));
        entries.push(user_entry(&format!("say {n}"), vec![source(&m, None)]));
        messages.push(stored(&m, n, MessageKind::UserPrompt, &id, &format!("say {n}")));
        turns.push(turn(&id, n, TurnStatus::Closed, &[m.as_str()]));
    }
    let result = materialize_rollout(&MaterializeInput {
        entries,
        messages,
        turns,
        ..input()
    });
    assert_eq!(
        lifecycle_names(&result.items),
        vec!["start t1", "end t1", "start t2", "end t2", "start t3", "end t3"]
    );
}

#[test]
fn mark_of_the_compact_stands_once_behind_the_boundary() {
    let items = materialize_rollout(&conversation()).items;
    let marks: Vec<usize> = (0..items.len())
        .filter(|i| items[*i] == event(EventMsg::ContextCompacted))
        .collect();
    assert_eq!(marks.len(), 1);
    assert!(matches!(items[marks[0] - 1], RolloutItem::Compacted(_)));
}

#[test]
fn turns_are_told_under_the_names_of_the_host() {
    let mut c = conversation();
    c.turns[0].outcome = Some(TurnOutcome::Aborted);
    c.host_turn_ids = HostTurnIds {
        pairs: vec![
            TurnIdPair {
                lhc_turn_id: "t1".into(),
                host_turn_id: "019a-host".into(),
            },
            TurnIdPair {
                lhc_turn_id: "t2".into(),
                host_turn_id: "019b-host".into(),
            },
        ],
    };
    assert_eq!(
        lifecycle_names(&materialize_rollout(&c).items),
        vec!["start 019a-host", "abort 019a-host"]
    );
}

#[test]
fn ids_of_an_unknown_kind_are_cleared_with_a_note() {
    let raw = entries_of(&[("__hostRaw", text("{}"))]);
    for (tool, said) in [
        (
            "exec",
            "tool_call id prefix unknown unrepresentable as \
             FunctionCall/CustomToolCall; id=None",
        ),
        (
            "local_shell",
            "tool_call local_shell id prefix unknown unrepresentable with LocalShellCall; \
             clearing id",
        ),
        (
            "web_search",
            "tool_call web_search id prefix unknown unrepresentable with WebSearchCall; \
             clearing id",
        ),
        (
            "tool_search",
            "tool_call tool_search id prefix unknown unrepresentable with ToolSearchCall; \
             clearing id",
        ),
    ] {
        let mut notes = vec![];
        let (call, _) = reverse_tool_call(tool, "c1", &raw, &Some("foo_1".into()), &mut notes);
        assert_eq!(call.id(), None, "{tool}");
        assert_eq!(notes, vec![said.to_string()]);
    }
    let mut notes = vec![];
    let (call, kind) = reverse_tool_call("exec", "c1", &raw, &None, &mut notes);
    assert_eq!(kind, RecoveredToolCallKind::Function);
    assert_eq!(call.id(), None);
    assert!(notes.is_empty());
    let result = reverse_tool_result(
        "c1",
        &Some("exec".into()),
        "out",
        None,
        &Some("foo_1".into()),
        Some(RecoveredToolCallKind::Custom),
        &mut notes,
    );
    assert!(matches!(
        result,
        ResponseItem::CustomToolCallOutput { id: None, .. }
    ));
    assert_eq!(
        notes,
        vec![
            "tool_result id prefix unknown unrepresentable as fco/ctco; id=None, kind from \
             call pairing"
                .to_string()
        ]
    );
    let found = reverse_tool_result(
        "c1",
        &Some("tool_search".into()),
        "[]",
        None,
        &Some("foo_1".into()),
        None,
        &mut notes,
    );
    assert_eq!(found.id(), None);
    assert_eq!(notes.len(), 2);
    assert_eq!(
        notes[1],
        "tool_result tool_search id prefix unknown unrepresentable with ToolSearchOutput; \
         clearing id"
    );
}
