//! Coverage of a host's history, markers of compacts, and the course of one.

use codex_lhc_host::collections::TextSet;
use codex_lhc_host::compact_bridge::{
    archive_tip_identity, body_contains_degraded_marker, check_cancel, compact_marker_event,
    llm_request_context_to_response_items, produce_start, produce_step, CompactPhase, CompactReply,
    CompactRequest, CompactStep, LhcCompactUnavailable, LlmRequestContext,
    LlmRequestContextMessage, LlmRequestContextPart, LlmRequestContextPartType,
    LlmRequestContextRole,
};
use codex_lhc_host::compact_marker::{
    compact_point_from_marker_key, content_identity_digest, derived_digests_from_archive,
    derived_ids_from_archive, fields_among, find_marker_notation, is_compact_marker_idempotency_key,
    texts_from_read, CompactMarker, CompactReceipt, DERIVED_MARKER_CAP,
};
use codex_lhc_host::coverage::{
    archive_host_item_ids, classify_coverage, decode_thread_id, host_history_coverage_gap,
    host_history_coverage_gap_with_derived, host_history_coverage_gap_with_provenance,
    host_items_missing_from_archive, host_items_missing_from_archive_with_derived,
    host_items_missing_from_archive_with_provenance, parse_host_id_from_archive_key, plan_import,
    unrepresentable_host_items_gap, CoverageClass, DerivedProvenance,
};
use codex_lhc_host::idempotency::{
    encode_thread_id, item_digest, item_event_key, item_stable_id, OccurrenceTracker,
};
use codex_lhc_host::json::Json;
use codex_lhc_host::json_members::{read_members, read_values};
use codex_lhc_host::protocol::{
    ContentItem, FunctionCallOutputBody, FunctionCallOutputPayload, ResponseItem,
};
use codex_lhc_host::records::{EventKind, EventPayload, EventRecord};
use std::hash::{Hash, Hasher};

fn message(role: &str, text: &str, id: Option<&str>) -> ResponseItem {
    let text = text.to_string();
    ResponseItem::Message {
        id: id.map(str::to_string),
        role: role.into(),
        content: vec![if role == "user" {
            ContentItem::InputText { text }
        } else {
            ContentItem::OutputText { text }
        }],
        phase: None,
        internal_chat_message_metadata_passthrough: None,
    }
}

fn user(text: &str, id: &str) -> ResponseItem {
    message("user", text, Some(id))
}

fn event(key: &str, order: i64) -> EventRecord {
    EventRecord {
        kind: EventKind::UserPrompt,
        idempotency_key: key.to_string(),
        event_order: order,
        payload: EventPayload::Other,
    }
}

fn note(text: &str, key: &str, order: i64) -> EventRecord {
    EventRecord {
        kind: EventKind::RuntimeNote,
        idempotency_key: key.to_string(),
        event_order: order,
        payload: EventPayload::Text {
            text: text.to_string(),
        },
    }
}

fn set(words: &[&str]) -> TextSet {
    let mut s = TextSet::new();
    for w in words {
        s.insert(w);
    }
    s
}

fn receipt(point: i64) -> CompactReceipt {
    CompactReceipt {
        view_id: "view-1".into(),
        covered_from: 1,
        compact_point: point,
        total_tokens: 900,
        tail_tokens: 100,
        first_kept_message_id: Some("m7".into()),
        profile: None,
        bands: Json::List(vec![Json::Int(3)]),
    }
}

fn context(texts: &[(LlmRequestContextRole, &str)]) -> LlmRequestContext {
    LlmRequestContext {
        thread_id: "t".into(),
        messages: texts
            .iter()
            .map(|(role, text)| LlmRequestContextMessage {
                role: *role,
                content: vec![LlmRequestContextPart {
                    type_: LlmRequestContextPartType::Text,
                    text: text.to_string(),
                }],
            })
            .collect(),
    }
}

#[test]
fn compact_point_parses_from_marker_key_without_payload() {
    assert_eq!(
        compact_point_from_marker_key("codex:tid:compact_marker:tip:12:0:fp"),
        Some(12)
    );
    assert_eq!(
        compact_point_from_marker_key("codex:t%3Ax:compact_marker:order%3A9:4:1:body"),
        Some(4)
    );
    assert_eq!(
        compact_point_from_marker_key("codex:tid:id:msg:deadbeef:user_prompt"),
        None
    );
}

/// Equal text, distinct ids — identity decides.
#[test]
fn coverage_is_by_identity_not_text() {
    let a = user("same text twice", "id-a");
    let b = user("same text twice", "id-b");
    let key = item_event_key("t", Some("id-a"), &item_digest(&a), 0, "user_prompt", None);
    assert_eq!(
        parse_host_id_from_archive_key(&key).as_deref(),
        Some("id-a")
    );
    assert_eq!(content_identity_digest(&a), content_identity_digest(&b));
    assert_ne!(item_stable_id(&a), item_stable_id(&b));
}

#[test]
fn map_context_preserves_roles() {
    let ctx = LlmRequestContext {
        thread_id: "t".into(),
        messages: vec![
            LlmRequestContextMessage {
                role: LlmRequestContextRole::User,
                content: vec![LlmRequestContextPart {
                    type_: LlmRequestContextPartType::Text,
                    text: "hello".into(),
                }],
            },
            LlmRequestContextMessage {
                role: LlmRequestContextRole::Assistant,
                content: vec![LlmRequestContextPart {
                    type_: LlmRequestContextPartType::Text,
                    text: "world".into(),
                }],
            },
        ],
    };
    let items = llm_request_context_to_response_items(&ctx);
    assert_eq!(items.len(), 2);
    match &items[0] {
        ResponseItem::Message { role, .. } => assert_eq!(role, "user"),
        _ => panic!("expected message"),
    }
    match &items[1] {
        ResponseItem::Message { role, .. } => assert_eq!(role, "assistant"),
        _ => panic!("expected message"),
    }
}

#[test]
fn coverage_requires_tools_and_reasoning_excludes_native_compact() {
    let reasoning = ResponseItem::Reasoning {
        id: Some("r1".into()),
        summary: vec![],
        content: None,
        encrypted_content: Some("enc".into()),
        internal_chat_message_metadata_passthrough: None,
    };
    let call = ResponseItem::FunctionCall {
        id: Some("fc1".into()),
        name: "shell".into(),
        namespace: None,
        arguments: "{}".into(),
        encrypted_function_args: None,
        call_id: "call-1".into(),
        internal_chat_message_metadata_passthrough: None,
    };
    let result = ResponseItem::FunctionCallOutput {
        id: None,
        call_id: Some("call-1".into()),
        name: None,
        namespace: None,
        output: FunctionCallOutputPayload {
            body: FunctionCallOutputBody::Text("ok".into()),
            success: Some(true),
        },
        internal_chat_message_metadata_passthrough: None,
    };
    let native = ResponseItem::Compaction {
        id: None,
        encrypted_content: "native".into(),
        internal_chat_message_metadata_passthrough: None,
    };
    assert_eq!(classify_coverage(&reasoning), CoverageClass::Required);
    assert_eq!(classify_coverage(&call), CoverageClass::Required);
    assert_eq!(classify_coverage(&result), CoverageClass::Required);
    assert_eq!(classify_coverage(&native), CoverageClass::Excluded);
    assert_eq!(
        classify_coverage(&ResponseItem::Other),
        CoverageClass::Unrepresentable
    );
    assert!(unrepresentable_host_items_gap(&vec![ResponseItem::Other]).is_some());
}

#[test]
fn missing_tool_and_reasoning_are_coverage_candidates() {
    let call = ResponseItem::FunctionCall {
        id: Some("fc-miss".into()),
        name: "shell".into(),
        namespace: None,
        arguments: "{\"cmd\":\"echo\"}".into(),
        encrypted_function_args: None,
        call_id: "c-miss".into(),
        internal_chat_message_metadata_passthrough: None,
    };
    let reasoning = ResponseItem::Reasoning {
        id: Some("rs-miss".into()),
        summary: vec![],
        content: None,
        encrypted_content: Some("sig".into()),
        internal_chat_message_metadata_passthrough: None,
    };
    let missing =
        host_items_missing_from_archive(&vec![call.clone(), reasoning.clone()], &vec![]);
    assert_eq!(
        missing.len(),
        2,
        "tool+reasoning must be coverage candidates"
    );
    assert!(matches!(missing[0], ResponseItem::FunctionCall { .. }));
    assert!(matches!(missing[1], ResponseItem::Reasoning { .. }));
}

#[test]
fn thread_ids_are_decoded() {
    for id in ["plain", "a:b", "100%", "%3A", "ü:%25"] {
        assert_eq!(decode_thread_id(&encode_thread_id(id)), id);
    }
    assert_eq!(decode_thread_id("a%3Ab%25c"), "a:b%c");
}

#[test]
fn identities_are_found_in_the_archive() {
    let ids = archive_host_item_ids(&vec![
        event("codex:t:id:one:d1:user_prompt", 1),
        event("codex:t:anon:beef:0:user_prompt", 2),
        event("codex:t:id:two%3Ax:d2:tool_call:p", 3),
    ]);
    assert_eq!(ids.len(), 2);
    assert!(ids.contains("one") && ids.contains("two:x"));
}

#[test]
fn anonymous_items_are_counted() {
    let item = message("user", "same", None);
    let d = item_digest(&item);
    let one = event(&item_event_key("t", None, &d, 0, "user_prompt", None), 1);
    let items = vec![item.clone(), item.clone()];
    assert_eq!(
        host_items_missing_from_archive(&items, &vec![one]).len(),
        1,
        "one stored copy covers one of two"
    );
    let both = vec![
        event(&item_event_key("t", None, &d, 0, "user_prompt", None), 1),
        event(&item_event_key("t", None, &d, 1, "user_prompt", None), 2),
    ];
    assert!(host_items_missing_from_archive(&items, &both).is_empty());
}

#[test]
fn what_was_served_is_not_missing() {
    let a = user("served", "served-id");
    let anon = message("user", "served text", None);
    let derived = DerivedProvenance {
        ids: set(&["served-id"]),
        digests: set(&[content_identity_digest(&anon).as_str()]),
    };
    let items = vec![a.clone(), anon.clone()];
    assert!(host_items_missing_from_archive_with_provenance(&items, &vec![], &derived).is_empty());
    assert_eq!(
        host_history_coverage_gap_with_provenance(&items, &vec![], &derived),
        None
    );
    // A digest alone does not excuse an item that has an identity of its own.
    let digests = set(&[content_identity_digest(&a).as_str()]);
    assert_eq!(
        host_items_missing_from_archive_with_derived(&vec![a.clone()], &vec![], &digests).len(),
        1
    );
    assert!(host_history_coverage_gap_with_derived(&vec![a], &vec![], &digests).is_some());
}

#[test]
fn gap_is_told_in_words() {
    let gap = host_history_coverage_gap(&vec![user("x", "ghost")], &vec![]).expect("gap");
    assert!(gap.contains('1'), "{gap}");
    assert_eq!(host_history_coverage_gap(&vec![], &vec![]), None);
}

#[test]
fn markers_of_the_archive_add_to_what_was_served() {
    let body = vec![message("user", "body", None)];
    let marker = CompactMarker::from_receipt(&receipt(5), "t", &body, "tip");
    let events = vec![note(
        &marker.to_durable_writeback_record(),
        &marker.marker_key,
        4,
    )];
    let digests = derived_digests_from_archive(&events);
    assert!(digests.contains(&content_identity_digest(&body[0])));
    assert_eq!(derived_ids_from_archive(&events).len(), 0);
    let all = DerivedProvenance::from_session_and_archive(&set(&["a"]), &set(&["b"]), &events);
    assert!(all.ids.contains("a"));
    assert!(all.digests.contains("b") && all.digests.contains(&content_identity_digest(&body[0])));
}

#[test]
fn only_the_newest_markers_are_looked_at() {
    let mut events = Vec::new();
    let mut digests = Vec::new();
    for n in 0..(DERIVED_MARKER_CAP as i64 + 2) {
        let body = vec![message("user", &format!("body {n}"), None)];
        digests.push(content_identity_digest(&body[0]));
        let marker = CompactMarker::from_receipt(&receipt(n), "t", &body, &format!("tip{n}"));
        events.push(note(
            &marker.to_durable_writeback_record(),
            &marker.marker_key,
            n,
        ));
    }
    let known = derived_digests_from_archive(&events);
    assert_eq!(known.len(), DERIVED_MARKER_CAP);
    assert!(!known.contains(&digests[0]) && !known.contains(&digests[1]));
    assert!(known.contains(digests.last().expect("some")));
}

#[test]
fn durable_record_reads_back() {
    let body = vec![user("a \"quoted\" text\n", "u1"), message("assistant", "ü", None)];
    let marker = CompactMarker::from_receipt(&receipt(12), "t:1", &body, "order:9");
    let record = marker.to_durable_writeback_record();
    assert!(CompactMarker::is_durable_writeback_record(&record));
    assert!(!CompactMarker::is_durable_writeback_record("lhc_compact_marker {}"));
    let back = CompactMarker::parse_durable_writeback_record(&record).expect("reads back");
    assert_eq!(back.to_durable_writeback_record(), record);
    assert_eq!(back.bands, Json::Raw("[3]".to_string()));
    assert_eq!(back.body_item_count, 2);
    assert_eq!(back.derived_content_digests, marker.derived_content_digests);
    assert_eq!(back.first_kept_message_id.as_deref(), Some("m7"));
    let listed = "lhc_compact_durable [\"v\",1,2,3,-4,null,\"p\",{},\"seam\",5,\"k\",\
                  [\"d\"],[],\"tip\"]";
    let from_list = CompactMarker::parse_durable_writeback_record(listed).expect("a list");
    assert_eq!(from_list.view_id, "v");
    assert_eq!(from_list.tail_tokens, -4);
    assert_eq!(from_list.first_kept_message_id, None);
    assert_eq!(from_list.derived_content_digests, vec!["d".to_string()]);
    assert_eq!(from_list.archive_tip, "tip");
    for broken in [
        "lhc_compact_durable [\"v\",1,2,3,-4,null,\"p\",{},\"seam\",5,\"k\",[\"d\"],\"tip\"]",
        "lhc_compact_durable ",
        "lhc_compact_durable {",
        "lhc_compact_durable []",
        "lhc_compact_durable {\"viewId\":1}",
        "nothing",
    ] {
        assert_eq!(CompactMarker::parse_durable_writeback_record(broken), None);
    }
}

/// A record with the members that it has to have, and some more before the last.
fn record_with(more: &str) -> String {
    format!(
        "lhc_compact_durable {{ \"viewId\":\"v\" ,\n\"coveredFrom\" : 1,\"compactPoint\":2,\
         \"totalTokens\":3,\"tailTokens\":4,\"bands\":{{\"a\":1,\"a\":2}},\
         \"viewMapSeam\":\"s\",\"bodyItemCount\":0,\"markerKey\":\"k\",\
         \"derivedContentDigests\":[\"d\"],{more}\"archiveTip\":\"t\"}}\t"
    )
}

#[test]
fn record_that_names_a_field_twice_is_refused() {
    let once = CompactMarker::parse_durable_writeback_record(&record_with("")).expect("a record");
    assert_eq!(once.covered_from, 1);
    assert_eq!(once.first_kept_message_id, None);
    assert_eq!(once.bands, Json::Raw("{\"a\":2}".to_string()));
    assert!(once.derived_host_ids.is_empty());
    for twice in [
        "\"viewId\":\"w\",",
        "\"view\\u0049d\":\"v\",",
        "\"profile\":null,\"profile\":null,",
        "\"archiveTip\":\"t\",",
    ] {
        let record = record_with(twice);
        assert_eq!(CompactMarker::parse_durable_writeback_record(&record), None, "{record}");
    }
    let event = note(&record_with("\"markerKey\":\"k\","), "n", 1);
    assert_eq!(derived_digests_from_archive(&vec![event]).len(), 0);
    assert_eq!(derived_digests_from_archive(&vec![note(&record_with(""), "n", 1)]).len(), 1);
}

#[test]
fn other_members_of_a_record_are_passed_over() {
    let once = CompactMarker::parse_durable_writeback_record(&record_with(""));
    assert!(once.is_some());
    let deep = format!("\"x\":{}{},", "[".repeat(300), "]".repeat(300));
    let halves = "\"x\":\"\\ud800\",";
    for more in [
        "\"x\":1,\"x\":2,",
        "\"x\":{\"viewId\":1,\"viewId\":2},",
        "\"x\":1e999,",
        "\"x\" : [ true , -1.5E+2 , \"}\" ] , ",
        halves,
        deep.as_str(),
    ] {
        let record = record_with(more);
        let read = CompactMarker::parse_durable_writeback_record(&record);
        assert_eq!(read, once, "{record}");
    }
    let deep_bands = record_with("").replace(
        "{\"a\":1,\"a\":2}",
        &format!("{}{}", "[".repeat(127), "]".repeat(127)),
    );
    assert_eq!(CompactMarker::parse_durable_writeback_record(&deep_bands), None);
    let bands = record_with("").replace(
        "{\"a\":1,\"a\":2}",
        &format!("{}{}", "[".repeat(126), "]".repeat(126)),
    );
    assert!(CompactMarker::parse_durable_writeback_record(&bands).is_some());
    for broken in [
        "\"x\":01,",
        "\"x\":tru,",
        "\"x\",",
        "x:1,",
        "7:1,",
        "\"x\":[1,],",
        "\"\\ud800\":1,",
        ",",
    ] {
        let record = record_with(broken);
        assert_eq!(CompactMarker::parse_durable_writeback_record(&record), None, "{record}");
    }
    for behind in ["}", ",", "1", "\"\""] {
        let record = format!("{}{behind}", record_with(""));
        assert_eq!(CompactMarker::parse_durable_writeback_record(&record), None, "{record}");
    }
    assert_eq!(CompactMarker::parse_durable_writeback_record("lhc_compact_durable {}"), None);
}

#[test]
fn fields_are_picked_out_of_the_members() {
    let member = |name: &str, value: Option<Json>| (name.to_string(), value);
    let one = || Some(Json::Raw("1".into()));
    assert_eq!(
        fields_among(&vec![
            member("other", None),
            member("coveredFrom", one()),
            member("other", one()),
        ]),
        Some(vec![("coveredFrom".to_string(), Json::Raw("1".into()))])
    );
    assert_eq!(
        fields_among(&vec![member("bands", one()), member("bands", one())]),
        None
    );
    assert_eq!(fields_among(&vec![member("bands", None)]), None);
    assert_eq!(
        read_members(" { \"a\" : [ 1 ] , \"a\":\"\\n\" } "),
        Some(vec![
            ("a".to_string(), " [ 1 ]".to_string()),
            ("a".to_string(), "\"\\n\"".to_string()),
        ])
    );
    assert_eq!(read_members("{ }"), Some(vec![]));
    assert_eq!(read_members("{\"a\":1,}"), None);
    assert_eq!(read_members("[1]"), None);
    assert_eq!(
        read_values(&vec![
            ("a".to_string(), " [ 1 ]".to_string()),
            ("b".to_string(), "\"\\n\"".to_string()),
            ("c".to_string(), "1e999".to_string()),
        ]),
        vec![
            ("a".to_string(), Some(Json::Raw("[1]".into()))),
            ("b".to_string(), Some(Json::Text("\n".into()))),
            ("c".to_string(), None),
        ]
    );
}

#[test]
fn note_leaves_out_the_lists() {
    let body = vec![user("the body text", "u1")];
    let marker = CompactMarker::from_receipt(&receipt(12), "t", &body, "tip");
    let text = marker.to_runtime_note_text();
    assert!(text.starts_with("lhc_compact_marker {\"viewId\":\"view-1\","));
    assert!(!text.contains("the body text") && !text.contains("derivedContentDigests"));
    assert!(text.len() <= CompactMarker::RUNTIME_NOTE_MAX_CHARS);
    let notation = find_marker_notation(&text).expect("notation");
    assert_eq!(text, format!("lhc_compact_marker {notation}"));
    assert_eq!(
        find_marker_notation(&format!("before lhc_compact_marker  {notation}\n")),
        Some(notation)
    );
    assert_eq!(find_marker_notation("nothing"), None);
    // A note alone tells nothing of what was served.
    let events = vec![note(&text, &marker.marker_key, 1)];
    assert_eq!(derived_digests_from_archive(&events).len(), 0);
    let event = compact_marker_event(&marker);
    assert_eq!(event.event_kind, "runtime_note");
    assert_eq!(
        event.idempotency_key.as_deref(),
        Some(marker.marker_key.as_str())
    );
}

#[test]
fn key_of_a_marker_is_exact() {
    let body = vec![user("x", "u1"), message("assistant", "y", None)];
    let marker = CompactMarker::from_receipt(&receipt(12), "t:1", &body, "order:9");
    let joined = [
        content_identity_digest(&body[0]),
        content_identity_digest(&body[1]),
    ]
    .join("|");
    let mut hasher = std::collections::hash_map::DefaultHasher::new();
    joined.hash(&mut hasher);
    assert_eq!(
        marker.marker_key,
        format!(
            "codex:t%3A1:compact_marker:order%3A9:12:1:{:x}",
            hasher.finish()
        )
    );
    assert!(is_compact_marker_idempotency_key(&marker.marker_key));
    assert!(!is_compact_marker_idempotency_key("codex:t:id:compact_marker"));
    assert_eq!(compact_point_from_marker_key(&marker.marker_key), Some(12));
    let retry = CompactMarker::from_receipt(&receipt(12), "t:1", &body, "order:9");
    assert_eq!(retry.marker_key, marker.marker_key);
    let later = CompactMarker::from_receipt(&receipt(12), "t:1", &body, "order:10");
    assert_ne!(later.marker_key, marker.marker_key);
}

#[test]
fn lists_of_texts_are_read() {
    assert_eq!(
        texts_from_read(Some(Json::List(vec![
            Json::Text("a".into()),
            Json::Text("b".into())
        ]))),
        Some(vec!["a".to_string(), "b".to_string()])
    );
    assert_eq!(texts_from_read(Some(Json::List(vec![Json::Int(1)]))), None);
    assert_eq!(texts_from_read(Some(Json::Null)), None);
    assert_eq!(texts_from_read(None), None);
}

#[test]
fn tip_is_the_newest_event() {
    assert_eq!(
        archive_tip_identity(&vec![event("k1", 4), event("k2", 9), event("k3", 7)]),
        "k2"
    );
    assert_eq!(
        archive_tip_identity(&vec![event("k1", 4), event("k2", 4)]),
        "k2"
    );
    assert_eq!(archive_tip_identity(&vec![]), "empty");
}

#[test]
fn context_without_text_gives_nothing() {
    let ctx = context(&[
        (LlmRequestContextRole::User, ""),
        (LlmRequestContextRole::Assistant, "kept"),
    ]);
    let items = llm_request_context_to_response_items(&ctx);
    assert_eq!(items, vec![message("assistant", "kept", None)]);
}

#[test]
fn degraded_marker_is_seen() {
    assert!(body_contains_degraded_marker(&vec![message(
        "assistant",
        "x [degraded: raw] y",
        None
    )]));
    assert!(!body_contains_degraded_marker(&vec![message(
        "assistant",
        "degraded",
        None
    )]));
}

#[test]
fn cancelling_is_looked_at() {
    assert_eq!(check_cancel(None), Ok(()));
    assert_eq!(check_cancel(Some(false)), Ok(()));
    assert_eq!(
        check_cancel(Some(true)),
        Err(LhcCompactUnavailable::Cancelled)
    );
}

fn next(
    request: &CompactRequest,
    phase: &CompactPhase,
    reply: CompactReply,
) -> Result<CompactStep, LhcCompactUnavailable> {
    produce_step(request, phase, reply, false)
}

#[test]
fn compact_runs_to_its_end() {
    let items = vec![user("hello", "u1")];
    let served = DerivedProvenance::default();
    let request = CompactRequest {
        thread_id: "t",
        host_items: &items,
        import_missing: true,
        session_derived: &served,
    };
    let phase = produce_start(false).expect("starts");
    assert_eq!(phase, CompactPhase::Opening);
    let step = next(&request, &phase, CompactReply::Opened);
    assert_eq!(
        step,
        Ok(CompactStep::Next(CompactPhase::Listing { imported: false }))
    );
    let phase = CompactPhase::Listing { imported: false };
    let step = next(&request, &phase, CompactReply::Listed(vec![]));
    assert_eq!(
        step,
        Ok(CompactStep::Next(CompactPhase::Importing {
            missing: items.clone()
        }))
    );
    let phase = CompactPhase::Importing {
        missing: items.clone(),
    };
    let step = next(&request, &phase, CompactReply::Imported);
    assert_eq!(
        step,
        Ok(CompactStep::Next(CompactPhase::Listing { imported: true }))
    );
    let phase = CompactPhase::Listing { imported: true };
    let stored = vec![event("codex:t:id:u1:d:user_prompt", 3)];
    let step = next(&request, &phase, CompactReply::Listed(stored));
    let tip = "codex:t:id:u1:d:user_prompt".to_string();
    assert_eq!(
        step,
        Ok(CompactStep::Next(CompactPhase::Compacting {
            archive_tip: tip.clone()
        }))
    );
    let phase = CompactPhase::Compacting {
        archive_tip: tip.clone(),
    };
    let step = next(&request, &phase, CompactReply::Compacted(receipt(3)));
    assert!(matches!(
        step,
        Ok(CompactStep::Next(CompactPhase::Serving { .. }))
    ));
    let phase = CompactPhase::Serving {
        archive_tip: tip.clone(),
        receipt: receipt(3),
    };
    let reply = CompactReply::Served(context(&[(LlmRequestContextRole::User, "served")]));
    match next(&request, &phase, reply) {
        Ok(CompactStep::Done(result)) => {
            assert_eq!(result.body, vec![message("user", "served", None)]);
            assert_eq!(
                result.marker,
                CompactMarker::from_receipt(&receipt(3), "t", &result.body, &tip)
            );
            assert_eq!(result.receipt, receipt(3));
        }
        other => panic!("unexpected {other:?}"),
    }
}

#[test]
fn compact_refuses_an_uncovered_host() {
    let items = vec![user("never captured utterance", "ghost")];
    let served = DerivedProvenance::default();
    let request = CompactRequest {
        thread_id: "t",
        host_items: &items,
        import_missing: false,
        session_derived: &served,
    };
    let first = CompactPhase::Listing { imported: false };
    let err = next(&request, &first, CompactReply::Listed(vec![])).expect_err("refused");
    assert_eq!(
        err.to_text(),
        "archive does not cover host history: 1 host provider-bearing item(s) missing from \
         archive by identity"
    );
    let again = CompactPhase::Listing { imported: true };
    let err = next(&request, &again, CompactReply::Listed(vec![])).expect_err("refused");
    assert_eq!(
        err,
        LhcCompactUnavailable::ArchiveDoesNotCoverHost(
            "1 host provider-bearing item(s) still missing after import".to_string()
        )
    );
}

#[test]
fn every_failure_has_its_words() {
    let items = vec![];
    let served = DerivedProvenance::default();
    let request = CompactRequest {
        thread_id: "t",
        host_items: &items,
        import_missing: false,
        session_derived: &served,
    };
    let said = |phase: CompactPhase, reply: CompactReply| {
        next(&request, &phase, reply)
            .expect_err("fails")
            .to_text()
    };
    assert_eq!(
        said(CompactPhase::Opening, CompactReply::NotOpened),
        "lhc open failed: LhcSession::open returned None"
    );
    let listing = || CompactPhase::Listing { imported: false };
    assert_eq!(
        said(listing(), CompactReply::NotListed("e".into())),
        "lhc open failed: e"
    );
    assert_eq!(
        said(listing(), CompactReply::Listed(vec![])),
        "lhc thread has no events"
    );
    assert_eq!(
        said(
            CompactPhase::Importing { missing: vec![] },
            CompactReply::NotImported("i".into())
        ),
        "lhc open failed: i"
    );
    assert_eq!(
        said(
            CompactPhase::Compacting {
                archive_tip: "x".into()
            },
            CompactReply::NotCompacted("c".into())
        ),
        "lhc.compact failed: c"
    );
    let serving = || CompactPhase::Serving {
        archive_tip: "x".into(),
        receipt: receipt(1),
    };
    assert_eq!(
        said(serving(), CompactReply::NotServed("s".into())),
        "get_llm_request_context failed: s"
    );
    assert_eq!(
        said(serving(), CompactReply::Served(context(&[]))),
        "empty served view: LlmRequestContext mapped to zero ResponseItems"
    );
    assert_eq!(
        produce_start(true).expect_err("cancelled").to_text(),
        "lhc compact cancelled"
    );
    for (cause, words) in [
        (LhcCompactUnavailable::Inference("x".into()), "inference: x"),
        (
            LhcCompactUnavailable::DerivationFailed("x".into()),
            "lhc derivation failed: x",
        ),
        (
            LhcCompactUnavailable::NoReduction("x".into()),
            "lhc compact no reduction: x",
        ),
    ] {
        assert_eq!(cause.to_text(), words);
    }
}

#[test]
fn cancelled_compact_goes_no_further() {
    let items = vec![];
    let served = DerivedProvenance::default();
    let request = CompactRequest {
        thread_id: "t",
        host_items: &items,
        import_missing: false,
        session_derived: &served,
    };
    for (phase, reply) in [
        (CompactPhase::Opening, CompactReply::Opened),
        (
            CompactPhase::Listing { imported: false },
            CompactReply::Listed(vec![event("k", 1)]),
        ),
        (
            CompactPhase::Compacting {
                archive_tip: "x".into(),
            },
            CompactReply::Compacted(receipt(1)),
        ),
    ] {
        assert_eq!(
            produce_step(&request, &phase, reply, true),
            Err(LhcCompactUnavailable::Cancelled)
        );
    }
}

#[test]
fn import_takes_each_item_once() {
    let items = vec![
        user("one", "iu1"),
        message("assistant", "reply", Some("ia1")),
        message("user", "no name", None),
        message("user", "no name", None),
    ];
    let plan = plan_import("t", &items, OccurrenceTracker::new()).expect("room");
    assert_eq!(plan.error, None);
    assert_eq!(plan.batches.len(), 4);
    let keys: Vec<&str> = plan
        .batches
        .iter()
        .map(|b| b[0].idempotency_key.as_deref().expect("key"))
        .collect();
    let first = item_digest(&items[0]);
    let second = item_digest(&items[1]);
    assert_eq!(keys[0], format!("codex:t:id:iu1:{first}:user_prompt"));
    assert_eq!(keys[1], format!("codex:t:id:ia1:{second}:assistant_text"));
    let digest = item_digest(&items[2]);
    assert_eq!(keys[2], format!("codex:t:anon:{digest}:0:user_prompt"));
    assert_eq!(keys[3], format!("codex:t:anon:{digest}:1:user_prompt"));
    let mut full = OccurrenceTracker::new();
    full.observe(&digest, u64::MAX);
    assert!(plan_import("t", &items, full).is_none());
    let mut elsewhere = OccurrenceTracker::new();
    elsewhere.observe("of another item", u64::MAX);
    assert!(plan_import("t", &items, elsewhere).is_some());
}
