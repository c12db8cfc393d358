//! Bands, roots, callbacks and the digest of a database.

use codex_lhc_host::band_shape::{
    band_shaped_history_from_events, report_from_items, synthetic_minimal_band_history, truncate,
    DEFAULT_FULL_BAND_USER_TURNS,
};
use codex_lhc_host::database_digest::{
    database_digest, database_path_error, quote_ident, select_all_ordered, table_names, SqlRow,
    TableColumn, TableImage,
};
use codex_lhc_host::gating::{lhc_root_choice, RootChoice};
use codex_lhc_host::inference::{lhc_inference_callbacks, LhcInferenceError};
use codex_lhc_host::json::Json;
use codex_lhc_host::records::{EventKind, EventPayload, EventRecord};
use sha2::Digest;

#[test]
fn synthetic_history_has_all_bands_and_full_tail() {
    let items = synthetic_minimal_band_history();
    let report = report_from_items(&items, 0, DEFAULT_FULL_BAND_USER_TURNS, vec![]);
    let bands: Vec<_> = report.items.iter().map(|i| i.band.as_str()).collect();
    assert!(bands.contains(&"brief"));
    assert!(bands.contains(&"detailed"));
    assert!(bands.contains(&"smooth"));
    assert!(bands.iter().any(|b| *b == "full"));
    assert!(
        report.items.iter().any(|i| i.role == "user"),
        "full band must retain a user turn"
    );
}

#[test]
fn deterministic_ok() {
    assert!(lhc_inference_callbacks(false).is_ok());
}

#[test]
fn live_fails_closed_not_deterministic() {
    match lhc_inference_callbacks(true) {
        Ok(_) => panic!("live must not return deterministic callbacks"),
        Err(err) => assert_eq!(err, LhcInferenceError::LiveNotConfigured),
    }
}

fn said(kind: EventKind, text: &str, order: i64) -> EventRecord {
    EventRecord {
        kind,
        idempotency_key: format!("k{order}"),
        event_order: order,
        payload: EventPayload::Text { text: text.into() },
    }
}

#[test]
fn newest_turns_stay_in_full() {
    let mut events = Vec::new();
    for n in 0..6i64 {
        events.push(said(EventKind::UserPrompt, &format!("question {n}"), 2 * n));
        events.push(said(
            EventKind::AssistantText,
            &format!("answer {n}"),
            2 * n + 1,
        ));
    }
    let (items, report) = band_shaped_history_from_events(&events, 2);
    assert_eq!(report.source_event_count, 12);
    assert_eq!(report.full_band_user_turns, 2);
    let full: Vec<&str> = report
        .items
        .iter()
        .filter(|i| i.band == "full")
        .map(|i| i.text_preview.as_str())
        .collect();
    assert_eq!(full, vec!["question 4", "answer 4", "question 5", "answer 5"]);
    assert_eq!(report.items.len(), items.len());
    assert!(report.items.iter().any(|i| i.band != "full"));
}

#[test]
fn nothing_gives_the_smallest_history() {
    let (items, report) = band_shaped_history_from_events(&vec![], 2);
    assert_eq!(items, synthetic_minimal_band_history());
    assert_eq!(report.source_event_count, 0);
    assert_eq!(
        report.notes,
        vec!["no mappable events; emitting synthetic minimal band fixture".to_string()]
    );
}

#[test]
fn few_turns_stay_whole() {
    let events = vec![said(EventKind::UserPrompt, "only question", 1)];
    let (items, report) = band_shaped_history_from_events(&events, 2);
    assert_eq!(items.len(), 1);
    assert_eq!(
        report.notes,
        vec![
            "only 1 user turns; entire transcript stays in full band".to_string(),
            "no head; only full band".to_string()
        ]
    );
}

#[test]
fn long_text_is_cut_at_a_character() {
    assert_eq!(truncate("short", 10), "short");
    assert_eq!(truncate("äöü", 2), "äö…");
}

#[test]
fn root_is_chosen_by_what_is_known() {
    assert_eq!(
        lhc_root_choice(Some("/named"), true, true),
        RootChoice::Override("/named".into())
    );
    assert_eq!(lhc_root_choice(Some(""), true, true), RootChoice::Home);
    assert_eq!(lhc_root_choice(None, true, false), RootChoice::Home);
    assert_eq!(lhc_root_choice(None, false, true), RootChoice::UserProfile);
    assert_eq!(
        lhc_root_choice(None, false, false),
        RootChoice::CurrentDirectory
    );
}

fn row(values: &[(&str, Json)]) -> SqlRow {
    SqlRow {
        values: values
            .iter()
            .map(|(name, value)| (name.to_string(), value.clone()))
            .collect(),
    }
}

fn text(s: &str) -> Json {
    Json::Text(s.to_string())
}

fn seed(deleted_at: Json, status: &str, content: &str, arrangement: &str) -> Vec<TableImage> {
    vec![
        TableImage {
            name: "derivation".into(),
            rows: vec![row(&[("subject_id", text("d1")), ("content", text(content))])],
        },
        TableImage {
            name: "message".into(),
            rows: vec![row(&[
                ("message_id", text("m1")),
                ("turn_id", text("t1")),
                ("deleted_at", deleted_at),
            ])],
        },
        TableImage {
            name: "thread_view".into(),
            rows: vec![row(&[
                ("singleton", Json::Int(1)),
                ("arrangement_json", text(arrangement)),
            ])],
        },
        TableImage {
            name: "turns".into(),
            rows: vec![row(&[("turn_id", text("t1")), ("status", text(status))])],
        },
    ]
}

#[test]
fn deleted_at_change_changes_the_digest() {
    let before = database_digest(&vec![], &seed(Json::Null, "open", "summary", "[]"));
    let after = database_digest(
        &vec![],
        &seed(text("2026-01-01T00:00:00.000Z"), "open", "summary", "[]"),
    );
    assert_ne!(before, after, "message.deleted_at must be in the digest");
}

#[test]
fn turn_status_and_derived_view_changes_change_the_digest() {
    let baseline = database_digest(&vec![], &seed(Json::Null, "open", "summary", "[]"));
    let after_status = database_digest(&vec![], &seed(Json::Null, "closed", "summary", "[]"));
    assert_ne!(baseline, after_status, "turns.status must be in the digest");
    let after_derivation = database_digest(&vec![], &seed(Json::Null, "closed", "other", "[]"));
    assert_ne!(
        after_status, after_derivation,
        "derived summaries must be in the digest"
    );
    let after_view = database_digest(&vec![], &seed(Json::Null, "closed", "other", "[1]"));
    assert_ne!(
        after_derivation, after_view,
        "thread_view contents must be in the digest"
    );
}

#[test]
fn digest_is_that_of_the_bytes() {
    let schema = vec![row(&[("type", text("table")), ("name", text("a"))])];
    let tables = vec![TableImage {
        name: "a".into(),
        rows: vec![row(&[("z", Json::Int(1)), ("b", Json::Null)])],
    }];
    let mut bytes: Vec<u8> = Vec::new();
    bytes.extend_from_slice(b"name\x00\"a\"\xfftype\x00\"table\"\xff");
    bytes.extend_from_slice(b"table:a\x00");
    bytes.extend_from_slice(b"b\x00null\xffz\x001\xff");
    let expected: String = sha2::Sha256::digest(&bytes)
        .iter()
        .map(|b| format!("{b:02x}"))
        .collect();
    assert_eq!(database_digest(&schema, &tables), expected);
}

#[test]
fn order_of_the_columns_does_not_count() {
    let one = vec![TableImage {
        name: "a".into(),
        rows: vec![row(&[("x", Json::Int(1)), ("y", Json::Int(2))])],
    }];
    let other = vec![TableImage {
        name: "a".into(),
        rows: vec![row(&[("y", Json::Int(2)), ("x", Json::Int(1))])],
    }];
    assert_eq!(
        database_digest(&vec![], &one),
        database_digest(&vec![], &other)
    );
}

#[test]
fn queries_follow_the_primary_key() {
    let column = |name: &str, pk: i64| TableColumn {
        name: Some(name.to_string()),
        pk: Some(pk),
    };
    assert_eq!(quote_ident("a\"b"), "\"a\"\"b\"");
    assert_eq!(
        select_all_ordered("t", &vec![column("b", 2), column("x", 0), column("a", 1)]),
        "SELECT * FROM \"t\" ORDER BY \"a\", \"b\""
    );
    assert_eq!(
        select_all_ordered("t", &vec![column("x", 0)]),
        "SELECT * FROM \"t\" ORDER BY rowid"
    );
    assert_eq!(
        table_names(&vec![
            row(&[("name", text("a"))]),
            row(&[("other", text("b"))]),
            row(&[("name", text("c"))]),
        ]),
        vec!["a".to_string(), "c".to_string()]
    );
}

#[test]
fn database_must_be_a_file() {
    assert_eq!(database_path_error(Some("/x"), true), None);
    assert!(database_path_error(Some("/x"), false).is_some());
    assert!(database_path_error(None, false).is_some());
}

#[test]
fn missing_model_is_told_in_words() {
    let words = LhcInferenceError::LiveNotConfigured.to_text();
    assert!(words.contains("live"), "{words}");
}
