//! Which turn of the host a stored turn is.

use codex_lhc_host::host_turn_ids::{
    display_turn_id, host_turn_id_map, host_turn_id_map_with_prior, is_synthetic_lhc_turn_id,
    parse_host_turn_id_from_turn_end_key,
};
use codex_lhc_host::idempotency::turn_end_key;
use codex_lhc_host::records::{EventKind, EventPayload, EventRecord, TurnRecord, TurnStatus};
use codex_lhc_host::rollout::{EventMsg, RolloutItem};

const A: &str = "00000000-0000-0000-0000-000000000001";
const B: &str = "00000000-0000-0000-0000-000000000002";
const C: &str = "00000000-0000-0000-0000-000000000003";

fn turn(id: &str, n: i64, closed: Option<i64>) -> TurnRecord {
    TurnRecord {
        turn_id: id.into(),
        turn_order: n,
        status: if closed.is_some() {
            TurnStatus::Closed
        } else {
            TurnStatus::Open
        },
        member_message_ids: Vec::new(),
        closed_at_event_order: closed,
        outcome: None,
        outcome_reason: None,
        started_at: None,
        ended_at: None,
    }
}

fn prior(ids: &[&str]) -> Vec<RolloutItem> {
    ids.iter()
        .map(|id| {
            RolloutItem::EventMsg(EventMsg::TurnStarted {
                turn_id: (*id).into(),
                started_at: None,
            })
        })
        .collect()
}

fn end(id: &str, n: i64) -> EventRecord {
    EventRecord {
        kind: EventKind::TurnEnd,
        idempotency_key: turn_end_key("thread", id, "completed"),
        event_order: n,
        payload: EventPayload::Other,
    }
}

#[test]
fn mixed_keyed_unkeyed_does_not_reuse_consumed_host_on_suffix() {
    // end(B,5) keys t2; the suffix must not also give B to t1.
    let map = host_turn_id_map_with_prior(
        &vec![
            turn("t1", 1, Some(3)),
            turn("t2", 2, Some(5)),
            turn("t3", 3, None),
        ],
        &vec![end(B, 5)],
        &prior(&[A, B, C]),
        None,
        None,
    );
    assert_eq!(map.get("t1").map(String::as_str), Some(A));
    assert_eq!(map.get("t2").map(String::as_str), Some(B));
    assert_eq!(map.get("t3").map(String::as_str), Some(C));
    assert_ne!(map.get("t1"), map.get("t2"));
}

#[test]
fn inert_turn_end_maps_nothing_open_turn_stays_unknown() {
    // end(A,3) closes t1; end(B,4) closed no turn. Remaining prior starts [B,C]
    // vs unmatched [t2] is not 1:1 → t2 unmapped.
    let map = host_turn_id_map_with_prior(
        &vec![turn("t1", 1, Some(3)), turn("t2", 2, None)],
        &vec![end(A, 3), end(B, 4)],
        &prior(&[A, B, C]),
        None,
        None,
    );
    assert_eq!(map.get("t1").map(String::as_str), Some(A));
    assert_eq!(map.get("t2"), None);
}

#[test]
fn live_open_turn_uses_compact_bridge_host_id_not_inert_end() {
    let map = host_turn_id_map_with_prior(
        &vec![turn("t1", 1, Some(3)), turn("t2", 2, None)],
        &vec![end(A, 3), end(B, 4)],
        &prior(&[A, B, C]),
        Some(C),
        Some("t2"),
    );
    assert_eq!(map.get("t1").map(String::as_str), Some(A));
    assert_eq!(map.get("t2").map(String::as_str), Some(C));
}

#[test]
fn suffix_leaves_unmapped_when_remaining_counts_differ() {
    let map = host_turn_id_map_with_prior(
        &vec![turn("t1", 1, Some(3)), turn("t2", 2, None)],
        &vec![],
        &prior(&[A, B, C]),
        None,
        None,
    );
    assert!(map.is_empty());
}

#[test]
fn turn_end_key_round_trips_host_uuid_not_synthetic_label() {
    let host = "01a0ba7a-dcef-72e0-9e69-e7ba32988a2e";
    let key = turn_end_key("thread", host, "aborted");
    assert_eq!(
        parse_host_turn_id_from_turn_end_key(&key),
        Some(host.into())
    );
    assert!(is_synthetic_lhc_turn_id("t11"));
    assert!(!is_synthetic_lhc_turn_id(host));
    assert_eq!(
        parse_host_turn_id_from_turn_end_key(&turn_end_key("thread", "t11", "aborted")),
        None
    );
}

#[test]
fn without_prior_only_keyed_turns_are_named() {
    let map = host_turn_id_map(
        &vec![turn("t1", 1, Some(3)), turn("t2", 2, None)],
        &vec![end(A, 3)],
        None,
        None,
    );
    assert_eq!(map.get("t1").map(String::as_str), Some(A));
    assert_eq!(map.get("t2"), None);
    assert_eq!(display_turn_id("t1", &map), A);
    assert_eq!(display_turn_id("t2", &map), "t2");
}

#[test]
fn synthetic_labels_are_a_letter_and_digits() {
    for id in ["t0", "t1", "t907"] {
        assert!(is_synthetic_lhc_turn_id(id), "{id}");
    }
    for id in ["", "t", "t1a", "x1", "turn-1", "T1"] {
        assert!(!is_synthetic_lhc_turn_id(id), "{id}");
    }
}

#[test]
fn names_with_separators_read_back() {
    let key = turn_end_key("th:read", "host:turn%1", "stop");
    assert_eq!(
        parse_host_turn_id_from_turn_end_key(&key),
        Some("host:turn%1".to_string())
    );
    assert_eq!(parse_host_turn_id_from_turn_end_key("codex:t:id:x:y"), None);
}
