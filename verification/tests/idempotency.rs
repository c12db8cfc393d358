//! Keys of stored events, and the occurrence numbers in them.

use codex_lhc_host::idempotency::{
    encode_thread_id, hex_encode, item_digest, item_event_key, item_stable_id, model_change_key,
    parse_anon_key_digest_occ, seed_occurrence_from_keys, thinking_level_change_key, turn_end_key,
    OccurrenceTracker,
};
use codex_lhc_host::protocol::{ContentItem, ResponseItem};
use codex_lhc_host::wire::Wire;
use sha2::Digest;

fn user_message(text: &str) -> ResponseItem {
    ResponseItem::Message {
        id: None,
        role: "user".to_string(),
        content: vec![ContentItem::InputText {
            text: text.to_string(),
        }],
        phase: None,
        internal_chat_message_metadata_passthrough: None,
    }
}

fn user_message_with_id(text: &str, id: &str) -> ResponseItem {
    ResponseItem::Message {
        id: Some(id.to_string()),
        role: "user".to_string(),
        content: vec![ContentItem::InputText {
            text: text.to_string(),
        }],
        phase: None,
        internal_chat_message_metadata_passthrough: None,
    }
}

#[test]
fn same_item_id_mints_identical_key_on_replay() {
    let item = user_message_with_id("hello", "msg_stable_1");
    let d = item_digest(&item);
    let sid = item_stable_id(&item);
    let k0 = item_event_key("t", sid.as_deref(), &d, 0, "user_prompt", None);
    let k1 = item_event_key("t", sid.as_deref(), &d, 99, "user_prompt", None);
    assert_eq!(
        k0, k1,
        "id-primary keys ignore occurrence — restart re-presentation collides"
    );
    assert!(k0.contains(":id:msg_stable_1:"), "{k0}");
}

#[test]
fn distinct_item_ids_do_not_collide() {
    let a = user_message_with_id("hello", "msg_a");
    let b = user_message_with_id("hello", "msg_b");
    let da = item_digest(&a);
    let db = item_digest(&b);
    let ka = item_event_key(
        "t",
        item_stable_id(&a).as_deref(),
        &da,
        0,
        "user_prompt",
        None,
    );
    let kb = item_event_key(
        "t",
        item_stable_id(&b).as_deref(),
        &db,
        0,
        "user_prompt",
        None,
    );
    assert_ne!(ka, kb);
}

#[test]
fn anonymous_items_get_distinct_occurrence_keys() {
    let mut tracker = OccurrenceTracker::new();
    let item = user_message("hello");
    let d = item_digest(&item);
    let o0 = tracker.next(&d);
    let o1 = tracker.next(&d);
    let k0 = item_event_key("t1", None, &d, o0, "user_prompt", None);
    let k1 = item_event_key("t1", None, &d, o1, "user_prompt", None);
    assert_ne!(k0, k1);
    assert!(k0.contains(":anon:"), "{k0}");
}

#[test]
fn seed_from_anon_keys_raises_high_water() {
    let d = "deadbeef";
    let k0 = item_event_key("s", None, d, 0, "user_prompt", None);
    let k1 = item_event_key("s", None, d, 1, "user_prompt", None);
    let mut t = seed_occurrence_from_keys(&vec![k0, k1]);
    assert_eq!(t.next(d), 2);
}

#[test]
fn seed_ignores_id_primary_keys() {
    let k = item_event_key("s", Some("msg_1"), "unused", 0, "user_prompt", None);
    let t = seed_occurrence_from_keys(&vec![k]);
    // empty tracker
    let mut t2 = t;
    assert_eq!(t2.next("any"), 0);
}

#[test]
fn turn_end_key_stable() {
    let a = turn_end_key("t", "turn-1", "stop");
    let b = turn_end_key("t", "turn-1", "stop");
    let c = turn_end_key("t", "turn-1", "abort");
    assert_eq!(a, b);
    assert_ne!(a, c);
}

#[test]
fn model_change_key_is_transition_stable() {
    let a = model_change_key("s", "gpt-a", "gpt-b");
    let b = model_change_key("s", "gpt-a", "gpt-b");
    let c = model_change_key("s", "gpt-b", "gpt-c");
    assert_eq!(a, b, "same prev→new must collide (restart re-fire)");
    assert_ne!(a, c);
    assert!(a.contains(":model_change:gpt-a:gpt-b"), "{a}");
}

#[test]
fn thinking_level_change_key_is_transition_stable() {
    let a = thinking_level_change_key("s", "low", "high");
    let b = thinking_level_change_key("s", "low", "high");
    assert_eq!(a, b);
}

#[test]
fn item_digest_is_content_stable_not_pointer_based() {
    let a = user_message("stable digest body");
    let b = user_message("stable digest body");
    let d0 = item_digest(&a);
    let d1 = item_digest(&b);
    assert_eq!(d0, d1);
    assert_eq!(d0.len(), 64, "sha256 hex");
    assert!(
        d0.chars().all(|c| c.is_ascii_hexdigit()),
        "digest must be pure hex, not a pointer dump"
    );
}

#[test]
fn digest_is_that_of_the_wire_format() {
    let item = user_message("naïve \"text\"");
    let image = item.to_wire().to_text();
    let expected: String = sha2::Sha256::digest(image.as_bytes())
        .iter()
        .map(|b| format!("{b:02x}"))
        .collect();
    assert_eq!(item_digest(&item), expected);
}

#[test]
fn hexadecimal_has_two_digits_for_each_byte() {
    assert_eq!(hex_encode(&[0x00, 0x0f, 0xa0, 0xff]), "000fa0ff");
    assert_eq!(hex_encode(&[]), "");
}

#[test]
fn keys_are_exact() {
    assert_eq!(encode_thread_id("a:b%c"), "a%3Ab%25c");
    assert_eq!(
        item_event_key("t:x", Some("m:1"), "d", 7, "user_prompt", Some("p")),
        "codex:t%3Ax:id:m%3A1:d:user_prompt:p"
    );
    assert_eq!(
        item_event_key("t", None, "d", 7, "user_prompt", None),
        "codex:t:anon:d:7:user_prompt"
    );
    assert_eq!(turn_end_key("t", "u", "stop"), "codex:t:turn_end:u:stop");
    assert_eq!(
        model_change_key("t", "a:b", "c"),
        "codex:t:model_change:a%3Ab:c"
    );
    assert_eq!(
        thinking_level_change_key("t", "low", "high"),
        "codex:t:thinking_level_change:low:high"
    );
}

#[test]
fn anonymous_keys_read_back() {
    for occurrence in [0u64, 9, u64::MAX] {
        let key = item_event_key("t:1", None, "beef", occurrence, "user_prompt", Some("x"));
        assert_eq!(
            parse_anon_key_digest_occ(&key),
            Some(("beef".to_string(), occurrence))
        );
    }
    for other in [
        "codex:t:id:m:d:user_prompt",
        "codex:t:anon::1:user_prompt",
        "codex:t:anon:d:x:user_prompt",
        "codex:t:anon:d:18446744073709551616:user_prompt",
        "codex:t:anon:d",
        "",
    ] {
        assert_eq!(parse_anon_key_digest_occ(other), None, "{other}");
    }
}

#[test]
fn numbers_of_one_digest_do_not_touch_another() {
    let mut t = OccurrenceTracker::new();
    assert_eq!((t.next("a"), t.next("a"), t.next("b"), t.next("a")), (0, 1, 0, 2));
    assert!(!t.is_resolved("a"));
    t.mark_resolved("a");
    assert!(t.is_resolved("a") && !t.is_resolved("b"));
    t.observe("b", 40);
    assert_eq!(t.next("b"), 41);
    t.observe("b", 3);
    assert_eq!(t.next("b"), 42);
}

#[test]
fn merging_takes_the_higher_number() {
    let mut a = OccurrenceTracker::new();
    a.observe("x", 5);
    let mut b = OccurrenceTracker::new();
    b.observe("x", 2);
    b.observe("y", 8);
    a.merge_monotonic(&b);
    assert_eq!(a.next("x"), 6);
    assert_eq!(a.next("y"), 9);
}

#[test]
fn tracker_knows_when_it_is_full() {
    let item = user_message("same");
    let other = user_message("other");
    let mut t = OccurrenceTracker::new();
    assert!(t.has_room_for(&item));
    t.observe(&item_digest(&item), u64::MAX - 2);
    assert!(t.has_room_for(&item));
    t.observe(&item_digest(&item), u64::MAX);
    assert!(!t.has_room_for(&item));
    assert!(t.has_room_for(&other));
}
