//! Texts, JSON values and the wire format.

use codex_lhc_host::byte_text::{floor_char_boundary, head, text_byte_len};
use codex_lhc_host::collections::{TextMap, TextSet};
use codex_lhc_host::json::{get_entry, put_entry, Json};
use codex_lhc_host::protocol::{
    ContentItem, FunctionCallOutputBody, FunctionCallOutputContentItem, FunctionCallOutputPayload,
    ImageDetail, ResponseItem, WebSearchAction,
};
use codex_lhc_host::text::{
    decimal_text, has_occurrence, is_before, join, parse_i64, parse_u64, signed_decimal_text,
    split, split_once, strip_prefix, strip_suffix, text_after, trim,
};
use codex_lhc_host::wire::Wire;

#[test]
fn json_is_written_without_blanks() {
    let j = Json::Object(vec![
        ("a\n".to_string(), Json::List(vec![Json::Null, Json::Bool(true)])),
        ("b".to_string(), Json::Text("q\"\\\u{1}ü/".to_string())),
        ("c".to_string(), Json::Int(i128::from(i64::MIN))),
        ("d".to_string(), Json::Raw("1.5e3".to_string())),
        ("e".to_string(), Json::Object(vec![])),
    ]);
    assert_eq!(
        j.to_text(),
        "{\"a\\n\":[null,true],\"b\":\"q\\\"\\\\\\u0001ü/\",\"c\":-9223372036854775808,\
         \"d\":1.5e3,\"e\":{}}"
    );
}

#[test]
fn writing_an_entry_replaces_it() {
    let mut e = vec![("k".to_string(), Json::Int(1))];
    put_entry(&mut e, "k", Json::Int(2));
    put_entry(&mut e, "l", Json::Int(3));
    assert_eq!(get_entry(&e, "k"), Some(&Json::Int(2)));
    assert_eq!(get_entry(&e, "l"), Some(&Json::Int(3)));
    assert_eq!(get_entry(&e, "m"), None);
    assert_eq!(e.len(), 2);
}

#[test]
fn texts_are_taken_apart() {
    assert_eq!(split("a:b::", ':'), vec!["a", "b", "", ""]);
    assert_eq!(
        split_once("a:b:c", ':'),
        Some(("a".to_string(), "b:c".to_string()))
    );
    assert_eq!(split_once("abc", ':'), None);
    assert_eq!(strip_prefix("abc", "ab").as_deref(), Some("c"));
    assert_eq!(strip_prefix("abc", "b"), None);
    assert_eq!(strip_suffix("abc", "bc").as_deref(), Some("a"));
    assert_eq!(text_after("xx--yy--", "--").as_deref(), Some("yy--"));
    assert!(has_occurrence("abc", "bc") && !has_occurrence("abc", "cb"));
    assert_eq!(
        join(&vec!["a".to_string(), "".to_string(), "b".to_string()], ", "),
        "a, , b"
    );
    assert_eq!(trim("\t\u{a0}x y\u{3000}\n"), "x y");
    assert!(is_before("a", "ab") && is_before("Z", "a") && !is_before("a", "a"));
}

#[test]
fn numbers_are_read_as_they_are_written() {
    for n in [0u64, 7, 10, u64::MAX] {
        assert_eq!(parse_u64(&decimal_text(n as u128)), Some(n));
    }
    for n in [0i64, -1, i64::MAX, i64::MIN] {
        assert_eq!(parse_i64(&signed_decimal_text(n as i128)), Some(n));
    }
    for s in ["", "+", "-", "1a", "-+1", "+-1", "9223372036854775808"] {
        assert_eq!(parse_i64(s), s.parse::<i64>().ok(), "{s}");
        assert_eq!(parse_u64(s), s.parse::<u64>().ok(), "{s}");
    }
}

#[test]
fn bytes_are_counted_and_cut_at_characters() {
    let s = "aüb€";
    assert_eq!(text_byte_len(s), s.len());
    for i in 0..s.len() + 3 {
        let mut j = i.min(s.len());
        while !s.is_char_boundary(j) {
            j -= 1;
        }
        assert_eq!(floor_char_boundary(s, i), j, "{i}");
    }
    assert_eq!(head(s, 3), "aü");
}

#[test]
fn collections_keep_what_came_first() {
    let mut m: TextMap<u8> = TextMap::new();
    m.insert("b", 1);
    m.insert("a", 2);
    m.insert("b", 3);
    assert_eq!((m.len(), m.get("b"), m.get("c")), (2, Some(&3), None));
    assert_eq!(m.at(0).0, "b");
    assert!(m.contains_key("a"));
    let mut s = TextSet::new();
    s.insert("x");
    s.insert("y");
    s.insert("x");
    assert_eq!((s.len(), s.at(0).as_str(), s.contains("z")), (2, "x", false));
    let rest = s.skip(1);
    assert_eq!((rest.len(), rest.at(0).as_str()), (1, "y"));
}

#[test]
fn items_have_their_wire_format() {
    let item = ResponseItem::Message {
        id: Some("msg_1".into()),
        role: "user".into(),
        content: vec![
            ContentItem::InputText { text: "hi".into() },
            ContentItem::InputImage {
                image_url: "u".into(),
                detail: Some(ImageDetail::Low),
            },
        ],
        phase: None,
        internal_chat_message_metadata_passthrough: None,
    };
    assert_eq!(
        item.to_wire().to_text(),
        "{\"type\":\"message\",\"id\":\"msg_1\",\"role\":\"user\",\"content\":[\
         {\"type\":\"input_text\",\"text\":\"hi\"},\
         {\"type\":\"input_image\",\"image_url\":\"u\",\"detail\":\"low\"}]}"
    );
    let output = ResponseItem::FunctionCallOutput {
        id: None,
        call_id: Some("c".into()),
        name: None,
        namespace: None,
        output: FunctionCallOutputPayload {
            body: FunctionCallOutputBody::ContentItems(vec![
                FunctionCallOutputContentItem::InputText { text: "t".into() },
            ]),
            success: Some(true),
        },
        internal_chat_message_metadata_passthrough: None,
    };
    assert_eq!(
        output.to_wire().to_text(),
        "{\"type\":\"function_call_output\",\"call_id\":\"c\",\
         \"output\":[{\"type\":\"input_text\",\"text\":\"t\"}]}"
    );
    assert_eq!(
        WebSearchAction::OpenPage { url: Some("u".into()) }
            .to_wire()
            .to_text(),
        "{\"type\":\"open_page\",\"url\":\"u\"}"
    );
}

#[test]
fn identity_can_be_taken_off() {
    let mut item = ResponseItem::Compaction {
        id: Some("cmp_1".into()),
        encrypted_content: "e".into(),
        internal_chat_message_metadata_passthrough: Some(Json::Null),
    };
    assert_eq!(item.id().map(String::as_str), Some("cmp_1"));
    item.set_id(None);
    item.strip_provenance();
    assert_eq!(
        item,
        ResponseItem::Compaction {
            id: None,
            encrypted_content: "e".into(),
            internal_chat_message_metadata_passthrough: None,
        }
    );
}
