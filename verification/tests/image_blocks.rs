//! Images in messages and results, as blocks of the store.

use codex_lhc_host::image_blocks::{
    restore_tool, restore_user, text_projection, tool_blocks, user_blocks,
};
use codex_lhc_host::json::Json;
use codex_lhc_host::protocol::{
    ContentItem, FunctionCallOutputBody, FunctionCallOutputContentItem, ImageDetail,
};

fn text(s: &str) -> Json {
    Json::Text(s.to_string())
}

fn object(entries: Vec<(&str, Json)>) -> Json {
    Json::Object(
        entries
            .into_iter()
            .map(|(k, v)| (k.to_string(), v))
            .collect(),
    )
}

fn list(j: Json) -> Vec<Json> {
    match j {
        Json::List(blocks) => blocks,
        other => panic!("expected a list, got {other:?}"),
    }
}

/// What a store shows in place of each block.
fn shown(blocks: &[Json]) -> Vec<String> {
    blocks
        .iter()
        .map(|b| match b.get("text").and_then(Json::as_text) {
            Some(text) => text.clone(),
            None => "[image]".to_string(),
        })
        .collect()
}

#[test]
fn missing_blob_and_missing_url_remain_text_placeholders() {
    let blocks = vec![
        object(vec![
            ("type", text("image")),
            (
                "source",
                object(vec![
                    ("type", text("base64")),
                    ("media_type", text("image/png")),
                    (
                        "data",
                        object(vec![
                            ("$blob", text("sha256:absent")),
                            ("bytes", Json::Int(3)),
                        ]),
                    ),
                ]),
            ),
        ]),
        object(vec![
            ("type", text("image")),
            ("source", object(vec![("type", text("url"))])),
        ]),
    ];
    let restored = restore_user(&blocks, &shown(&blocks));
    assert_eq!(restored.len(), 2);
    for item in restored {
        let ContentItem::InputText { text } = item else {
            panic!("missing image must not become an image URL")
        };
        assert!(text.contains("image"));
        assert!(text.len() < 100);
    }
}

#[test]
fn image_details_and_text_order_round_trip() {
    for detail in [
        None,
        Some(ImageDetail::Auto),
        Some(ImageDetail::Low),
        Some(ImageDetail::High),
        Some(ImageDetail::Original),
    ] {
        let items = vec![
            ContentItem::InputText {
                text: "before".into(),
            },
            ContentItem::InputImage {
                image_url: "data:image/png;base64,YWJj".into(),
                detail,
            },
            ContentItem::InputText {
                text: "after".into(),
            },
        ];
        let blocks = list(user_blocks(&items).expect("blocks"));
        assert_eq!(restore_user(&blocks, &shown(&blocks)), items);
    }
}

#[test]
fn message_without_an_image_has_no_blocks() {
    let items = vec![ContentItem::InputText {
        text: "only words".into(),
    }];
    assert_eq!(user_blocks(&items), None);
    assert_eq!(tool_blocks(&FunctionCallOutputBody::Text("r".into())), None);
}

#[test]
fn linked_image_is_kept_as_a_link() {
    let items = vec![ContentItem::InputImage {
        image_url: "https://example.org/a.png".into(),
        detail: None,
    }];
    let blocks = list(user_blocks(&items).expect("blocks"));
    let image = blocks[0].get("source").expect("source");
    assert_eq!(image.get("type"), Some(&text("url")));
    assert_eq!(restore_user(&blocks, &shown(&blocks)), items);
}

#[test]
fn tool_result_with_an_image_is_restored() {
    let body = FunctionCallOutputBody::ContentItems(vec![
        FunctionCallOutputContentItem::InputText { text: "see".into() },
        FunctionCallOutputContentItem::InputImage {
            image_url: "data:image/png;base64,YWJj".into(),
            detail: Some(ImageDetail::High),
        },
    ]);
    let blocks = list(tool_blocks(&body).expect("blocks"));
    assert_eq!(restore_tool(&blocks, &shown(&blocks)), body);
}

#[test]
fn what_was_shown_is_joined_line_by_line() {
    assert_eq!(
        text_projection(&vec!["a".to_string(), "b".to_string()]),
        "a\nb"
    );
    assert_eq!(text_projection(&vec![]), "");
}
