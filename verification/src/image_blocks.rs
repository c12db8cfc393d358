//! Images in the content blocks of the store.
//!
//! The store keeps the bytes of an image apart. What it shows in place of a
//! block is its own to say, so the functions here are told.

use vstd::prelude::*;
use vstd::string::*;

use crate::json::{
    entry, get_text_member, lemma_list_view, lemma_object_view, member, open_value, opened,
    text_member, Json, JsonView,
};
use crate::protocol::{
    ContentItem, ContentItemView, FunctionCallOutputBody, FunctionCallOutputBodyView,
    FunctionCallOutputContentItem, FunctionCallOutputContentItemView, ImageDetail,
};
use crate::text::{
    after_prefix, before_suffix, cut, join, joined, lemma_first_from, split_once, strip_prefix,
    strip_suffix, text, text_eq,
};
use crate::wire::{image_detail_word, push_entry, Wire};

verus! {

// ---------------------------------------------------------------------------
// Storing
// ---------------------------------------------------------------------------

/// The media type and the data of an address that holds the image itself.
pub open spec fn inline_image(url: Seq<char>) -> Option<(Seq<char>, Seq<char>)> {
    match after_prefix(url, "data:"@) {
        Some(rest) => match cut(rest, ',') {
            Some((meta, data)) => match before_suffix(meta, ";base64"@) {
                Some(media) => if media.len() == 0 {
                    None
                } else {
                    Some((media, data))
                },
                None => None,
            },
            None => None,
        },
        None => None,
    }
}

/// Where an image comes from.
pub open spec fn image_source(url: Seq<char>) -> JsonView {
    match inline_image(url) {
        Some((media, data)) => JsonView::Object(
            seq![
                ("type"@, JsonView::Text("base64"@)),
                ("media_type"@, JsonView::Text(media)),
                ("data"@, JsonView::Text(data)),
            ],
        ),
        None => JsonView::Object(
            seq![("type"@, JsonView::Text("url"@)), ("url"@, JsonView::Text(url))],
        ),
    }
}

/// An image as a block.
pub open spec fn image_block_of(url: Seq<char>, detail: Option<ImageDetail>) -> JsonView {
    JsonView::Object(
        seq![
            ("type"@, JsonView::Text("image"@)),
            ("source"@, image_source(url)),
            (
                "codexImageDetail"@,
                match detail {
                    Some(d) => JsonView::Text(image_detail_word(d)),
                    None => JsonView::Null,
                },
            ),
        ],
    )
}

/// A text as a block.
pub open spec fn text_block_of(s: Seq<char>) -> JsonView {
    JsonView::Object(seq![("type"@, JsonView::Text("text"@)), ("text"@, JsonView::Text(s))])
}

/// A part of a message as a block.
pub open spec fn content_block_of(c: ContentItemView) -> JsonView {
    match c {
        ContentItemView::InputImage { image_url, detail } => image_block_of(image_url, detail),
        ContentItemView::InputText { text } => text_block_of(text),
        ContentItemView::OutputText { text } => text_block_of(text),
        ContentItemView::InputAudio { audio_url } => text_block_of(
            "[audio:"@ + audio_url + "]"@,
        ),
    }
}

/// A part of a tool output as a block.
pub open spec fn output_block_of(c: FunctionCallOutputContentItemView) -> JsonView {
    match c {
        FunctionCallOutputContentItemView::InputImage { image_url, detail } => image_block_of(
            image_url,
            detail,
        ),
        FunctionCallOutputContentItemView::InputText { text } => text_block_of(text),
        FunctionCallOutputContentItemView::InputAudio { audio_url } => text_block_of(
            "[audio:"@ + audio_url + "]"@,
        ),
        FunctionCallOutputContentItemView::EncryptedContent { encrypted_content } => text_block_of(
            encrypted_content,
        ),
    }
}

/// Some part of a message is an image.
pub open spec fn has_image(items: Seq<ContentItemView>) -> bool {
    exists|k: int| 0 <= k < items.len() && #[trigger] items[k] is InputImage
}

/// Some part of a tool output is an image.
pub open spec fn output_has_image(items: Seq<FunctionCallOutputContentItemView>) -> bool {
    exists|k: int| 0 <= k < items.len() && #[trigger] items[k] is InputImage
}

/// The blocks of a message that holds an image; none of another.
pub open spec fn user_blocks_of(items: Seq<ContentItemView>) -> Option<JsonView> {
    if has_image(items) {
        Some(JsonView::List(items.map_values(|c: ContentItemView| content_block_of(c))))
    } else {
        None
    }
}

/// The blocks of a tool output that holds an image; none of another.
pub open spec fn tool_blocks_of(body: FunctionCallOutputBodyView) -> Option<JsonView> {
    match body {
        FunctionCallOutputBodyView::ContentItems(items) => if output_has_image(items) {
            Some(
                JsonView::List(
                    items.map_values(|c: FunctionCallOutputContentItemView| output_block_of(c)),
                ),
            )
        } else {
            None
        },
        _ => None,
    }
}

fn inline_parts(url: &str) -> (r: Option<(String, String)>)
    ensures
        match r {
            Some((media, data)) => inline_image(url@) == Some((media@, data@)),
            None => inline_image(url@) is None,
        },
{
    match strip_prefix(url, "data:") {
        Some(rest) => match split_once(rest.as_str(), ',') {
            Some((meta, data)) => match strip_suffix(meta.as_str(), ";base64") {
                Some(media) => if media.as_str().unicode_len() == 0 {
                    None
                } else {
                    Some((media, data))
                },
                None => None,
            },
            None => None,
        },
        None => None,
    }
}

fn image_block(url: &str, detail: Option<ImageDetail>) -> (r: Json)
    ensures
        r@ == image_block_of(url@, detail),
{
    broadcast use lemma_object_view;

    let mut source: Vec<(String, Json)> = Vec::new();
    match inline_parts(url) {
        Some((media, data)) => {
            push_entry(&mut source, "type", Json::Text(text("base64")));
            push_entry(&mut source, "media_type", Json::Text(media));
            push_entry(&mut source, "data", Json::Text(data));
        },
        None => {
            push_entry(&mut source, "type", Json::Text(text("url")));
            push_entry(&mut source, "url", Json::Text(text(url)));
        },
    }
    assert(source.deep_view() =~= image_source(url@)->Object_0);
    let mut e: Vec<(String, Json)> = Vec::new();
    push_entry(&mut e, "type", Json::Text(text("image")));
    push_entry(&mut e, "source", Json::Object(source));
    push_entry(
        &mut e,
        "codexImageDetail",
        match detail {
            Some(d) => d.to_wire(),
            None => Json::Null,
        },
    );
    assert(e.deep_view() =~= image_block_of(url@, detail)->Object_0);
    Json::Object(e)
}

fn text_block(s: &str) -> (r: Json)
    ensures
        r@ == text_block_of(s@),
{
    broadcast use lemma_object_view;

    let mut e: Vec<(String, Json)> = Vec::new();
    push_entry(&mut e, "type", Json::Text(text("text")));
    push_entry(&mut e, "text", Json::Text(text(s)));
    assert(e.deep_view() =~= text_block_of(s@)->Object_0);
    Json::Object(e)
}

fn audio_block(url: &str) -> (r: Json)
    ensures
        r@ == text_block_of("[audio:"@ + url@ + "]"@),
{
    let mut s = text("[audio:");
    s.append(url);
    s.append("]");
    text_block(s.as_str())
}

/// The blocks of a message that holds an image; none of another.
pub fn user_blocks(items: &Vec<ContentItem>) -> (r: Option<Json>)
    ensures
        r.deep_view() == user_blocks_of(items.deep_view()),
{
    broadcast use lemma_list_view;

    let ghost view = items.deep_view();
    let mut any = false;
    let mut out: Vec<Json> = Vec::new();
    let mut i: usize = 0;
    while i < items.len()
        invariant
            i <= items.len(),
            view == items.deep_view(),
            out.len() == i,
            forall|k: int| 0 <= k < i ==> (#[trigger] out@[k])@ == content_block_of(view[k]),
            any <==> exists|k: int| 0 <= k < i && #[trigger] view[k] is InputImage,
        decreases items.len() - i,
    {
        assert(view[i as int] == items@[i as int]@);
        let block = match &items[i] {
            ContentItem::InputImage { image_url, detail } => {
                any = true;
                image_block(image_url.as_str(), *detail)
            },
            ContentItem::InputText { text } => text_block(text.as_str()),
            ContentItem::OutputText { text } => text_block(text.as_str()),
            ContentItem::InputAudio { audio_url } => audio_block(audio_url.as_str()),
        };
        out.push(block);
        i = i + 1;
    }
    if any {
        assert(out.deep_view() =~= view.map_values(|c: ContentItemView| content_block_of(c)));
        Some(Json::List(out))
    } else {
        None
    }
}

/// The blocks of a tool output that holds an image; none of another.
pub fn tool_blocks(body: &FunctionCallOutputBody) -> (r: Option<Json>)
    ensures
        r.deep_view() == tool_blocks_of(body@),
{
    broadcast use lemma_list_view;

    let items = match body {
        FunctionCallOutputBody::ContentItems(items) => items,
        _ => {
            return None;
        },
    };
    let ghost view = items.deep_view();
    let mut any = false;
    let mut out: Vec<Json> = Vec::new();
    let mut i: usize = 0;
    while i < items.len()
        invariant
            i <= items.len(),
            view == items.deep_view(),
            out.len() == i,
            forall|k: int| 0 <= k < i ==> (#[trigger] out@[k])@ == output_block_of(view[k]),
            any <==> exists|k: int| 0 <= k < i && #[trigger] view[k] is InputImage,
        decreases items.len() - i,
    {
        assert(view[i as int] == items@[i as int]@);
        let block = match &items[i] {
            FunctionCallOutputContentItem::InputImage { image_url, detail } => {
                any = true;
                image_block(image_url.as_str(), *detail)
            },
            FunctionCallOutputContentItem::InputText { text } => text_block(text.as_str()),
            FunctionCallOutputContentItem::InputAudio { audio_url } => audio_block(
                audio_url.as_str(),
            ),
            FunctionCallOutputContentItem::EncryptedContent { encrypted_content } => text_block(
                encrypted_content.as_str(),
            ),
        };
        out.push(block);
        i = i + 1;
    }
    if any {
        assert(out.deep_view() =~= view.map_values(
            |c: FunctionCallOutputContentItemView| output_block_of(c),
        ));
        Some(Json::List(out))
    } else {
        None
    }
}

/// The text of some blocks, each as the store shows it.
pub fn text_projection(shown: &Vec<String>) -> (r: String)
    ensures
        r@ == joined(shown.deep_view(), "\n"@),
{
    join(shown, "\n")
}

// ---------------------------------------------------------------------------
// Restoring
// ---------------------------------------------------------------------------

/// How closely an image is to be looked at.
pub open spec fn detail_of_word(j: Option<JsonView>) -> Option<ImageDetail> {
    match j {
        Some(JsonView::Text(s)) => if s == image_detail_word(ImageDetail::Auto) {
            Some(ImageDetail::Auto)
        } else if s == image_detail_word(ImageDetail::Low) {
            Some(ImageDetail::Low)
        } else if s == image_detail_word(ImageDetail::High) {
            Some(ImageDetail::High)
        } else if s == image_detail_word(ImageDetail::Original) {
            Some(ImageDetail::Original)
        } else {
            None
        },
        _ => None,
    }
}

fn read_detail(j: Option<&Json>) -> (r: Option<ImageDetail>)
    ensures
        r == detail_of_word(j.deep_view()),
{
    match j {
        Some(Json::Text(s)) => if text_eq(s.as_str(), "auto") {
            Some(ImageDetail::Auto)
        } else if text_eq(s.as_str(), "low") {
            Some(ImageDetail::Low)
        } else if text_eq(s.as_str(), "high") {
            Some(ImageDetail::High)
        } else if text_eq(s.as_str(), "original") {
            Some(ImageDetail::Original)
        } else {
            None
        },
        _ => None,
    }
}

/// The address of the image that a source describes.
pub open spec fn source_url(source: JsonView) -> Option<Seq<char>> {
    let kind = text_member(source, "type"@);
    let url = if kind == Some("url"@) {
        text_member(source, "url"@)
    } else if kind == Some("base64"@) {
        match (text_member(source, "media_type"@), text_member(source, "data"@)) {
            (Some(media), Some(data)) => Some("data:"@ + media + ";base64,"@ + data),
            _ => None,
        }
    } else {
        None
    };
    match url {
        Some(s) => if s.len() == 0 {
            None
        } else {
            Some(s)
        },
        None => None,
    }
}

fn read_source_url(source: &Json) -> (r: Option<String>)
    ensures
        r.deep_view() == source_url(source@),
{
    let kind = match get_text_member(source, "type") {
        Some(k) => k,
        None => {
            return None;
        },
    };
    let url = if text_eq(kind.as_str(), "url") {
        match get_text_member(source, "url") {
            Some(s) => s.clone(),
            None => {
                return None;
            },
        }
    } else if text_eq(kind.as_str(), "base64") {
        match (get_text_member(source, "media_type"), get_text_member(source, "data")) {
            (Some(media), Some(data)) => {
                let mut s = text("data:");
                s.append(media.as_str());
                s.append(";base64,");
                s.append(data.as_str());
                s
            },
            _ => {
                return None;
            },
        }
    } else {
        return None;
    };
    if url.as_str().unicode_len() == 0 {
        None
    } else {
        Some(url)
    }
}

/// The part of a message that a block was, `shown` being what the store shows
/// in its place. An image whose bytes or address are gone stays a text.
pub open spec fn restored(block: JsonView, shown: Seq<char>) -> ContentItemView {
    let url = if text_member(block, "type"@) == Some("image"@) {
        match member(block, "source"@) {
            Some(source) => source_url(opened(source)),
            None => None,
        }
    } else {
        None
    };
    match url {
        Some(image_url) => ContentItemView::InputImage {
            image_url,
            detail: detail_of_word(member(block, "codexImageDetail"@)),
        },
        None => ContentItemView::InputText { text: shown },
    }
}

fn restore_block(block: &Json, shown: &str) -> (r: ContentItem)
    ensures
        r@ == restored(block@, shown@),
{
    let is_image = match get_text_member(block, "type") {
        Some(k) => text_eq(k.as_str(), "image"),
        None => false,
    };
    if is_image {
        if let Some(source) = block.get("source") {
            if let Some(image_url) = read_source_url(&open_value(source)) {
                return ContentItem::InputImage {
                    image_url,
                    detail: read_detail(block.get("codexImageDetail")),
                };
            }
        }
    }
    ContentItem::InputText { text: text(shown) }
}

/// The parts of a message that some blocks were.
pub open spec fn all_restored(blocks: Seq<JsonView>, shown: Seq<Seq<char>>) -> Seq<
    ContentItemView,
> {
    Seq::new(blocks.len(), |i: int| restored(blocks[i], shown[i]))
}

/// The parts of a message that some blocks were, `shown` being what the store
/// shows in place of each.
pub fn restore_user(blocks: &Vec<Json>, shown: &Vec<String>) -> (r: Vec<ContentItem>)
    requires
        blocks.len() == shown.len(),
    ensures
        r.deep_view() == all_restored(blocks.deep_view(), shown.deep_view()),
{
    let mut out: Vec<ContentItem> = Vec::new();
    let mut i: usize = 0;
    while i < blocks.len()
        invariant
            i <= blocks.len(),
            blocks.len() == shown.len(),
            out.len() == i,
            forall|k: int| 0 <= k < i ==> (#[trigger] out@[k])@ == restored(blocks@[k]@, shown@[k]@),
        decreases blocks.len() - i,
    {
        out.push(restore_block(&blocks[i], shown[i].as_str()));
        i = i + 1;
    }
    assert(out.deep_view() =~= all_restored(blocks.deep_view(), shown.deep_view()));
    out
}

/// A part of a message as a part of a tool output.
pub open spec fn as_output_part(c: ContentItemView) -> FunctionCallOutputContentItemView {
    match c {
        ContentItemView::InputImage { image_url, detail } =>
            FunctionCallOutputContentItemView::InputImage { image_url, detail },
        ContentItemView::InputText { text } => FunctionCallOutputContentItemView::InputText {
            text,
        },
        ContentItemView::OutputText { text } => FunctionCallOutputContentItemView::InputText {
            text,
        },
        ContentItemView::InputAudio { audio_url } =>
            FunctionCallOutputContentItemView::InputAudio { audio_url },
    }
}

/// The tool output that some blocks were.
pub fn restore_tool(blocks: &Vec<Json>, shown: &Vec<String>) -> (r: FunctionCallOutputBody)
    requires
        blocks.len() == shown.len(),
    ensures
        r@ == FunctionCallOutputBodyView::ContentItems(
            all_restored(blocks.deep_view(), shown.deep_view()).map_values(
                |c: ContentItemView| as_output_part(c),
            ),
        ),
{
    let parts = restore_user(blocks, shown);
    let ghost view = parts.deep_view();
    let mut out: Vec<FunctionCallOutputContentItem> = Vec::new();
    let mut i: usize = 0;
    while i < parts.len()
        invariant
            i <= parts.len(),
            view == parts.deep_view(),
            out.len() == i,
            forall|k: int| 0 <= k < i ==> (#[trigger] out@[k])@ == as_output_part(view[k]),
        decreases parts.len() - i,
    {
        assert(view[i as int] == parts@[i as int]@);
        let part = match &parts[i] {
            ContentItem::InputImage { image_url, detail } =>
                FunctionCallOutputContentItem::InputImage {
                image_url: image_url.clone(),
                detail: *detail,
            },
            ContentItem::InputText { text } => FunctionCallOutputContentItem::InputText {
                text: text.clone(),
            },
            ContentItem::OutputText { text } => FunctionCallOutputContentItem::InputText {
                text: text.clone(),
            },
            ContentItem::InputAudio { audio_url } => FunctionCallOutputContentItem::InputAudio {
                audio_url: audio_url.clone(),
            },
        };
        out.push(part);
        i = i + 1;
    }
    assert(out.deep_view() =~= view.map_values(|c: ContentItemView| as_output_part(c)));
    FunctionCallOutputBody::ContentItems(out)
}

// ---------------------------------------------------------------------------
// Laws
// ---------------------------------------------------------------------------

proof fn lemma_entry2(k1: Seq<char>, v1: JsonView, k2: Seq<char>, v2: JsonView, key: Seq<char>)
    ensures
        entry(seq![(k1, v1), (k2, v2)], key) == (if key == k1 {
            Some(v1)
        } else if key == k2 {
            Some(v2)
        } else {
            None
        }),
{
    let e = seq![(k1, v1), (k2, v2)];
    assert(e.drop_first() =~= seq![(k2, v2)]);
    assert(seq![(k2, v2)].drop_first() =~= Seq::<(Seq<char>, JsonView)>::empty());
    reveal_with_fuel(entry, 3);
}

proof fn lemma_entry3(
    k1: Seq<char>,
    v1: JsonView,
    k2: Seq<char>,
    v2: JsonView,
    k3: Seq<char>,
    v3: JsonView,
    key: Seq<char>,
)
    ensures
        entry(seq![(k1, v1), (k2, v2), (k3, v3)], key) == (if key == k1 {
            Some(v1)
        } else if key == k2 {
            Some(v2)
        } else if key == k3 {
            Some(v3)
        } else {
            None
        }),
{
    let e = seq![(k1, v1), (k2, v2), (k3, v3)];
    assert(e.drop_first() =~= seq![(k2, v2), (k3, v3)]);
    lemma_entry2(k2, v2, k3, v3, key);
}

/// An address that holds an image is put together again from its parts.
proof fn lemma_inline_parts(url: Seq<char>)
    ensures
        inline_image(url) matches Some((media, data)) ==> url == "data:"@ + media + ";base64,"@
            + data,
{
    reveal_strlit("data:");
    reveal_strlit(";base64");
    reveal_strlit(";base64,");
    if let Some((media, data)) = inline_image(url) {
        let rest = after_prefix(url, "data:"@)->0;
        lemma_first_from(rest, ',', 0);
        let (meta, tail) = cut(rest, ',')->0;
        assert(url =~= "data:"@ + rest);
        assert(rest =~= meta + seq![','] + tail);
        assert(meta =~= media + ";base64"@);
        assert(";base64,"@ =~= ";base64"@ + seq![',']);
        assert(url =~= "data:"@ + media + ";base64,"@ + data);
    }
}

proof fn lemma_source_url(url: Seq<char>)
    requires
        url.len() > 0,
    ensures
        source_url(image_source(url)) == Some(url),
{
    reveal_strlit("type");
    reveal_strlit("url");
    reveal_strlit("base64");
    reveal_strlit("media_type");
    reveal_strlit("data");
    lemma_inline_parts(url);
    assert("type"@.len() == 4 && "url"@.len() == 3 && "base64"@.len() == 6 && "media_type"@.len()
        == 10 && "data"@.len() == 4 && "data"@[0] != "type"@[0]);
    match inline_image(url) {
        Some((media, data)) => {
            let b = JsonView::Text("base64"@);
            let m = JsonView::Text(media);
            let d = JsonView::Text(data);
            lemma_entry3("type"@, b, "media_type"@, m, "data"@, d, "type"@);
            lemma_entry3("type"@, b, "media_type"@, m, "data"@, d, "media_type"@);
            lemma_entry3("type"@, b, "media_type"@, m, "data"@, d, "data"@);
        },
        None => {
            let k = JsonView::Text("url"@);
            let u = JsonView::Text(url);
            lemma_entry2("type"@, k, "url"@, u, "type"@);
            lemma_entry2("type"@, k, "url"@, u, "url"@);
        },
    }
}

/// An image that was stored as a block is restored as it was: the same address
/// and the same detail.
pub proof fn image_block_is_restored(
    url: Seq<char>,
    detail: Option<ImageDetail>,
    shown: Seq<char>,
)
    requires
        url.len() > 0,
    ensures
        restored(image_block_of(url, detail), shown) == (ContentItemView::InputImage {
            image_url: url,
            detail,
        }),
{
    reveal_strlit("type");
    reveal_strlit("source");
    reveal_strlit("codexImageDetail");
    reveal_strlit("auto");
    reveal_strlit("low");
    reveal_strlit("high");
    reveal_strlit("original");
    assert("type"@.len() == 4 && "source"@.len() == 6 && "codexImageDetail"@.len() == 16);
    assert("auto"@.len() == 4 && "low"@.len() == 3 && "high"@.len() == 4 && "original"@.len() == 8
        && "auto"@[0] != "high"@[0]);
    let t = JsonView::Text("image"@);
    let s = image_source(url);
    let d = match detail {
        Some(d) => JsonView::Text(image_detail_word(d)),
        None => JsonView::Null,
    };
    lemma_entry3("type"@, t, "source"@, s, "codexImageDetail"@, d, "type"@);
    lemma_entry3("type"@, t, "source"@, s, "codexImageDetail"@, d, "source"@);
    lemma_entry3("type"@, t, "source"@, s, "codexImageDetail"@, d, "codexImageDetail"@);
    lemma_source_url(url);
    assert(image_block_of(url, detail)->Object_0 =~= seq![
        ("type"@, t),
        ("source"@, s),
        ("codexImageDetail"@, d),
    ]);
    assert(detail_of_word(Some(d)) == detail);
}

} // verus!
