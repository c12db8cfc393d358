//! What blocks keep of the parts that they stand for.

use vstd::prelude::*;
use vstd::string::*;

use crate::image_blocks::{
    all_restored, as_output_part, content_block_of, inline_image, output_block_of, restored,
    tool_blocks_of, user_blocks_of,
};
use crate::json::{member, JsonView};
use crate::protocol::{
    ContentItemView, FunctionCallOutputBodyView, FunctionCallOutputContentItemView, ImageDetail,
};

verus! {

/// A text as a block.
pub open spec fn is_text_block(block: JsonView, text: Seq<char>) -> bool {
    block == JsonView::Object(
        seq![("type"@, JsonView::Text("text"@)), ("text"@, JsonView::Text(text))],
    )
}

/// The block stands for an image: it is restored as that image whatever is shown
/// in its place.
pub open spec fn stands_for_image(
    block: JsonView,
    url: Seq<char>,
    detail: Option<ImageDetail>,
) -> bool {
    forall|shown: Seq<char>| #[trigger]
        restored(block, shown) == (ContentItemView::InputImage { image_url: url, detail })
}

/// The block stands for a part of a message.
pub open spec fn stands_for(block: JsonView, part: ContentItemView) -> bool {
    match part {
        ContentItemView::InputText { text } => is_text_block(block, text),
        ContentItemView::OutputText { text } => is_text_block(block, text),
        ContentItemView::InputImage { image_url, detail } => image_url.len() > 0
            ==> stands_for_image(block, image_url, detail),
        ContentItemView::InputAudio { audio_url } => is_text_block(
            block,
            "[audio:"@ + audio_url + "]"@,
        ),
    }
}

proof fn lemma_stands_for(part: ContentItemView)
    ensures
        stands_for(content_block_of(part), part),
{
    if let ContentItemView::InputImage { image_url, detail } = part {
        if image_url.len() > 0 {
            assert forall|shown: Seq<char>| #[trigger] restored(
                content_block_of(part),
                shown,
            ) == (ContentItemView::InputImage { image_url, detail }) by {
                crate::image_blocks::image_block_is_restored(image_url, detail, shown);
            }
        }
    }
}

/// A message has blocks exactly when some part of it is an image, and then one
/// for each part, in their order.
pub proof fn messages_with_images_have_blocks(parts: Seq<ContentItemView>)
    ensures
        user_blocks_of(parts) is Some <==> exists|k: int|
            0 <= k < parts.len() && (#[trigger] parts[k]) is InputImage,
        user_blocks_of(parts) matches Some(JsonView::List(blocks)) ==> {
            &&& blocks.len() == parts.len()
            &&& forall|k: int| 0 <= k < parts.len() ==> stands_for(#[trigger] blocks[k], parts[k])
        },
        user_blocks_of(parts) is Some ==> user_blocks_of(parts)->0 is List,
{
    if let Some(JsonView::List(blocks)) = user_blocks_of(parts) {
        assert forall|k: int| 0 <= k < parts.len() implies stands_for(
            #[trigger] blocks[k],
            parts[k],
        ) by {
            lemma_stands_for(parts[k]);
        }
    }
}

/// The block stands for a part of an output.
pub open spec fn stands_for_output(
    block: JsonView,
    part: FunctionCallOutputContentItemView,
) -> bool {
    match part {
        FunctionCallOutputContentItemView::InputText { text } => is_text_block(block, text),
        FunctionCallOutputContentItemView::InputImage { image_url, detail } => image_url.len() > 0
            ==> stands_for_image(block, image_url, detail),
        FunctionCallOutputContentItemView::InputAudio { audio_url } => is_text_block(
            block,
            "[audio:"@ + audio_url + "]"@,
        ),
        FunctionCallOutputContentItemView::EncryptedContent { encrypted_content } => is_text_block(
            block,
            encrypted_content,
        ),
    }
}

proof fn lemma_stands_for_output(part: FunctionCallOutputContentItemView)
    ensures
        stands_for_output(output_block_of(part), part),
{
    if let FunctionCallOutputContentItemView::InputImage { image_url, detail } = part {
        if image_url.len() > 0 {
            assert forall|shown: Seq<char>| #[trigger] restored(
                output_block_of(part),
                shown,
            ) == (ContentItemView::InputImage { image_url, detail }) by {
                crate::image_blocks::image_block_is_restored(image_url, detail, shown);
            }
        }
    }
}

/// An output has blocks exactly when some part of it is an image, and then one for
/// each part, in their order. An output that is a text has none.
pub proof fn outputs_with_images_have_blocks(body: FunctionCallOutputBodyView)
    ensures
        tool_blocks_of(body) is Some <==> (body matches FunctionCallOutputBodyView::ContentItems(
            parts,
        ) && exists|k: int| 0 <= k < parts.len() && (#[trigger] parts[k]) is InputImage),
        tool_blocks_of(body) matches Some(JsonView::List(blocks)) ==> (body matches
            FunctionCallOutputBodyView::ContentItems(parts) && blocks.len() == parts.len() && (
        forall|k: int|
            0 <= k < parts.len() ==> stands_for_output(#[trigger] blocks[k], parts[k]))),
        tool_blocks_of(body) is Some ==> tool_blocks_of(body)->0 is List,
{
    if let FunctionCallOutputBodyView::ContentItems(parts) = body {
        if let Some(JsonView::List(blocks)) = tool_blocks_of(body) {
            assert forall|k: int| 0 <= k < parts.len() implies stands_for_output(
                #[trigger] blocks[k],
                parts[k],
            ) by {
                lemma_stands_for_output(parts[k]);
            }
        }
    }
}

/// A message is restored block by block: an image as it was, anything else as the
/// text that is shown in its place.
pub proof fn messages_are_restored_block_by_block(
    blocks: Seq<JsonView>,
    shown: Seq<Seq<char>>,
    k: int,
)
    requires
        blocks.len() == shown.len(),
        0 <= k < blocks.len(),
    ensures
        all_restored(blocks, shown).len() == blocks.len(),
        all_restored(blocks, shown)[k] == restored(blocks[k], shown[k]),
        member(blocks[k], "type"@) != Some(JsonView::Text("image"@)) ==> all_restored(
            blocks,
            shown,
        )[k] == (ContentItemView::InputText { text: shown[k] }),
{
}

/// A restored part of an output is the restored part of a message.
pub proof fn outputs_are_restored_alike(part: ContentItemView)
    ensures
        part matches ContentItemView::InputImage { image_url, detail } ==> as_output_part(part) == (
        FunctionCallOutputContentItemView::InputImage { image_url, detail }),
        part matches ContentItemView::InputText { text } ==> as_output_part(part) == (
        FunctionCallOutputContentItemView::InputText { text }),
        part matches ContentItemView::InputAudio { audio_url } ==> as_output_part(part) == (
        FunctionCallOutputContentItemView::InputAudio { audio_url }),
{
}

/// An image that holds its own bytes is stored with its kind and its bytes.
pub proof fn inline_images_are_taken_apart(media: Seq<char>, data: Seq<char>)
    requires
        media.len() > 0,
        !media.contains(','),
    ensures
        inline_image("data:"@ + media + ";base64,"@ + data) == Some((media, data)),
{
    reveal_strlit(";base64,");
    reveal_strlit(";base64");
    let url = "data:"@ + media + ";base64,"@ + data;
    let meta = media + ";base64"@;
    assert(";base64,"@ =~= ";base64"@ + seq![',']);
    assert(url =~= "data:"@ + (meta + seq![','] + data));
    crate::idempotency::lemma_after_prefix("data:"@, meta + seq![','] + data);
    assert(!meta.contains(',')) by {
        assert forall|i: int| 0 <= i < meta.len() implies meta[i] != ',' by {
            if i < media.len() {
                assert(meta[i] == media[i]);
                assert(media.contains(media[i]));
            } else {
                assert(meta[i] == ";base64"@[i - media.len()]);
            }
        }
    }
    crate::text::lemma_cut_pair(meta, ',', data);
    assert(meta.subrange(meta.len() - ";base64"@.len(), meta.len() as int) =~= ";base64"@);
    assert(meta.subrange(0, meta.len() - ";base64"@.len()) =~= media);
}

} // verus!
