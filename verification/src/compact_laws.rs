//! What a compact gives the host: every message that was served, and a marker
//! that tells of them and of the compact.

use vstd::prelude::*;
use vstd::string::*;
use vstd::utf8::encode_utf8;

use crate::compact_bridge::{
    body_of, is_degraded, message_text, parts_text, served_items, step_of, tip_of, CompactPhaseView,
    CompactReplyView, CompactRequestView, CompactStepView, LhcCompactUnavailableView,
    LlmRequestContextMessageView, LlmRequestContextPartView, LlmRequestContextRole,
    LlmRequestContextView,
};
use crate::compact_marker::{
    content_digest, marker_of, note_text, record_text, CompactMarkerView, CompactReceiptView,
};
use crate::coverage::{missing_items, served, unrepresentable_gap};
use crate::idempotency::{digest_of, hex, sha256_of};
use crate::json::{json_text, JsonView};
use crate::protocol::{ContentItemView, ResponseItem, ResponseItemView};
use crate::records::EventRecordView;
use crate::text::{begins_with, stands_at};
use crate::wire::Wire;

verus! {

// ---------------------------------------------------------------------------
// The served body
// ---------------------------------------------------------------------------

/// What a served message says: its parts, one behind the other.
pub open spec fn said(m: LlmRequestContextMessageView) -> Seq<char> {
    m.content.map_values(|p: LlmRequestContextPartView| p.text).flatten()
}

/// A message of the conversation that says `text` in the name of `role`.
pub open spec fn spoken(role: LlmRequestContextRole, text: Seq<char>) -> ResponseItemView {
    ResponseItemView::Message {
        id: None,
        role: if role == LlmRequestContextRole::User {
            "user"@
        } else {
            "assistant"@
        },
        content: seq![
            if role == LlmRequestContextRole::User {
                ContentItemView::InputText { text }
            } else {
                ContentItemView::OutputText { text }
            },
        ],
        phase: None,
        internal_chat_message_metadata_passthrough: None,
    }
}

proof fn lemma_parts_text(parts: Seq<LlmRequestContextPartView>, n: int)
    requires
        0 <= n <= parts.len(),
    ensures
        parts_text(parts, n) == parts.take(n).map_values(
            |p: LlmRequestContextPartView| p.text,
        ).flatten(),
    decreases n,
{
    let texts = parts.take(n).map_values(|p: LlmRequestContextPartView| p.text);
    texts.lemma_flatten_and_flatten_alt_are_equivalent();
    if n > 0 {
        lemma_parts_text(parts, n - 1);
        let before = parts.take(n - 1).map_values(|p: LlmRequestContextPartView| p.text);
        before.lemma_flatten_and_flatten_alt_are_equivalent();
        assert(texts.drop_last() =~= before);
        assert(texts.last() == parts[n - 1].text);
    }
}

proof fn lemma_said(m: LlmRequestContextMessageView)
    ensures
        message_text(m) == said(m),
{
    lemma_parts_text(m.content, m.content.len() as int);
    assert(m.content.take(m.content.len() as int) =~= m.content);
}

proof fn lemma_served(messages: Seq<LlmRequestContextMessageView>, n: int)
    requires
        0 <= n <= messages.len(),
    ensures
        served_items(messages, n) == messages.take(n).filter(
            |m: LlmRequestContextMessageView| said(m).len() > 0,
        ).map_values(|m: LlmRequestContextMessageView| spoken(m.role, said(m))),
    decreases n,
{
    let says = |m: LlmRequestContextMessageView| said(m).len() > 0;
    let item = |m: LlmRequestContextMessageView| spoken(m.role, said(m));
    reveal(Seq::filter);
    if n == 0 {
        assert(messages.take(0).filter(says).map_values(item) =~= Seq::<ResponseItemView>::empty());
    } else {
        lemma_served(messages, n - 1);
        let m = messages[n - 1];
        lemma_said(m);
        assert(messages.take(n).drop_last() =~= messages.take(n - 1));
        assert(messages.take(n).last() == m);
        let before = messages.take(n - 1).filter(says);
        assert(before.push(m).map_values(item) =~= before.map_values(item).push(item(m)));
    }
}

/// The served body has one item for every served message that says something, in
/// order, in the name of who speaks in it and with all that it says; and nothing
/// else.
pub proof fn every_served_message_is_in_the_body(ctx: LlmRequestContextView)
    ensures
        body_of(ctx) == ctx.messages.filter(
            |m: LlmRequestContextMessageView| said(m).len() > 0,
        ).map_values(|m: LlmRequestContextMessageView| spoken(m.role, said(m))),
{
    lemma_served(ctx.messages, ctx.messages.len() as int);
    assert(ctx.messages.take(ctx.messages.len() as int) =~= ctx.messages);
}

/// The body of a view that all speaks has as many items as the view has messages.
pub proof fn speaking_view_is_served_whole(ctx: LlmRequestContextView, k: int)
    requires
        forall|i: int| 0 <= i < ctx.messages.len() ==> said(#[trigger] ctx.messages[i]).len() > 0,
        0 <= k < ctx.messages.len(),
    ensures
        body_of(ctx).len() == ctx.messages.len(),
        body_of(ctx)[k] == spoken(ctx.messages[k].role, said(ctx.messages[k])),
{
    every_served_message_is_in_the_body(ctx);
    lemma_filter_all(ctx.messages, |m: LlmRequestContextMessageView| said(m).len() > 0);
}

proof fn lemma_filter_all<A>(s: Seq<A>, keep: spec_fn(A) -> bool)
    requires
        forall|i: int| 0 <= i < s.len() ==> keep(#[trigger] s[i]),
    ensures
        s.filter(keep) == s,
    decreases s.len(),
{
    reveal(Seq::filter);
    if s.len() > 0 {
        assert(keep(s[s.len() - 1]));
        lemma_filter_all(s.drop_last(), keep);
        assert(s.drop_last().push(s.last()) =~= s);
    }
}

/// An item is seen to be degraded exactly when it is a message one of whose texts
/// holds the mark, whatever stands around it.
pub proof fn degraded_items_bear_the_mark(item: ResponseItemView)
    ensures
        is_degraded(item) <==> (item matches ResponseItemView::Message { content, .. } && exists|
            k: int,
            before: Seq<char>,
            after: Seq<char>,
        |
            0 <= k < content.len() && (#[trigger] content[k] == (ContentItemView::InputText {
                text: #[trigger] (before + "[degraded:"@ + after),
            }) || content[k] == (ContentItemView::OutputText {
                text: before + "[degraded:"@ + after,
            }))),
{
    if let ResponseItemView::Message { content, .. } = item {
        let mark = "[degraded:"@;
        if is_degraded(item) {
            let k = choose|k: int|
                0 <= k < content.len() && crate::compact_bridge::is_degraded_part(
                    #[trigger] content[k],
                );
            let text = match content[k] {
                ContentItemView::InputText { text } => text,
                ContentItemView::OutputText { text } => text,
                _ => Seq::empty(),
            };
            let at = choose|at: int| stands_at(text, mark, at);
            let before = text.subrange(0, at);
            let after = text.subrange(at + mark.len(), text.len() as int);
            assert(text =~= before + mark + after);
        }
        if exists|k: int, before: Seq<char>, after: Seq<char>|
            0 <= k < content.len() && (#[trigger] content[k] == (ContentItemView::InputText {
                text: #[trigger] (before + "[degraded:"@ + after),
            }) || content[k] == (ContentItemView::OutputText {
                text: before + "[degraded:"@ + after,
            })) {
            let (k, before, after) = choose|k: int, before: Seq<char>, after: Seq<char>|
                0 <= k < content.len() && (#[trigger] content[k] == (ContentItemView::InputText {
                    text: #[trigger] (before + "[degraded:"@ + after),
                }) || content[k] == (ContentItemView::OutputText {
                    text: before + "[degraded:"@ + after,
                }));
            let text = before + mark + after;
            assert(text.subrange(before.len() as int, (before.len() + mark.len()) as int) =~= mark);
            assert(stands_at(text, mark, before.len() as int));
            assert(crate::compact_bridge::is_degraded_part(content[k]));
        }
    }
}

// ---------------------------------------------------------------------------
// The course of a compact
// ---------------------------------------------------------------------------

/// The store covers the host: all that the host holds can be stored and is.
pub open spec fn is_covered(request: CompactRequestView, events: Seq<EventRecordView>) -> bool {
    &&& unrepresentable_gap(request.host_items) is None
    &&& missing_items(request.host_items, events, served(request.session_derived, events)).len()
        == 0
}

/// Where the store covers the host and every reply is good, a compact runs to its
/// end, and gives what was served, the receipt of the compact, and the marker of
/// both over the newest event of the store.
pub proof fn compact_runs_to_its_end(
    request: CompactRequestView,
    imported: bool,
    events: Seq<EventRecordView>,
    receipt: CompactReceiptView,
    ctx: LlmRequestContextView,
    cancelled: bool,
)
    requires
        is_covered(request, events),
        events.len() > 0,
        exists|k: int|
            0 <= k < ctx.messages.len() && said(#[trigger] ctx.messages[k]).len() > 0,
    ensures
        step_of(request, CompactPhaseView::Opening, CompactReplyView::Opened, false) == Ok::<
            CompactStepView,
            LhcCompactUnavailableView,
        >(CompactStepView::Next(CompactPhaseView::Listing { imported: false })),
        step_of(
            request,
            CompactPhaseView::Listing { imported },
            CompactReplyView::Listed(events),
            false,
        ) == Ok::<CompactStepView, LhcCompactUnavailableView>(
            CompactStepView::Next(CompactPhaseView::Compacting { archive_tip: tip_of(events) }),
        ),
        step_of(
            request,
            CompactPhaseView::Compacting { archive_tip: tip_of(events) },
            CompactReplyView::Compacted(receipt),
            false,
        ) == Ok::<CompactStepView, LhcCompactUnavailableView>(
            CompactStepView::Next(
                CompactPhaseView::Serving { archive_tip: tip_of(events), receipt },
            ),
        ),
        step_of(
            request,
            CompactPhaseView::Serving { archive_tip: tip_of(events), receipt },
            CompactReplyView::Served(ctx),
            cancelled,
        ) matches Ok(step) && step matches CompactStepView::Done(done) && done.body == body_of(ctx)
            && done.receipt == receipt && done.marker == marker_of(
            receipt,
            request.thread_id,
            body_of(ctx),
            tip_of(events),
        ),
{
    every_served_message_is_in_the_body(ctx);
    let says = |m: LlmRequestContextMessageView| said(m).len() > 0;
    let k = choose|k: int|
        0 <= k < ctx.messages.len() && said(#[trigger] ctx.messages[k]).len() > 0;
    ctx.messages.lemma_filter_contains(says, k);
    assert(ctx.messages.filter(says).len() > 0);
}

/// What the store lacks is imported first, where that is allowed: exactly that,
/// and once; then the store is listed again.
pub proof fn missing_items_are_imported_first(
    request: CompactRequestView,
    events: Seq<EventRecordView>,
    cancelled: bool,
)
    requires
        unrepresentable_gap(request.host_items) is None,
        missing_items(request.host_items, events, served(request.session_derived, events)).len()
            > 0,
        request.import_missing,
    ensures
        step_of(
            request,
            CompactPhaseView::Listing { imported: false },
            CompactReplyView::Listed(events),
            cancelled,
        ) == Ok::<CompactStepView, LhcCompactUnavailableView>(
            CompactStepView::Next(
                CompactPhaseView::Importing {
                    missing: missing_items(
                        request.host_items,
                        events,
                        served(request.session_derived, events),
                    ),
                },
            ),
        ),
        step_of(
            request,
            CompactPhaseView::Importing {
                missing: missing_items(
                    request.host_items,
                    events,
                    served(request.session_derived, events),
                ),
            },
            CompactReplyView::Imported,
            cancelled,
        ) == Ok::<CompactStepView, LhcCompactUnavailableView>(
            CompactStepView::Next(CompactPhaseView::Listing { imported: true }),
        ),
        step_of(
            request,
            CompactPhaseView::Listing { imported: true },
            CompactReplyView::Listed(events),
            cancelled,
        ) matches Err(e) && e is ArchiveDoesNotCoverHost,
{
}

/// A host whose history cannot be stored whole is refused before anything is
/// imported or compacted, with what stands in the way.
pub proof fn unstorable_host_is_refused(
    request: CompactRequestView,
    events: Seq<EventRecordView>,
    cancelled: bool,
    gap: Seq<char>,
)
    requires
        unrepresentable_gap(request.host_items) == Some(gap),
    ensures
        step_of(
            request,
            CompactPhaseView::Listing { imported: false },
            CompactReplyView::Listed(events),
            cancelled,
        ) == Err::<CompactStepView, LhcCompactUnavailableView>(
            LhcCompactUnavailableView::ArchiveDoesNotCoverHost(gap),
        ),
{
}

/// A compact that is no longer wanted when the store is listed is not begun, and
/// an empty store has nothing to compact.
pub proof fn empty_or_unwanted_compact_is_refused(
    request: CompactRequestView,
    imported: bool,
    events: Seq<EventRecordView>,
    cancelled: bool,
)
    requires
        is_covered(request, events),
        events.len() == 0 || cancelled,
    ensures
        step_of(
            request,
            CompactPhaseView::Listing { imported },
            CompactReplyView::Listed(events),
            cancelled,
        ) == Err::<CompactStepView, LhcCompactUnavailableView>(
            if events.len() == 0 {
                LhcCompactUnavailableView::NoEvents
            } else {
                LhcCompactUnavailableView::Cancelled
            },
        ),
{
}

/// Every failure ends the compact, and is told as what failed and why.
pub proof fn failures_are_told(
    request: CompactRequestView,
    phase: CompactPhaseView,
    why: Seq<char>,
    ctx: LlmRequestContextView,
    cancelled: bool,
)
    ensures
        step_of(request, phase, CompactReplyView::NotOpened, cancelled) matches Err(e)
            && e is OpenFailed,
        step_of(request, phase, CompactReplyView::NotListed(why), cancelled) == Err::<
            CompactStepView,
            LhcCompactUnavailableView,
        >(LhcCompactUnavailableView::OpenFailed(why)),
        step_of(request, phase, CompactReplyView::NotImported(why), cancelled) == Err::<
            CompactStepView,
            LhcCompactUnavailableView,
        >(LhcCompactUnavailableView::OpenFailed(why)),
        step_of(request, phase, CompactReplyView::NotCompacted(why), cancelled) == Err::<
            CompactStepView,
            LhcCompactUnavailableView,
        >(LhcCompactUnavailableView::CompactFailed(why)),
        step_of(request, phase, CompactReplyView::NotServed(why), cancelled) == Err::<
            CompactStepView,
            LhcCompactUnavailableView,
        >(LhcCompactUnavailableView::ViewFetchFailed(why)),
        (forall|k: int|
            0 <= k < ctx.messages.len() ==> said(#[trigger] ctx.messages[k]).len() == 0) ==> (
        step_of(request, phase, CompactReplyView::Served(ctx), cancelled) matches Err(e)
            && e is EmptyView),
{
    every_served_message_is_in_the_body(ctx);
    if forall|k: int| 0 <= k < ctx.messages.len() ==> said(#[trigger] ctx.messages[k]).len() == 0 {
        let says = |m: LlmRequestContextMessageView| said(m).len() > 0;
        if ctx.messages.filter(says).len() > 0 {
            ctx.messages.lemma_filter_pred(says, 0);
            lemma_filtered_is_of(ctx.messages, says, 0);
        }
    }
}

proof fn lemma_filtered_is_of<A>(s: Seq<A>, keep: spec_fn(A) -> bool, i: int)
    requires
        0 <= i < s.filter(keep).len(),
    ensures
        exists|k: int| 0 <= k < s.len() && #[trigger] s[k] == s.filter(keep)[i],
    decreases s.len(),
{
    reveal(Seq::filter);
    let before = s.drop_last();
    if i < before.filter(keep).len() {
        lemma_filtered_is_of(before, keep, i);
        let k = choose|k: int| 0 <= k < before.len() && #[trigger] before[k] == before.filter(keep)[i];
        assert(s[k] == before[k]);
    } else {
        assert(s[s.len() - 1] == s.filter(keep)[i]);
    }
}

// ---------------------------------------------------------------------------
// The marker
// ---------------------------------------------------------------------------

/// A marker holds all that the receipt says of the compact, and of each item of
/// the body, in order, the digest of its content. Nothing was assigned yet.
pub proof fn marker_tells_of_the_compact(
    receipt: CompactReceiptView,
    thread_id: Seq<char>,
    body: Seq<ResponseItemView>,
    archive_tip: Seq<char>,
    i: int,
)
    requires
        body.len() <= usize::MAX,
        0 <= i < body.len(),
    ensures
        ({
            let m = marker_of(receipt, thread_id, body, archive_tip);
            &&& m.view_id == receipt.view_id
            &&& m.covered_from == receipt.covered_from
            &&& m.compact_point == receipt.compact_point
            &&& m.total_tokens == receipt.total_tokens
            &&& m.tail_tokens == receipt.tail_tokens
            &&& m.first_kept_message_id == receipt.first_kept_message_id
            &&& m.profile == receipt.profile
            &&& m.bands == receipt.bands
            &&& m.archive_tip == archive_tip
            &&& m.body_item_count == body.len()
            &&& m.derived_content_digests.len() == body.len()
            &&& m.derived_content_digests[i] == content_digest(body[i])
            &&& m.derived_host_ids.len() == 0
        }),
{
}

/// The digest of an item is that of its notation; the digest of its content is the
/// digest of the item without its identity.
pub proof fn digests_are_of_the_notation(
    role: Seq<char>,
    content: Seq<ContentItemView>,
    phase: Option<Seq<char>>,
    passed: Option<JsonView>,
    id: Option<Seq<char>>,
    item: ResponseItemView,
)
    ensures
        digest_of(item) == hex(sha256_of(encode_utf8(json_text(ResponseItem::wire(item))))),
        content_digest(
            ResponseItemView::Message {
                id,
                role,
                content,
                phase,
                internal_chat_message_metadata_passthrough: passed,
            },
        ) == digest_of(
            ResponseItemView::Message {
                id: None,
                role,
                content,
                phase,
                internal_chat_message_metadata_passthrough: passed,
            },
        ),
{
}

/// A note and a durable record are told apart by how they begin.
pub proof fn notes_and_records_begin_as_they_should(m: CompactMarkerView)
    ensures
        begins_with(note_text(m), "lhc_compact_marker {"@),
        begins_with(record_text(m), "lhc_compact_durable {"@),
{
    reveal_strlit("lhc_compact_marker {");
    reveal_strlit("lhc_compact_durable {");
    reveal_strlit("lhc_compact_marker ");
    reveal_strlit("lhc_compact_durable ");
    reveal_strlit("{");
    let note = "lhc_compact_marker {"@;
    let record = "lhc_compact_durable {"@;
    assert(note_text(m).subrange(0, note.len() as int) =~= note);
    assert(record_text(m).subrange(0, record.len() as int) =~= record);
}

} // verus!
