//! Making a compact: what is done in which order, and when there is none.

use vstd::prelude::*;
use vstd::string::*;

use crate::compact_marker::{
    marker_of, note_text, CompactMarker, CompactMarkerView, CompactReceipt, CompactReceiptView,
};
use crate::coverage::{
    host_items_missing_from_archive_with_provenance, missing_items, served, unrepresentable_gap,
    unrepresentable_host_items_gap, DerivedProvenance, DerivedProvenanceView,
};
use crate::mapping::{
    host_event, make_event, text_entries, text_payload, EventView, MessageEventInput, ACTOR_SYSTEM,
};
use crate::protocol::{ContentItem, ContentItemView, ResponseItem, ResponseItemView};
use crate::records::{
    EventRecord, EventRecordView, MessageRecord, MessageRecordView, TurnRecord, TurnRecordView,
};
use crate::reverse::{assistant_message, assistant_text_message, user_message, user_text_message};
use crate::text::{decimal, decimal_text, has_occurrence, occurs_in, text};
use crate::thread_view::{SessionThreadViewEntry, SessionThreadViewEntryView};

verus! {

/// Why no compact is to be had.
#[derive(Debug, PartialEq, Eq)]
pub enum LhcCompactUnavailable {
    /// The store could not be opened or read.
    OpenFailed(String),
    /// The store holds nothing.
    NoEvents,
    /// The store does not hold what the host holds.
    ArchiveDoesNotCoverHost(String),
    /// The compact itself failed.
    CompactFailed(String),
    /// Nothing was served.
    EmptyView(String),
    /// What was compacted could not be read.
    ViewFetchFailed(String),
    /// There is nothing to derive with.
    Inference(String),
    /// What was derived is no good.
    DerivationFailed(String),
    /// The caller wants it no longer.
    Cancelled,
    /// The compact would not make the history smaller.
    NoReduction(String),
}

/// What a [`LhcCompactUnavailable`] stands for.
#[verifier::ext_equal]
pub enum LhcCompactUnavailableView {
    OpenFailed(Seq<char>),
    NoEvents,
    ArchiveDoesNotCoverHost(Seq<char>),
    CompactFailed(Seq<char>),
    EmptyView(Seq<char>),
    ViewFetchFailed(Seq<char>),
    Inference(Seq<char>),
    DerivationFailed(Seq<char>),
    Cancelled,
    NoReduction(Seq<char>),
}

impl View for LhcCompactUnavailable {
    type V = LhcCompactUnavailableView;

    open spec fn view(&self) -> LhcCompactUnavailableView {
        match self {
            LhcCompactUnavailable::OpenFailed(x) => LhcCompactUnavailableView::OpenFailed(
                x.deep_view(),
            ),
            LhcCompactUnavailable::NoEvents => LhcCompactUnavailableView::NoEvents,
            LhcCompactUnavailable::ArchiveDoesNotCoverHost(
                x,
            ) => LhcCompactUnavailableView::ArchiveDoesNotCoverHost(x.deep_view()),
            LhcCompactUnavailable::CompactFailed(x) => LhcCompactUnavailableView::CompactFailed(
                x.deep_view(),
            ),
            LhcCompactUnavailable::EmptyView(x) => LhcCompactUnavailableView::EmptyView(
                x.deep_view(),
            ),
            LhcCompactUnavailable::ViewFetchFailed(x) => LhcCompactUnavailableView::ViewFetchFailed(
                x.deep_view(),
            ),
            LhcCompactUnavailable::Inference(x) => LhcCompactUnavailableView::Inference(
                x.deep_view(),
            ),
            LhcCompactUnavailable::DerivationFailed(
                x,
            ) => LhcCompactUnavailableView::DerivationFailed(x.deep_view()),
            LhcCompactUnavailable::Cancelled => LhcCompactUnavailableView::Cancelled,
            LhcCompactUnavailable::NoReduction(x) => LhcCompactUnavailableView::NoReduction(
                x.deep_view(),
            ),
        }
    }
}

impl DeepView for LhcCompactUnavailable {
    type V = LhcCompactUnavailableView;

    open spec fn deep_view(&self) -> LhcCompactUnavailableView {
        self@
    }
}

impl Clone for LhcCompactUnavailable {
    fn clone(&self) -> (r: Self)
        ensures
            r@ == self@,
            r.deep_view() == self.deep_view(),
    {
        match self {
            LhcCompactUnavailable::OpenFailed(x) => LhcCompactUnavailable::OpenFailed(x.clone()),
            LhcCompactUnavailable::NoEvents => LhcCompactUnavailable::NoEvents,
            LhcCompactUnavailable::ArchiveDoesNotCoverHost(
                x,
            ) => LhcCompactUnavailable::ArchiveDoesNotCoverHost(x.clone()),
            LhcCompactUnavailable::CompactFailed(x) => LhcCompactUnavailable::CompactFailed(
                x.clone(),
            ),
            LhcCompactUnavailable::EmptyView(x) => LhcCompactUnavailable::EmptyView(x.clone()),
            LhcCompactUnavailable::ViewFetchFailed(x) => LhcCompactUnavailable::ViewFetchFailed(
                x.clone(),
            ),
            LhcCompactUnavailable::Inference(x) => LhcCompactUnavailable::Inference(x.clone()),
            LhcCompactUnavailable::DerivationFailed(x) => LhcCompactUnavailable::DerivationFailed(
                x.clone(),
            ),
            LhcCompactUnavailable::Cancelled => LhcCompactUnavailable::Cancelled,
            LhcCompactUnavailable::NoReduction(x) => LhcCompactUnavailable::NoReduction(x.clone()),
        }
    }
}

/// Who speaks in a served view.
#[derive(Debug, Clone, Copy, PartialEq, Eq, Structural)]
pub enum LlmRequestContextRole {
    User,
    Assistant,
}

impl DeepView for LlmRequestContextRole {
    type V = LlmRequestContextRole;

    open spec fn deep_view(&self) -> LlmRequestContextRole {
        *self
    }
}

/// What a part of a served message is.
#[derive(Debug, Clone, Copy, PartialEq, Eq, Structural)]
pub enum LlmRequestContextPartType {
    Text,
}

impl DeepView for LlmRequestContextPartType {
    type V = LlmRequestContextPartType;

    open spec fn deep_view(&self) -> LlmRequestContextPartType {
        *self
    }
}

/// A part of a served message.
#[derive(Debug, PartialEq, Eq)]
pub struct LlmRequestContextPart {
    pub type_: LlmRequestContextPartType,
    pub text: String,
}

/// What a [`LlmRequestContextPart`] stands for.
#[verifier::ext_equal]
pub struct LlmRequestContextPartView {
    pub type_: LlmRequestContextPartType,
    pub text: Seq<char>,
}

impl View for LlmRequestContextPart {
    type V = LlmRequestContextPartView;

    open spec fn view(&self) -> LlmRequestContextPartView {
        LlmRequestContextPartView {
            type_: self.type_.deep_view(),
            text: self.text.deep_view(),
        }
    }
}

impl DeepView for LlmRequestContextPart {
    type V = LlmRequestContextPartView;

    open spec fn deep_view(&self) -> LlmRequestContextPartView {
        self@
    }
}

impl Clone for LlmRequestContextPart {
    fn clone(&self) -> (r: Self)
        ensures
            r@ == self@,
            r.deep_view() == self.deep_view(),
    {
        LlmRequestContextPart {
            type_: self.type_,
            text: self.text.clone(),
        }
    }
}

/// A served message.
#[derive(Debug, PartialEq, Eq)]
pub struct LlmRequestContextMessage {
    pub role: LlmRequestContextRole,
    pub content: Vec<LlmRequestContextPart>,
}

/// What a [`LlmRequestContextMessage`] stands for.
#[verifier::ext_equal]
pub struct LlmRequestContextMessageView {
    pub role: LlmRequestContextRole,
    pub content: Seq<LlmRequestContextPartView>,
}

impl View for LlmRequestContextMessage {
    type V = LlmRequestContextMessageView;

    open spec fn view(&self) -> LlmRequestContextMessageView {
        LlmRequestContextMessageView {
            role: self.role.deep_view(),
            content: self.content.deep_view(),
        }
    }
}

impl DeepView for LlmRequestContextMessage {
    type V = LlmRequestContextMessageView;

    open spec fn deep_view(&self) -> LlmRequestContextMessageView {
        self@
    }
}

impl Clone for LlmRequestContextMessage {
    fn clone(&self) -> (r: Self)
        ensures
            r@ == self@,
            r.deep_view() == self.deep_view(),
    {
        LlmRequestContextMessage {
            role: self.role,
            content: self.content.clone(),
        }
    }
}

/// A served view.
#[derive(Debug, PartialEq, Eq)]
pub struct LlmRequestContext {
    pub thread_id: String,
    pub messages: Vec<LlmRequestContextMessage>,
}

/// What a [`LlmRequestContext`] stands for.
#[verifier::ext_equal]
pub struct LlmRequestContextView {
    pub thread_id: Seq<char>,
    pub messages: Seq<LlmRequestContextMessageView>,
}

impl View for LlmRequestContext {
    type V = LlmRequestContextView;

    open spec fn view(&self) -> LlmRequestContextView {
        LlmRequestContextView {
            thread_id: self.thread_id.deep_view(),
            messages: self.messages.deep_view(),
        }
    }
}

impl DeepView for LlmRequestContext {
    type V = LlmRequestContextView;

    open spec fn deep_view(&self) -> LlmRequestContextView {
        self@
    }
}

impl Clone for LlmRequestContext {
    fn clone(&self) -> (r: Self)
        ensures
            r@ == self@,
            r.deep_view() == self.deep_view(),
    {
        LlmRequestContext {
            thread_id: self.thread_id.clone(),
            messages: self.messages.clone(),
        }
    }
}

/// What a compact gives the host. Its marker is not in the store yet.
#[derive(Debug, PartialEq, Eq)]
pub struct LhcCompactResult {
    pub body: Vec<ResponseItem>,
    pub marker: CompactMarker,
    pub receipt: CompactReceipt,
}

/// What a [`LhcCompactResult`] stands for.
#[verifier::ext_equal]
pub struct LhcCompactResultView {
    pub body: Seq<ResponseItemView>,
    pub marker: CompactMarkerView,
    pub receipt: CompactReceiptView,
}

impl View for LhcCompactResult {
    type V = LhcCompactResultView;

    open spec fn view(&self) -> LhcCompactResultView {
        LhcCompactResultView {
            body: self.body.deep_view(),
            marker: self.marker.deep_view(),
            receipt: self.receipt.deep_view(),
        }
    }
}

impl DeepView for LhcCompactResult {
    type V = LhcCompactResultView;

    open spec fn deep_view(&self) -> LhcCompactResultView {
        self@
    }
}

impl Clone for LhcCompactResult {
    fn clone(&self) -> (r: Self)
        ensures
            r@ == self@,
            r.deep_view() == self.deep_view(),
    {
        LhcCompactResult {
            body: self.body.clone(),
            marker: self.marker.clone(),
            receipt: self.receipt.clone(),
        }
    }
}

/// What is to be done next to make a compact.
#[derive(Debug, PartialEq, Eq)]
pub enum CompactPhase {
    /// Open the store.
    Opening,
    /// List the events of the store.
    Listing { imported: bool },
    /// Import what the store does not hold.
    Importing { missing: Vec<ResponseItem> },
    /// Compact.
    Compacting { archive_tip: String },
    /// Read the view that is served now.
    Serving { archive_tip: String, receipt: CompactReceipt },
}

/// What a [`CompactPhase`] stands for.
#[verifier::ext_equal]
pub enum CompactPhaseView {
    Opening,
    Listing { imported: bool },
    Importing { missing: Seq<ResponseItemView> },
    Compacting { archive_tip: Seq<char> },
    Serving { archive_tip: Seq<char>, receipt: CompactReceiptView },
}

impl View for CompactPhase {
    type V = CompactPhaseView;

    open spec fn view(&self) -> CompactPhaseView {
        match self {
            CompactPhase::Opening => CompactPhaseView::Opening,
            CompactPhase::Listing { imported } => CompactPhaseView::Listing {
                imported: imported.deep_view(),
            },
            CompactPhase::Importing { missing } => CompactPhaseView::Importing {
                missing: missing.deep_view(),
            },
            CompactPhase::Compacting { archive_tip } => CompactPhaseView::Compacting {
                archive_tip: archive_tip.deep_view(),
            },
            CompactPhase::Serving { archive_tip, receipt } => CompactPhaseView::Serving {
                archive_tip: archive_tip.deep_view(),
                receipt: receipt.deep_view(),
            },
        }
    }
}

impl DeepView for CompactPhase {
    type V = CompactPhaseView;

    open spec fn deep_view(&self) -> CompactPhaseView {
        self@
    }
}

impl Clone for CompactPhase {
    fn clone(&self) -> (r: Self)
        ensures
            r@ == self@,
            r.deep_view() == self.deep_view(),
    {
        match self {
            CompactPhase::Opening => CompactPhase::Opening,
            CompactPhase::Listing { imported } => CompactPhase::Listing { imported: *imported },
            CompactPhase::Importing { missing } => CompactPhase::Importing {
                missing: missing.clone(),
            },
            CompactPhase::Compacting { archive_tip } => CompactPhase::Compacting {
                archive_tip: archive_tip.clone(),
            },
            CompactPhase::Serving { archive_tip, receipt } => CompactPhase::Serving {
                archive_tip: archive_tip.clone(),
                receipt: receipt.clone(),
            },
        }
    }
}

/// How that went.
#[derive(Debug, PartialEq, Eq)]
pub enum CompactReply {
    Opened,
    NotOpened,
    Listed(Vec<EventRecord>),
    NotListed(String),
    Imported,
    NotImported(String),
    Compacted(CompactReceipt),
    NotCompacted(String),
    Served(LlmRequestContext),
    NotServed(String),
}

/// What a [`CompactReply`] stands for.
#[verifier::ext_equal]
pub enum CompactReplyView {
    Opened,
    NotOpened,
    Listed(Seq<EventRecordView>),
    NotListed(Seq<char>),
    Imported,
    NotImported(Seq<char>),
    Compacted(CompactReceiptView),
    NotCompacted(Seq<char>),
    Served(LlmRequestContextView),
    NotServed(Seq<char>),
}

impl View for CompactReply {
    type V = CompactReplyView;

    open spec fn view(&self) -> CompactReplyView {
        match self {
            CompactReply::Opened => CompactReplyView::Opened,
            CompactReply::NotOpened => CompactReplyView::NotOpened,
            CompactReply::Listed(x) => CompactReplyView::Listed(x.deep_view()),
            CompactReply::NotListed(x) => CompactReplyView::NotListed(x.deep_view()),
            CompactReply::Imported => CompactReplyView::Imported,
            CompactReply::NotImported(x) => CompactReplyView::NotImported(x.deep_view()),
            CompactReply::Compacted(x) => CompactReplyView::Compacted(x.deep_view()),
            CompactReply::NotCompacted(x) => CompactReplyView::NotCompacted(x.deep_view()),
            CompactReply::Served(x) => CompactReplyView::Served(x.deep_view()),
            CompactReply::NotServed(x) => CompactReplyView::NotServed(x.deep_view()),
        }
    }
}

impl DeepView for CompactReply {
    type V = CompactReplyView;

    open spec fn deep_view(&self) -> CompactReplyView {
        self@
    }
}

impl Clone for CompactReply {
    fn clone(&self) -> (r: Self)
        ensures
            r@ == self@,
            r.deep_view() == self.deep_view(),
    {
        match self {
            CompactReply::Opened => CompactReply::Opened,
            CompactReply::NotOpened => CompactReply::NotOpened,
            CompactReply::Listed(x) => CompactReply::Listed(x.clone()),
            CompactReply::NotListed(x) => CompactReply::NotListed(x.clone()),
            CompactReply::Imported => CompactReply::Imported,
            CompactReply::NotImported(x) => CompactReply::NotImported(x.clone()),
            CompactReply::Compacted(x) => CompactReply::Compacted(x.clone()),
            CompactReply::NotCompacted(x) => CompactReply::NotCompacted(x.clone()),
            CompactReply::Served(x) => CompactReply::Served(x.clone()),
            CompactReply::NotServed(x) => CompactReply::NotServed(x.clone()),
        }
    }
}

/// What follows.
#[derive(Debug, PartialEq, Eq)]
pub enum CompactStep {
    Next(CompactPhase),
    Done(LhcCompactResult),
}

/// What a [`CompactStep`] stands for.
#[verifier::ext_equal]
pub enum CompactStepView {
    Next(CompactPhaseView),
    Done(LhcCompactResultView),
}

impl View for CompactStep {
    type V = CompactStepView;

    open spec fn view(&self) -> CompactStepView {
        match self {
            CompactStep::Next(x) => CompactStepView::Next(x.deep_view()),
            CompactStep::Done(x) => CompactStepView::Done(x.deep_view()),
        }
    }
}

impl DeepView for CompactStep {
    type V = CompactStepView;

    open spec fn deep_view(&self) -> CompactStepView {
        self@
    }
}

impl Clone for CompactStep {
    fn clone(&self) -> (r: Self)
        ensures
            r@ == self@,
            r.deep_view() == self.deep_view(),
    {
        match self {
            CompactStep::Next(x) => CompactStep::Next(x.clone()),
            CompactStep::Done(x) => CompactStep::Done(x.clone()),
        }
    }
}

/// What a rollout is rebuilt from.
#[derive(Debug, PartialEq, Eq)]
pub struct MaterializeSurfaces {
    pub entries: Vec<SessionThreadViewEntry>,
    pub messages: Vec<MessageRecord>,
    pub turns: Vec<TurnRecord>,
}

/// What a [`MaterializeSurfaces`] stands for.
#[verifier::ext_equal]
pub struct MaterializeSurfacesView {
    pub entries: Seq<SessionThreadViewEntryView>,
    pub messages: Seq<MessageRecordView>,
    pub turns: Seq<TurnRecordView>,
}

impl View for MaterializeSurfaces {
    type V = MaterializeSurfacesView;

    open spec fn view(&self) -> MaterializeSurfacesView {
        MaterializeSurfacesView {
            entries: self.entries.deep_view(),
            messages: self.messages.deep_view(),
            turns: self.turns.deep_view(),
        }
    }
}

impl DeepView for MaterializeSurfaces {
    type V = MaterializeSurfacesView;

    open spec fn deep_view(&self) -> MaterializeSurfacesView {
        self@
    }
}

impl Clone for MaterializeSurfaces {
    fn clone(&self) -> (r: Self)
        ensures
            r@ == self@,
            r.deep_view() == self.deep_view(),
    {
        MaterializeSurfaces {
            entries: self.entries.clone(),
            messages: self.messages.clone(),
            turns: self.turns.clone(),
        }
    }
}

// ---------------------------------------------------------------------------
// Messages
// ---------------------------------------------------------------------------

/// Why no compact is to be had, in words.
pub open spec fn unavailable_text(u: LhcCompactUnavailableView) -> Seq<char> {
    match u {
        LhcCompactUnavailableView::OpenFailed(s) => "lhc open failed: "@ + s,
        LhcCompactUnavailableView::NoEvents => "lhc thread has no events"@,
        LhcCompactUnavailableView::ArchiveDoesNotCoverHost(s) =>
            "archive does not cover host history: "@ + s,
        LhcCompactUnavailableView::CompactFailed(s) => "lhc.compact failed: "@ + s,
        LhcCompactUnavailableView::EmptyView(s) => "empty served view: "@ + s,
        LhcCompactUnavailableView::ViewFetchFailed(s) => "get_llm_request_context failed: "@ + s,
        LhcCompactUnavailableView::Inference(s) => "inference: "@ + s,
        LhcCompactUnavailableView::DerivationFailed(s) => "lhc derivation failed: "@ + s,
        LhcCompactUnavailableView::Cancelled => "lhc compact cancelled"@,
        LhcCompactUnavailableView::NoReduction(s) => "lhc compact no reduction: "@ + s,
    }
}

fn with_reason(what: &str, reason: &str) -> (r: String)
    ensures
        r@ == what@ + reason@,
{
    let mut s = text(what);
    s.append(reason);
    s
}

impl LhcCompactUnavailable {
    /// Why no compact is to be had, in words.
    pub fn to_text(&self) -> (r: String)
        ensures
            r@ == unavailable_text(self@),
    {
        match self {
            LhcCompactUnavailable::OpenFailed(s) => with_reason("lhc open failed: ", s.as_str()),
            LhcCompactUnavailable::NoEvents => text("lhc thread has no events"),
            LhcCompactUnavailable::ArchiveDoesNotCoverHost(s) => with_reason(
                "archive does not cover host history: ",
                s.as_str(),
            ),
            LhcCompactUnavailable::CompactFailed(s) => with_reason(
                "lhc.compact failed: ",
                s.as_str(),
            ),
            LhcCompactUnavailable::EmptyView(s) => with_reason("empty served view: ", s.as_str()),
            LhcCompactUnavailable::ViewFetchFailed(s) => with_reason(
                "get_llm_request_context failed: ",
                s.as_str(),
            ),
            LhcCompactUnavailable::Inference(s) => with_reason("inference: ", s.as_str()),
            LhcCompactUnavailable::DerivationFailed(s) => with_reason(
                "lhc derivation failed: ",
                s.as_str(),
            ),
            LhcCompactUnavailable::Cancelled => text("lhc compact cancelled"),
            LhcCompactUnavailable::NoReduction(s) => with_reason(
                "lhc compact no reduction: ",
                s.as_str(),
            ),
        }
    }
}

// ---------------------------------------------------------------------------
// Served views
// ---------------------------------------------------------------------------

/// The text of the first `n` parts.
pub open spec fn parts_text(parts: Seq<LlmRequestContextPartView>, n: int) -> Seq<char>
    decreases n,
{
    if n <= 0 {
        Seq::empty()
    } else {
        parts_text(parts, n - 1) + parts[n - 1].text
    }
}

/// What a message says.
pub open spec fn message_text(m: LlmRequestContextMessageView) -> Seq<char> {
    parts_text(m.content, m.content.len() as int)
}

/// A served message as an item of the host. Who speaks is taken from the
/// message, never from what it says.
pub open spec fn served_item(m: LlmRequestContextMessageView) -> ResponseItemView {
    match m.role {
        LlmRequestContextRole::User => user_message(message_text(m)),
        LlmRequestContextRole::Assistant => assistant_message(None, message_text(m)),
    }
}

/// The first `n` served messages as items of the host, but those that say
/// nothing.
pub open spec fn served_items(messages: Seq<LlmRequestContextMessageView>, n: int) -> Seq<
    ResponseItemView,
>
    decreases n,
{
    if n <= 0 {
        Seq::empty()
    } else if message_text(messages[n - 1]).len() == 0 {
        served_items(messages, n - 1)
    } else {
        served_items(messages, n - 1).push(served_item(messages[n - 1]))
    }
}

/// A served view as items of the host.
pub open spec fn body_of(ctx: LlmRequestContextView) -> Seq<ResponseItemView> {
    served_items(ctx.messages, ctx.messages.len() as int)
}

fn text_of_parts(parts: &Vec<LlmRequestContextPart>) -> (r: String)
    ensures
        r@ == parts_text(parts.deep_view(), parts.len() as int),
{
    let ghost view = parts.deep_view();
    let mut s = String::new();
    assert(s@ =~= parts_text(view, 0));
    let mut i: usize = 0;
    while i < parts.len()
        invariant
            i <= parts.len(),
            view == parts.deep_view(),
            s@ == parts_text(view, i as int),
        decreases parts.len() - i,
    {
        assert(view[i as int] == parts@[i as int]@);
        s.append(parts[i].text.as_str());
        i = i + 1;
    }
    s
}

/// A served view as items of the host. Who speaks is taken from the messages;
/// a message that says nothing is left out.
pub fn llm_request_context_to_response_items(ctx: &LlmRequestContext) -> (r: Vec<ResponseItem>)
    ensures
        r.deep_view() == body_of(ctx@),
{
    let ghost view = ctx.messages.deep_view();
    let mut out: Vec<ResponseItem> = Vec::new();
    assert(out.deep_view() =~= served_items(view, 0));
    let mut i: usize = 0;
    while i < ctx.messages.len()
        invariant
            i <= ctx.messages.len(),
            view == ctx.messages.deep_view(),
            out.deep_view() == served_items(view, i as int),
        decreases ctx.messages.len() - i,
    {
        let ghost before = out.deep_view();
        let m = &ctx.messages[i];
        assert(view[i as int] == m@);
        let s = text_of_parts(&m.content);
        if s.as_str().unicode_len() > 0 {
            let item = match m.role {
                LlmRequestContextRole::User => user_text_message(s.as_str()),
                LlmRequestContextRole::Assistant => assistant_text_message(None, s.as_str()),
            };
            out.push(item);
            assert(out.deep_view() =~= before.push(served_item(view[i as int])));
        }
        i = i + 1;
    }
    out
}

/// A part of a message is marked as degraded.
pub open spec fn is_degraded_part(part: ContentItemView) -> bool {
    match part {
        ContentItemView::InputText { text } => occurs_in(text, "[degraded:"@),
        ContentItemView::OutputText { text } => occurs_in(text, "[degraded:"@),
        _ => false,
    }
}

/// An item holds a part that is marked as degraded.
pub open spec fn is_degraded(item: ResponseItemView) -> bool {
    match item {
        ResponseItemView::Message { content, .. } => exists|k: int|
            0 <= k < content.len() && is_degraded_part(#[trigger] content[k]),
        _ => false,
    }
}

fn has_degraded_part(content: &Vec<ContentItem>) -> (r: bool)
    ensures
        r == exists|k: int|
            0 <= k < content.len() && is_degraded_part(#[trigger] content.deep_view()[k]),
{
    let ghost view = content.deep_view();
    let mut k: usize = 0;
    while k < content.len()
        invariant
            k <= content.len(),
            view == content.deep_view(),
            forall|j: int| 0 <= j < k ==> !is_degraded_part(#[trigger] view[j]),
        decreases content.len() - k,
    {
        assert(view[k as int] == content@[k as int]@);
        let degraded = match &content[k] {
            ContentItem::InputText { text } => has_occurrence(text.as_str(), "[degraded:"),
            ContentItem::OutputText { text } => has_occurrence(text.as_str(), "[degraded:"),
            _ => false,
        };
        if degraded {
            assert(is_degraded_part(view[k as int]));
            return true;
        }
        k = k + 1;
    }
    false
}

/// Whether a served body shows that something could not be derived.
pub fn body_contains_degraded_marker(body: &Vec<ResponseItem>) -> (r: bool)
    ensures
        r == exists|k: int| 0 <= k < body.len() && is_degraded(#[trigger] body.deep_view()[k]),
{
    let ghost view = body.deep_view();
    let mut k: usize = 0;
    while k < body.len()
        invariant
            k <= body.len(),
            view == body.deep_view(),
            forall|j: int| 0 <= j < k ==> !is_degraded(#[trigger] view[j]),
        decreases body.len() - k,
    {
        assert(view[k as int] == body@[k as int]@);
        let degraded = match &body[k] {
            ResponseItem::Message { content, .. } => {
                let found = has_degraded_part(content);
                assert(found == is_degraded(view[k as int]));
                found
            },
            _ => false,
        };
        if degraded {
            assert(is_degraded(view[k as int]));
            return true;
        }
        k = k + 1;
    }
    false
}

// ---------------------------------------------------------------------------
// The store
// ---------------------------------------------------------------------------

/// The position of the newest of the first `n` events; of equals, of the last.
pub open spec fn newest_of(events: Seq<EventRecordView>, n: int) -> Option<int>
    decreases n,
{
    if n <= 0 {
        None
    } else {
        match newest_of(events, n - 1) {
            Some(k) => if events[n - 1].event_order >= events[k].event_order {
                Some(n - 1)
            } else {
                Some(k)
            },
            None => Some(n - 1),
        }
    }
}

/// What stands last in a store.
pub open spec fn tip_of(events: Seq<EventRecordView>) -> Seq<char> {
    match newest_of(events, events.len() as int) {
        Some(k) => events[k].idempotency_key,
        None => "empty"@,
    }
}

/// What stands last in a store: the key of its newest event.
pub fn archive_tip_identity(events: &Vec<EventRecord>) -> (r: String)
    ensures
        r@ == tip_of(events.deep_view()),
{
    if events.len() == 0 {
        return text("empty");
    }
    let ghost view = events.deep_view();
    let mut newest: usize = 0;
    let mut i: usize = 1;
    assert(newest_of(view, 0) is None);
    while i < events.len()
        invariant
            1 <= i <= events.len(),
            newest < i,
            view == events.deep_view(),
            newest_of(view, i as int) == Some(newest as int),
        decreases events.len() - i,
    {
        assert(view[i as int] == events@[i as int]@);
        assert(view[newest as int] == events@[newest as int]@);
        if events[i].event_order >= events[newest].event_order {
            newest = i;
        }
        i = i + 1;
    }
    assert(view[newest as int] == events@[newest as int]@);
    events[newest].idempotency_key.clone()
}

/// The event that puts a marker into the store.
pub open spec fn marker_event(marker: CompactMarkerView) -> EventView {
    host_event("runtime_note"@, marker.marker_key, ACTOR_SYSTEM@, text_payload(note_text(marker)))
}

/// The event that puts a marker into the store, to be submitted once the host
/// holds the compacted history for good.
pub fn compact_marker_event(marker: &CompactMarker) -> (r: MessageEventInput)
    ensures
        r@ == marker_event(marker@),
{
    let note = marker.to_runtime_note_text();
    make_event(
        "runtime_note",
        marker.marker_key.clone(),
        ACTOR_SYSTEM,
        text_entries(note.as_str()),
    ).input
}

// ---------------------------------------------------------------------------
// The order of things
// ---------------------------------------------------------------------------

/// Whether the caller still wants the compact: `cancel` is what the caller's
/// flag says, when there is one.
pub fn check_cancel(cancel: Option<bool>) -> (r: Result<(), LhcCompactUnavailable>)
    ensures
        match r {
            Ok(_) => cancel != Some(true),
            Err(e) => cancel == Some(true) && e@ == LhcCompactUnavailableView::Cancelled,
        },
{
    match cancel {
        Some(true) => Err(LhcCompactUnavailable::Cancelled),
        _ => Ok(()),
    }
}

/// What a compact is asked for.
pub struct CompactRequest<'a> {
    pub thread_id: &'a str,
    pub host_items: &'a Vec<ResponseItem>,
    /// Whether what the store does not hold may be imported.
    pub import_missing: bool,
    pub session_derived: &'a DerivedProvenance,
}

/// What a [`CompactRequest`] stands for.
pub struct CompactRequestView {
    pub thread_id: Seq<char>,
    pub host_items: Seq<ResponseItemView>,
    pub import_missing: bool,
    pub session_derived: DerivedProvenanceView,
}

impl<'a> View for CompactRequest<'a> {
    type V = CompactRequestView;

    open spec fn view(&self) -> CompactRequestView {
        CompactRequestView {
            thread_id: self.thread_id@,
            host_items: self.host_items.deep_view(),
            import_missing: self.import_missing,
            session_derived: self.session_derived@,
        }
    }
}

/// The reply is one to what was done.
pub open spec fn answers(reply: CompactReplyView, phase: CompactPhaseView) -> bool {
    match phase {
        CompactPhaseView::Opening => reply is Opened || reply is NotOpened,
        CompactPhaseView::Listing { .. } => reply is Listed || reply is NotListed,
        CompactPhaseView::Importing { .. } => reply is Imported || reply is NotImported,
        CompactPhaseView::Compacting { .. } => reply is Compacted || reply is NotCompacted,
        CompactPhaseView::Serving { .. } => reply is Served || reply is NotServed,
    }
}

/// What follows once the events of the store are known. Something that the store
/// does not hold is imported once or refuses the compact.
pub open spec fn after_listing(
    request: CompactRequestView,
    imported: bool,
    events: Seq<EventRecordView>,
    cancelled: bool,
) -> Result<CompactStepView, LhcCompactUnavailableView> {
    let gap = unrepresentable_gap(request.host_items);
    let missing = missing_items(
        request.host_items,
        events,
        served(request.session_derived, events),
    );
    if !imported && gap is Some {
        Err(LhcCompactUnavailableView::ArchiveDoesNotCoverHost(gap->0))
    } else if missing.len() > 0 {
        if imported {
            Err(
                LhcCompactUnavailableView::ArchiveDoesNotCoverHost(
                    decimal(missing.len())
                        + " host provider-bearing item(s) still missing after import"@,
                ),
            )
        } else if request.import_missing {
            Ok(CompactStepView::Next(CompactPhaseView::Importing { missing }))
        } else {
            Err(
                LhcCompactUnavailableView::ArchiveDoesNotCoverHost(
                    decimal(missing.len())
                        + " host provider-bearing item(s) missing from archive by identity"@,
                ),
            )
        }
    } else if events.len() == 0 {
        Err(LhcCompactUnavailableView::NoEvents)
    } else if cancelled {
        Err(LhcCompactUnavailableView::Cancelled)
    } else {
        Ok(
            CompactStepView::Next(
                CompactPhaseView::Compacting { archive_tip: tip_of(events) },
            ),
        )
    }
}

/// What a compact gives the host.
pub open spec fn compact_result(
    thread_id: Seq<char>,
    archive_tip: Seq<char>,
    receipt: CompactReceiptView,
    ctx: LlmRequestContextView,
) -> LhcCompactResultView {
    LhcCompactResultView {
        body: body_of(ctx),
        marker: marker_of(receipt, thread_id, body_of(ctx), archive_tip),
        receipt,
    }
}

/// What follows a reply.
pub open spec fn step_of(
    request: CompactRequestView,
    phase: CompactPhaseView,
    reply: CompactReplyView,
    cancelled: bool,
) -> Result<CompactStepView, LhcCompactUnavailableView> {
    match reply {
        CompactReplyView::NotOpened => Err(
            LhcCompactUnavailableView::OpenFailed("LhcSession::open returned None"@),
        ),
        CompactReplyView::NotListed(e) => Err(LhcCompactUnavailableView::OpenFailed(e)),
        CompactReplyView::NotImported(e) => Err(LhcCompactUnavailableView::OpenFailed(e)),
        CompactReplyView::NotCompacted(e) => Err(LhcCompactUnavailableView::CompactFailed(e)),
        CompactReplyView::NotServed(e) => Err(LhcCompactUnavailableView::ViewFetchFailed(e)),
        CompactReplyView::Opened => if cancelled {
            Err(LhcCompactUnavailableView::Cancelled)
        } else {
            Ok(CompactStepView::Next(CompactPhaseView::Listing { imported: false }))
        },
        CompactReplyView::Listed(events) => after_listing(
            request,
            phase->Listing_imported,
            events,
            cancelled,
        ),
        CompactReplyView::Imported => Ok(
            CompactStepView::Next(CompactPhaseView::Listing { imported: true }),
        ),
        CompactReplyView::Compacted(receipt) => if cancelled {
            Err(LhcCompactUnavailableView::Cancelled)
        } else {
            Ok(
                CompactStepView::Next(
                    CompactPhaseView::Serving {
                        archive_tip: phase->Compacting_archive_tip,
                        receipt,
                    },
                ),
            )
        },
        CompactReplyView::Served(ctx) => if body_of(ctx).len() == 0 {
            Err(
                LhcCompactUnavailableView::EmptyView(
                    "LlmRequestContext mapped to zero ResponseItems"@,
                ),
            )
        } else {
            Ok(
                CompactStepView::Done(
                    compact_result(
                        request.thread_id,
                        phase->Serving_archive_tip,
                        phase->receipt,
                        ctx,
                    ),
                ),
            )
        },
    }
}

fn with_count(n: usize, what: &str) -> (r: String)
    ensures
        r@ == decimal(n as nat) + what@,
{
    let mut s = decimal_text(n as u128);
    s.append(what);
    s
}

fn step_after_listing(
    request: &CompactRequest,
    imported: bool,
    events: &Vec<EventRecord>,
    cancelled: bool,
) -> (r: Result<CompactStep, LhcCompactUnavailable>)
    ensures
        match r {
            Ok(step) => after_listing(request@, imported, events.deep_view(), cancelled) == Ok::<
                CompactStepView,
                LhcCompactUnavailableView,
            >(step@),
            Err(e) => after_listing(request@, imported, events.deep_view(), cancelled) == Err::<
                CompactStepView,
                LhcCompactUnavailableView,
            >(e@),
        },
{
    let derived = DerivedProvenance::from_session_and_archive(
        &request.session_derived.ids,
        &request.session_derived.digests,
        events,
    );
    if !imported {
        if let Some(reason) = unrepresentable_host_items_gap(request.host_items) {
            return Err(LhcCompactUnavailable::ArchiveDoesNotCoverHost(reason));
        }
    }
    let missing = host_items_missing_from_archive_with_provenance(
        request.host_items,
        events,
        &derived,
    );
    assert(missing.len() == missing.deep_view().len());
    if missing.len() > 0 {
        if imported {
            Err(
                LhcCompactUnavailable::ArchiveDoesNotCoverHost(
                    with_count(
                        missing.len(),
                        " host provider-bearing item(s) still missing after import",
                    ),
                ),
            )
        } else if request.import_missing {
            Ok(CompactStep::Next(CompactPhase::Importing { missing }))
        } else {
            Err(
                LhcCompactUnavailable::ArchiveDoesNotCoverHost(
                    with_count(
                        missing.len(),
                        " host provider-bearing item(s) missing from archive by identity",
                    ),
                ),
            )
        }
    } else if events.len() == 0 {
        Err(LhcCompactUnavailable::NoEvents)
    } else if cancelled {
        Err(LhcCompactUnavailable::Cancelled)
    } else {
        Ok(
            CompactStep::Next(
                CompactPhase::Compacting { archive_tip: archive_tip_identity(events) },
            ),
        )
    }
}

/// The result of a step, as values.
pub open spec fn step_view(r: Result<CompactStep, LhcCompactUnavailable>) -> Result<
    CompactStepView,
    LhcCompactUnavailableView,
> {
    match r {
        Ok(step) => Ok(step@),
        Err(e) => Err(e@),
    }
}

/// Where a compact begins, unless the caller wants it no longer.
pub fn produce_start(cancelled: bool) -> (r: Result<CompactPhase, LhcCompactUnavailable>)
    ensures
        match r {
            Ok(phase) => !cancelled && phase@ == CompactPhaseView::Opening,
            Err(e) => cancelled && e@ == LhcCompactUnavailableView::Cancelled,
        },
{
    match check_cancel(Some(cancelled)) {
        Ok(_) => Ok(CompactPhase::Opening),
        Err(e) => Err(e),
    }
}

/// What follows once a phase was done with a reply, `cancelled` saying whether
/// the caller wants the compact no longer. The state of derivations is never
/// asked for: a compact does not wait for them.
pub fn produce_step(
    request: &CompactRequest,
    phase: &CompactPhase,
    reply: CompactReply,
    cancelled: bool,
) -> (r: Result<CompactStep, LhcCompactUnavailable>)
    requires
        answers(reply@, phase@),
    ensures
        step_view(r) == step_of(request@, phase@, reply@, cancelled),
{
    match reply {
        CompactReply::NotOpened => Err(
            LhcCompactUnavailable::OpenFailed(text("LhcSession::open returned None")),
        ),
        CompactReply::NotListed(e) => Err(LhcCompactUnavailable::OpenFailed(e)),
        CompactReply::NotImported(e) => Err(LhcCompactUnavailable::OpenFailed(e)),
        CompactReply::NotCompacted(e) => Err(LhcCompactUnavailable::CompactFailed(e)),
        CompactReply::NotServed(e) => Err(LhcCompactUnavailable::ViewFetchFailed(e)),
        CompactReply::Opened => if cancelled {
            Err(LhcCompactUnavailable::Cancelled)
        } else {
            Ok(CompactStep::Next(CompactPhase::Listing { imported: false }))
        },
        CompactReply::Listed(events) => {
            let imported = match phase {
                CompactPhase::Listing { imported } => *imported,
                _ => false,
            };
            step_after_listing(request, imported, &events, cancelled)
        },
        CompactReply::Imported => Ok(CompactStep::Next(CompactPhase::Listing { imported: true })),
        CompactReply::Compacted(receipt) => if cancelled {
            Err(LhcCompactUnavailable::Cancelled)
        } else {
            let archive_tip = match phase {
                CompactPhase::Compacting { archive_tip } => archive_tip.clone(),
                _ => String::new(),
            };
            Ok(CompactStep::Next(CompactPhase::Serving { archive_tip, receipt }))
        },
        CompactReply::Served(ctx) => {
            let body = llm_request_context_to_response_items(&ctx);
            assert(body.len() == body.deep_view().len());
            if body.len() == 0 {
                Err(
                    LhcCompactUnavailable::EmptyView(
                        text("LlmRequestContext mapped to zero ResponseItems"),
                    ),
                )
            } else {
                match phase {
                    CompactPhase::Serving { archive_tip, receipt } => {
                        let marker = CompactMarker::from_receipt(
                            receipt,
                            request.thread_id,
                            &body,
                            archive_tip.as_str(),
                        );
                        Ok(
                            CompactStep::Done(
                                LhcCompactResult { body, marker, receipt: receipt.clone() },
                            ),
                        )
                    },
                    _ => Err(LhcCompactUnavailable::NoEvents),
                }
            }
        },
    }
}

// ---------------------------------------------------------------------------
// Laws
// ---------------------------------------------------------------------------

/// A compact is begun only of a store that holds every item of the host that it
/// must hold, and that is not empty, while the caller wants it.
pub proof fn compact_waits_for_coverage(
    request: CompactRequestView,
    imported: bool,
    events: Seq<EventRecordView>,
    cancelled: bool,
)
    requires
        after_listing(request, imported, events, cancelled) is Ok,
        after_listing(request, imported, events, cancelled)->Ok_0 matches CompactStepView::Next(
            p,
        ) && p is Compacting,
    ensures
        missing_items(request.host_items, events, served(request.session_derived, events)).len()
            == 0,
        events.len() > 0,
        !cancelled,
{
}

/// A host that the store does not cover is refused, unless the gap may be
/// imported and was not imported yet.
pub proof fn uncovered_host_is_refused(
    request: CompactRequestView,
    imported: bool,
    events: Seq<EventRecordView>,
    cancelled: bool,
)
    requires
        missing_items(request.host_items, events, served(request.session_derived, events)).len()
            > 0,
        imported || !request.import_missing,
    ensures
        after_listing(request, imported, events, cancelled) matches Err(e)
            && e is ArchiveDoesNotCoverHost,
{
}

/// What is imported is what is missing, and never something that was served.
pub proof fn only_missing_items_are_imported(
    request: CompactRequestView,
    imported: bool,
    events: Seq<EventRecordView>,
    cancelled: bool,
    missing: Seq<ResponseItemView>,
)
    requires
        after_listing(request, imported, events, cancelled) == Ok::<
            CompactStepView,
            LhcCompactUnavailableView,
        >(CompactStepView::Next(CompactPhaseView::Importing { missing })),
    ensures
        !imported,
        request.import_missing,
        missing == missing_items(
            request.host_items,
            events,
            served(request.session_derived, events),
        ),
{
}

/// A caller that wants the compact no longer gets none: nothing is begun, and
/// once a compact was made its view is not read.
pub proof fn cancelled_compact_gives_nothing(
    request: CompactRequestView,
    phase: CompactPhaseView,
    reply: CompactReplyView,
)
    requires
        answers(reply, phase),
        reply is Opened || reply is Compacted,
    ensures
        step_of(request, phase, reply, true) == Err::<CompactStepView, LhcCompactUnavailableView>(
            LhcCompactUnavailableView::Cancelled,
        ),
{
}

/// How far a phase is from the end.
pub open spec fn phases_left(phase: CompactPhaseView) -> nat {
    match phase {
        CompactPhaseView::Opening => 5,
        CompactPhaseView::Listing { imported } => if imported {
            2
        } else {
            4
        },
        CompactPhaseView::Importing { .. } => 3,
        CompactPhaseView::Compacting { .. } => 1,
        CompactPhaseView::Serving { .. } => 0,
    }
}

/// Every step comes nearer to the end: a compact ends, whatever the replies.
pub proof fn every_step_comes_nearer_to_the_end(
    request: CompactRequestView,
    phase: CompactPhaseView,
    reply: CompactReplyView,
    cancelled: bool,
)
    requires
        answers(reply, phase),
    ensures
        step_of(request, phase, reply, cancelled) matches Ok(step) ==> (step matches
            CompactStepView::Next(p) ==> phases_left(p) < phases_left(phase)),
{
}

/// No event is newer than the one at `k`, and none behind it is as new.
pub open spec fn is_newest(events: Seq<EventRecordView>, k: int, n: int) -> bool {
    &&& 0 <= k < n
    &&& forall|i: int| 0 <= i < n ==> #[trigger] order_at(events, i) <= order_at(events, k)
    &&& forall|i: int| k < i < n ==> #[trigger] order_at(events, i) < order_at(events, k)
}

/// Where the event at `i` stands in the store.
pub open spec fn order_at(events: Seq<EventRecordView>, i: int) -> i64 {
    events[i].event_order
}

proof fn lemma_newest(events: Seq<EventRecordView>, n: int)
    requires
        0 < n <= events.len(),
    ensures
        newest_of(events, n) is Some,
        is_newest(events, newest_of(events, n)->0, n),
    decreases n,
{
    if n > 1 {
        lemma_newest(events, n - 1);
        let before = newest_of(events, n - 1)->0;
        let k = newest_of(events, n)->0;
        assert(order_at(events, n - 1) == events[n - 1].event_order);
        assert(order_at(events, before) == events[before].event_order);
        assert forall|i: int| 0 <= i < n implies #[trigger] order_at(events, i) <= order_at(
            events,
            k,
        ) by {}
    } else {
        assert(newest_of(events, 0) is None);
    }
}

/// What stands last in a store is the key of an event that none is newer than,
/// and of several such the last.
pub proof fn tip_is_the_newest_event(events: Seq<EventRecordView>)
    requires
        events.len() > 0,
    ensures
        exists|k: int| #[trigger]
            is_newest(events, k, events.len() as int) && tip_of(events)
                == events[k].idempotency_key,
{
    lemma_newest(events, events.len() as int);
    let k = newest_of(events, events.len() as int)->0;
    assert(is_newest(events, k, events.len() as int));
}

} // verus!
