//! From conversation items to the events that are stored for them.
//!
//! | Item | Event | Notes |
//! |---|---|---|
//! | message of a user, human | `user_prompt` | |
//! | message of a user, other origin | `runtime_note` | |
//! | message of the assistant | `assistant_text` | |
//! | message of the developer or system | none | host scaffolding |
//! | message of another role | `runtime_note` | the role stands in the text |
//! | message between agents | `runtime_note` | folded into the text |
//! | reasoning | `assistant_thinking` | with its signature and model |
//! | shell, function, custom, search calls | `tool_call` | |
//! | their outputs | `tool_result` | |
//! | image generation | `tool_call` and `tool_result` | |
//! | additional tools | `runtime_note` | |
//! | compaction | `runtime_note` | when it holds something |
//! | compaction trigger, other | none | |
//!
//! Where a message of a user came from decides its kind, never its text.

use vstd::prelude::*;
use vstd::string::*;

use crate::idempotency::{
    digest_of, encode_thread_id, event_key, item_digest, item_event_key, item_stable_id,
    key_escaped, model_change_key, stable_id, thinking_level_change_key, transition_key,
    turn_end_key, turn_key, OccurrenceTracker,
};
use crate::json::{
    entry, entry_after_write, json_read, json_text, lemma_object_view, put_entry, read_json,
    with_entry, Entries, Json, JsonView,
};
use crate::protocol::{
    AgentMessageInputContent, AgentMessageInputContentView, ContentItem, ContentItemView,
    FunctionCallOutputBody, FunctionCallOutputBodyView, FunctionCallOutputContentItem,
    FunctionCallOutputContentItemView, FunctionCallOutputPayload, LocalShellAction,
    LocalShellActionView, ReasoningItemContent, ReasoningItemContentView,
    ReasoningItemReasoningSummary, ReasoningItemReasoningSummaryView, ResponseItem,
    ResponseItemView, WebSearchAction, WebSearchActionView,
};
use crate::records::{RawItemProvenance, TokenUsage, TokenUsageView};
use crate::text::{join, joined, opt_text_eq, text, text_eq};
use crate::wire::{
    and_opt_json, and_opt_text, list_to_wire, list_wire, opt_text_json, push_entry,
    push_exec_fields, push_opt_text, text_or_null, web_search_action_entries, with_exec_fields,
    Wire,
};

verus! {

pub const ACTOR_USER: &'static str = "user";

pub const ACTOR_ASSISTANT: &'static str = "assistant";

pub const ACTOR_TOOL: &'static str = "tool";

pub const ACTOR_SYSTEM: &'static str = "system";

pub const HARNESS: &'static str = "codex";

// ---------------------------------------------------------------------------
// Model identity
// ---------------------------------------------------------------------------

/// Which model produced something: the provider, the model and the interface.
#[derive(Debug, PartialEq, Eq)]
pub struct ModelIdentity {
    pub provider: Option<String>,
    pub model: Option<String>,
    pub api: Option<String>,
}

/// What a [`ModelIdentity`] stands for.
#[verifier::ext_equal]
pub struct ModelIdentityView {
    pub provider: Option<Seq<char>>,
    pub model: Option<Seq<char>>,
    pub api: Option<Seq<char>>,
}

impl View for ModelIdentity {
    type V = ModelIdentityView;

    open spec fn view(&self) -> ModelIdentityView {
        ModelIdentityView {
            provider: self.provider.deep_view(),
            model: self.model.deep_view(),
            api: self.api.deep_view(),
        }
    }
}

impl DeepView for ModelIdentity {
    type V = ModelIdentityView;

    open spec fn deep_view(&self) -> ModelIdentityView {
        self@
    }
}

impl Clone for ModelIdentity {
    fn clone(&self) -> (r: Self)
        ensures
            r@ == self@,
            r.deep_view() == self.deep_view(),
    {
        ModelIdentity {
            provider: self.provider.clone(),
            model: self.model.clone(),
            api: self.api.clone(),
        }
    }
}

/// The text is there and not empty.
pub open spec fn is_filled(s: Option<Seq<char>>) -> bool {
    match s {
        Some(t) => t.len() > 0,
        None => false,
    }
}

/// All three parts of an identity are there and not empty.
pub open spec fn identity_complete(identity: ModelIdentityView) -> bool {
    is_filled(identity.provider) && is_filled(identity.model) && is_filled(identity.api)
}

fn filled(s: &Option<String>) -> (r: bool)
    ensures
        r == is_filled(s.deep_view()),
{
    match s {
        Some(t) => !t.as_str().is_empty(),
        None => false,
    }
}

impl ModelIdentity {
    /// The interface that returns encrypted reasoning.
    pub const RESPONSES_API: &'static str = "responses";

    /// An identity with all three parts.
    pub fn new(provider: &str, model: &str, api: &str) -> (r: Self)
        ensures
            r@ == (ModelIdentityView {
                provider: Some(provider@),
                model: Some(model@),
                api: Some(api@),
            }),
    {
        ModelIdentity {
            provider: Some(text(provider)),
            model: Some(text(model)),
            api: Some(text(api)),
        }
    }

    /// Whether all three parts agree.
    pub fn matches(&self, other: &ModelIdentity) -> (r: bool)
        ensures
            r == (self@ == other@),
    {
        opt_text_eq(&self.provider, &other.provider) && opt_text_eq(&self.model, &other.model)
            && opt_text_eq(&self.api, &other.api)
    }

    /// Whether all three parts are there, so that the identity can be compared.
    pub fn is_complete(&self) -> (r: bool)
        ensures
            r == identity_complete(self@),
    {
        filled(&self.provider) && filled(&self.model) && filled(&self.api)
    }
}

impl Default for ModelIdentity {
    fn default() -> (r: Self)
        ensures
            r@ == (ModelIdentityView { provider: None, model: None, api: None }),
    {
        ModelIdentity { provider: None, model: None, api: None }
    }
}

// ---------------------------------------------------------------------------
// Events
// ---------------------------------------------------------------------------

/// An event as it is submitted to the store.
#[derive(Debug, PartialEq, Eq)]
pub struct MessageEventInput {
    pub event_kind: String,
    pub idempotency_key: Option<String>,
    pub actor: String,
    pub harness: String,
    pub payload: Vec<(String, Json)>,
    pub extra: Vec<(String, Json)>,
}

/// What a [`MessageEventInput`] stands for.
#[verifier::ext_equal]
pub struct EventView {
    pub event_kind: Seq<char>,
    pub idempotency_key: Option<Seq<char>>,
    pub actor: Seq<char>,
    pub harness: Seq<char>,
    pub payload: Entries,
    pub extra: Entries,
}

impl View for MessageEventInput {
    type V = EventView;

    open spec fn view(&self) -> EventView {
        EventView {
            event_kind: self.event_kind@,
            idempotency_key: self.idempotency_key.deep_view(),
            actor: self.actor@,
            harness: self.harness@,
            payload: self.payload.deep_view(),
            extra: self.extra.deep_view(),
        }
    }
}

impl DeepView for MessageEventInput {
    type V = EventView;

    open spec fn deep_view(&self) -> EventView {
        self@
    }
}

impl Clone for MessageEventInput {
    fn clone(&self) -> (r: Self)
        ensures
            r@ == self@,
    {
        MessageEventInput {
            event_kind: self.event_kind.clone(),
            idempotency_key: self.idempotency_key.clone(),
            actor: self.actor.clone(),
            harness: self.harness.clone(),
            payload: clone_entries(&self.payload),
            extra: clone_entries(&self.extra),
        }
    }
}

/// One event that an item, a boundary or a change gives rise to.
#[derive(Debug, PartialEq, Eq)]
pub struct MappedEvent {
    pub input: MessageEventInput,
}

impl View for MappedEvent {
    type V = EventView;

    open spec fn view(&self) -> EventView {
        self.input@
    }
}

impl DeepView for MappedEvent {
    type V = EventView;

    open spec fn deep_view(&self) -> EventView {
        self@
    }
}

impl Clone for MappedEvent {
    fn clone(&self) -> (r: Self)
        ensures
            r@ == self@,
    {
        MappedEvent { input: self.input.clone() }
    }
}

/// An event of the host, with nothing outside its payload.
pub open spec fn host_event(
    kind: Seq<char>,
    key: Seq<char>,
    actor: Seq<char>,
    payload: Entries,
) -> EventView {
    EventView {
        event_kind: kind,
        idempotency_key: Some(key),
        actor,
        harness: HARNESS@,
        payload,
        extra: Seq::empty(),
    }
}

pub(crate) fn make_event(
    kind: &str,
    key: String,
    actor: &str,
    payload: Vec<(String, Json)>,
) -> (r: MappedEvent)
    ensures
        r@ == host_event(kind@, key@, actor@, payload.deep_view()),
{
    let extra: Vec<(String, Json)> = Vec::new();
    assert(extra.deep_view() =~= Seq::empty());
    MappedEvent {
        input: MessageEventInput {
            event_kind: text(kind),
            idempotency_key: Some(key),
            actor: text(actor),
            harness: text(HARNESS),
            payload,
            extra,
        },
    }
}

/// A payload that holds one text.
pub open spec fn text_payload(s: Seq<char>) -> Entries {
    seq![("text"@, JsonView::Text(s))]
}

pub(crate) fn text_entries(s: &str) -> (r: Vec<(String, Json)>)
    ensures
        r.deep_view() == text_payload(s@),
{
    let mut payload: Vec<(String, Json)> = Vec::new();
    push_entry(&mut payload, "text", Json::Text(text(s)));
    assert(payload.deep_view() =~= text_payload(s@));
    payload
}

/// What the events of one item have in common.
pub struct ItemKey {
    pub thread_id: Seq<char>,
    pub stable_id: Option<Seq<char>>,
    pub digest: Seq<char>,
    pub occurrence: nat,
}

impl ItemKey {
    /// The key of one event of the item.
    pub open spec fn key(self, kind: Seq<char>, part: Option<Seq<char>>) -> Seq<char> {
        event_key(self.thread_id, self.stable_id, self.digest, self.occurrence, kind, part)
    }
}

/// The keys of one item, as they are minted.
struct KeyMint<'a> {
    thread_id: &'a str,
    stable_id: Option<&'a str>,
    digest: &'a str,
    occurrence: u64,
}

impl<'a> KeyMint<'a> {
    spec fn item(self) -> ItemKey {
        ItemKey {
            thread_id: self.thread_id@,
            stable_id: self.stable_id.deep_view(),
            digest: self.digest@,
            occurrence: self.occurrence as nat,
        }
    }

    fn key(&self, kind: &str, part: Option<&str>) -> (r: String)
        ensures
            r@ == self.item().key(kind@, part.deep_view()),
    {
        item_event_key(
            self.thread_id,
            self.stable_id,
            self.digest,
            self.occurrence,
            kind,
            part,
        )
    }
}

/// An event that holds one text.
pub open spec fn text_event_of(
    item: ItemKey,
    kind: Seq<char>,
    actor: Seq<char>,
    s: Seq<char>,
    part: Option<Seq<char>>,
) -> EventView {
    host_event(kind, item.key(kind, part), actor, text_payload(s))
}

fn text_event(mint: &KeyMint, kind: &str, actor: &str, s: &str, part: Option<&str>) -> (r:
    MappedEvent)
    ensures
        r@ == text_event_of(mint.item(), kind@, actor@, s@, part.deep_view()),
{
    make_event(kind, mint.key(kind, part), actor, text_entries(s))
}

/// A call of a tool.
pub open spec fn tool_call_of(
    item: ItemKey,
    call_id: Seq<char>,
    name: Seq<char>,
    arguments: Entries,
) -> EventView {
    host_event(
        "tool_call"@,
        item.key("tool_call"@, Some(call_id)),
        ACTOR_ASSISTANT@,
        seq![
            ("toolCallId"@, JsonView::Text(call_id)),
            ("toolName"@, JsonView::Text(name)),
            ("arguments"@, JsonView::Object(arguments)),
        ],
    )
}

fn tool_call_event(
    mint: &KeyMint,
    call_id: &str,
    name: &str,
    arguments: Vec<(String, Json)>,
) -> (r: MappedEvent)
    ensures
        r@ == tool_call_of(mint.item(), call_id@, name@, arguments.deep_view()),
{
    broadcast use lemma_object_view;

    let ghost args = arguments.deep_view();
    let mut payload: Vec<(String, Json)> = Vec::new();
    push_entry(&mut payload, "toolCallId", Json::Text(text(call_id)));
    push_entry(&mut payload, "toolName", Json::Text(text(name)));
    push_entry(&mut payload, "arguments", Json::Object(arguments));
    assert(payload.deep_view() =~= seq![
        ("toolCallId"@, JsonView::Text(call_id@)),
        ("toolName"@, JsonView::Text(name@)),
        ("arguments"@, JsonView::Object(args)),
    ]);
    make_event("tool_call", mint.key("tool_call", Some(call_id)), ACTOR_ASSISTANT, payload)
}

/// What a tool returned, and whether that is an error when it is known.
pub open spec fn tool_result_of(
    item: ItemKey,
    call_id: Seq<char>,
    content: Seq<char>,
    is_error: Option<bool>,
) -> EventView {
    let payload = seq![
        ("toolCallId"@, JsonView::Text(call_id)),
        ("content"@, JsonView::Text(content)),
    ];
    host_event(
        "tool_result"@,
        item.key("tool_result"@, Some(call_id)),
        ACTOR_TOOL@,
        match is_error {
            Some(e) => payload.push(("isError"@, JsonView::Bool(e))),
            None => payload,
        },
    )
}

fn tool_result_event(mint: &KeyMint, call_id: &str, content: &str, is_error: Option<bool>) -> (r:
    MappedEvent)
    ensures
        r@ == tool_result_of(mint.item(), call_id@, content@, is_error),
{
    let mut payload: Vec<(String, Json)> = Vec::new();
    push_entry(&mut payload, "toolCallId", Json::Text(text(call_id)));
    push_entry(&mut payload, "content", Json::Text(text(content)));
    assert(payload.deep_view() =~= seq![
        ("toolCallId"@, JsonView::Text(call_id@)),
        ("content"@, JsonView::Text(content@)),
    ]);
    if let Some(e) = is_error {
        push_entry(&mut payload, "isError", Json::Bool(e));
    }
    make_event("tool_result", mint.key("tool_result", Some(call_id)), ACTOR_TOOL, payload)
}

// ---------------------------------------------------------------------------
// Text of contents
// ---------------------------------------------------------------------------

/// One part of a message as text; media stand by their addresses.
pub open spec fn content_chunk(part: ContentItemView) -> Seq<char> {
    match part {
        ContentItemView::InputText { text } => text,
        ContentItemView::OutputText { text } => text,
        ContentItemView::InputImage { image_url, detail } => "[image:"@ + image_url + "]"@,
        ContentItemView::InputAudio { audio_url } => "[audio:"@ + audio_url + "]"@,
    }
}

/// A message as text, part by part on lines of their own.
pub open spec fn content_text_of(content: Seq<ContentItemView>) -> Seq<char> {
    joined(content.map_values(|p: ContentItemView| content_chunk(p)), "\n"@)
}

fn bracketed(open: &str, inner: &str) -> (r: String)
    ensures
        r@ == open@ + inner@ + "]"@,
{
    let mut s = text(open);
    s.append(inner);
    s.append("]");
    s
}

/// A message as text, part by part on lines of their own.
pub(crate) fn content_items_text(content: &Vec<ContentItem>) -> (r: String)
    ensures
        r@ == content_text_of(content.deep_view()),
{
    let mut chunks: Vec<String> = Vec::new();
    let mut i: usize = 0;
    while i < content.len()
        invariant
            i <= content.len(),
            chunks.len() == i,
            forall|k: int|
                0 <= k < i ==> (#[trigger] chunks@[k])@ == content_chunk(content@[k]@),
        decreases content.len() - i,
    {
        let chunk = match &content[i] {
            ContentItem::InputText { text } => text.clone(),
            ContentItem::OutputText { text } => text.clone(),
            ContentItem::InputImage { image_url, .. } => bracketed("[image:", image_url.as_str()),
            ContentItem::InputAudio { audio_url } => bracketed("[audio:", audio_url.as_str()),
        };
        chunks.push(chunk);
        i = i + 1;
    }
    assert(chunks.deep_view() =~= content.deep_view().map_values(
        |p: ContentItemView| content_chunk(p),
    ));
    join(&chunks, "\n")
}

/// One part of a tool output as text; media stand by their addresses.
pub open spec fn output_chunk(part: FunctionCallOutputContentItemView) -> Seq<char> {
    match part {
        FunctionCallOutputContentItemView::InputText { text } => text,
        FunctionCallOutputContentItemView::InputImage { image_url, detail } => "[image:"@
            + image_url + "]"@,
        FunctionCallOutputContentItemView::InputAudio { audio_url } => "[audio:"@ + audio_url
            + "]"@,
        FunctionCallOutputContentItemView::EncryptedContent { encrypted_content } =>
            encrypted_content,
    }
}

/// A tool output as text, part by part on lines of their own.
pub open spec fn output_text_of(body: FunctionCallOutputBodyView) -> Seq<char> {
    match body {
        FunctionCallOutputBodyView::Text(s) => s,
        FunctionCallOutputBodyView::ContentItems(items) => joined(
            items.map_values(|p: FunctionCallOutputContentItemView| output_chunk(p)),
            "\n"@,
        ),
    }
}

fn content_items_output_text(items: &Vec<FunctionCallOutputContentItem>) -> (r: String)
    ensures
        r@ == output_text_of(FunctionCallOutputBodyView::ContentItems(items.deep_view())),
{
    let mut chunks: Vec<String> = Vec::new();
    let mut i: usize = 0;
    while i < items.len()
        invariant
            i <= items.len(),
            chunks.len() == i,
            forall|k: int| 0 <= k < i ==> (#[trigger] chunks@[k])@ == output_chunk(items@[k]@),
        decreases items.len() - i,
    {
        let chunk = match &items[i] {
            FunctionCallOutputContentItem::InputText { text } => text.clone(),
            FunctionCallOutputContentItem::InputImage { image_url, .. } => bracketed(
                "[image:",
                image_url.as_str(),
            ),
            FunctionCallOutputContentItem::InputAudio { audio_url } => bracketed(
                "[audio:",
                audio_url.as_str(),
            ),
            FunctionCallOutputContentItem::EncryptedContent { encrypted_content } =>
                encrypted_content.clone(),
        };
        chunks.push(chunk);
        i = i + 1;
    }
    assert(chunks.deep_view() =~= items.deep_view().map_values(
        |p: FunctionCallOutputContentItemView| output_chunk(p),
    ));
    join(&chunks, "\n")
}

/// Whether an output is an error, when its success is known.
pub open spec fn error_of(success: Option<bool>) -> Option<bool> {
    match success {
        Some(ok) => Some(!ok),
        None => None,
    }
}

fn function_output_content(output: &FunctionCallOutputPayload) -> (r: (String, Option<bool>))
    ensures
        r.0@ == output_text_of(output@.body),
        r.1 == error_of(output@.success),
{
    let content = match &output.body {
        FunctionCallOutputBody::Text(s) => s.clone(),
        FunctionCallOutputBody::ContentItems(items) => content_items_output_text(items),
    };
    let is_error = match output.success {
        Some(ok) => Some(!ok),
        None => None,
    };
    (content, is_error)
}

/// The text of one part of reasoning.
pub open spec fn thought(part: ReasoningItemContentView) -> Seq<char> {
    match part {
        ReasoningItemContentView::ReasoningText { text } => text,
        ReasoningItemContentView::Text { text } => text,
    }
}

/// The texts of a reasoning item: its summary, then the reasoning itself.
pub open spec fn reasoning_texts(
    summary: Seq<ReasoningItemReasoningSummaryView>,
    content: Option<Seq<ReasoningItemContentView>>,
) -> Seq<Seq<char>> {
    summary.map_values(|s: ReasoningItemReasoningSummaryView| s->text) + (match content {
        Some(parts) => parts.map_values(|c: ReasoningItemContentView| thought(c)),
        None => Seq::empty(),
    })
}

fn reasoning_summary_text(
    summary: &Vec<ReasoningItemReasoningSummary>,
    content: &Option<Vec<ReasoningItemContent>>,
) -> (r: String)
    ensures
        r@ == joined(reasoning_texts(summary.deep_view(), content.deep_view()), ""@),
{
    let ghost all = reasoning_texts(summary.deep_view(), content.deep_view());
    let mut parts: Vec<String> = Vec::new();
    let mut i: usize = 0;
    while i < summary.len()
        invariant
            i <= summary.len(),
            parts.len() == i,
            forall|k: int| 0 <= k < i ==> (#[trigger] parts@[k])@ == summary@[k]@->text,
        decreases summary.len() - i,
    {
        match &summary[i] {
            ReasoningItemReasoningSummary::SummaryText { text } => parts.push(text.clone()),
        }
        i = i + 1;
    }
    if let Some(content) = content {
        let mut j: usize = 0;
        while j < content.len()
            invariant
                j <= content.len(),
                parts.len() == summary.len() + j,
                forall|k: int|
                    0 <= k < summary.len() ==> (#[trigger] parts@[k])@ == summary@[k]@->text,
                forall|k: int|
                    #![trigger parts@[summary.len() + k]]
                    0 <= k < j ==> parts@[summary.len() + k]@ == thought(content@[k]@),
            decreases content.len() - j,
        {
            match &content[j] {
                ReasoningItemContent::ReasoningText { text } => parts.push(text.clone()),
                ReasoningItemContent::Text { text } => parts.push(text.clone()),
            }
            j = j + 1;
        }
        assert forall|k: int| 0 <= k < parts.len() implies parts@[k]@ == all[k] by {
            if k >= summary.len() {
                let m = k - summary.len();
                assert(parts@[summary.len() + m]@ == thought(content@[m]@));
            }
        }
        assert(parts.deep_view() =~= all);
    } else {
        assert(parts.deep_view() =~= all);
    }
    join(&parts, "")
}

// ---------------------------------------------------------------------------
// Arguments of tool calls
// ---------------------------------------------------------------------------

/// The arguments of a call, given what the wire string reads as: the object it
/// is, or the value or the string itself under a name; and always the wire
/// string itself.
pub open spec fn arguments_of(raw: Seq<char>, read: Option<JsonView>) -> Entries {
    let entries = match read {
        Some(JsonView::Object(entries)) => entries,
        Some(other) => seq![("value"@, other)],
        None => seq![("raw"@, JsonView::Text(raw))],
    };
    with_entry(entries, "__hostRaw"@, JsonView::Text(raw))
}

/// The arguments of a call, given what the wire string reads as.
pub fn arguments_from_read(raw: &str, read: Option<Json>) -> (r: Vec<(String, Json)>)
    ensures
        r.deep_view() == arguments_of(raw@, read.deep_view()),
{
    broadcast use lemma_object_view;

    let mut map: Vec<(String, Json)> = match read {
        Some(Json::Object(entries)) => entries,
        Some(other) => {
            let mut m: Vec<(String, Json)> = Vec::new();
            let ghost view = other@;
            push_entry(&mut m, "value", other);
            assert(m.deep_view() =~= seq![("value"@, view)]);
            m
        },
        None => {
            let mut m: Vec<(String, Json)> = Vec::new();
            push_entry(&mut m, "raw", Json::Text(text(raw)));
            assert(m.deep_view() =~= seq![("raw"@, JsonView::Text(raw@))]);
            m
        },
    };
    put_entry(&mut map, "__hostRaw", Json::Text(text(raw)));
    map
}

fn parse_arguments_object(raw: &str) -> (r: Vec<(String, Json)>)
    ensures
        r.deep_view() == arguments_of(raw@, json_read(raw@)),
{
    arguments_from_read(raw, read_json(raw))
}

/// A JSON value as named arguments: its own entries, or itself under a name.
pub open spec fn value_arguments(value: JsonView) -> Entries {
    match value {
        JsonView::Object(entries) => entries,
        other => seq![("value"@, other)],
    }
}

fn value_to_arguments_map(value: &Json) -> (r: Vec<(String, Json)>)
    ensures
        r.deep_view() == value_arguments(value@),
{
    broadcast use lemma_object_view;

    match value.clone() {
        Json::Object(entries) => entries,
        other => {
            let ghost view = other@;
            let mut m: Vec<(String, Json)> = Vec::new();
            push_entry(&mut m, "value", other);
            assert(m.deep_view() =~= seq![("value"@, view)]);
            m
        },
    }
}

/// The arguments of a shell call: the fields of its command.
pub open spec fn local_shell_arguments_of(action: LocalShellActionView) -> Entries {
    match action {
        LocalShellActionView::Exec(exec) => with_exec_fields(Seq::empty(), exec),
    }
}

fn local_shell_arguments(action: &LocalShellAction) -> (r: Vec<(String, Json)>)
    ensures
        r.deep_view() == local_shell_arguments_of(action@),
{
    let mut e: Vec<(String, Json)> = Vec::new();
    assert(e.deep_view() =~= Seq::empty());
    match action {
        LocalShellAction::Exec(exec) => push_exec_fields(&mut e, exec),
    }
    e
}

/// The arguments of a web search call: the fields of its action, if any.
pub open spec fn web_search_arguments_of(action: Option<WebSearchActionView>) -> Entries {
    match action {
        Some(a) => web_search_action_entries(a),
        None => Seq::empty(),
    }
}

fn web_search_arguments(action: &Option<WebSearchAction>) -> (r: Vec<(String, Json)>)
    ensures
        r.deep_view() == web_search_arguments_of(action.deep_view()),
{
    broadcast use lemma_object_view;

    let empty: Vec<(String, Json)> = Vec::new();
    assert(empty.deep_view() =~= Seq::empty());
    match action {
        Some(a) => match a.to_wire() {
            Json::Object(entries) => entries,
            _ => empty,
        },
        None => empty,
    }
}

// ---------------------------------------------------------------------------
// Items
// ---------------------------------------------------------------------------

/// The events of a message.
pub open spec fn message_events(
    item: ItemKey,
    provenance: RawItemProvenance,
    role: Seq<char>,
    content: Seq<ContentItemView>,
) -> Seq<EventView> {
    let s = content_text_of(content);
    if role == "developer"@ || role == "system"@ {
        Seq::empty()
    } else if role == "user"@ {
        if s.len() == 0 {
            Seq::empty()
        } else if provenance is UserPrompt {
            seq![text_event_of(item, "user_prompt"@, ACTOR_USER@, s, None)]
        } else {
            seq![text_event_of(item, "runtime_note"@, ACTOR_SYSTEM@, s, None)]
        }
    } else if role == "assistant"@ {
        if s.len() == 0 {
            Seq::empty()
        } else {
            seq![text_event_of(item, "assistant_text"@, ACTOR_ASSISTANT@, s, None)]
        }
    } else {
        seq![
            text_event_of(
                item,
                "runtime_note"@,
                ACTOR_SYSTEM@,
                "["@ + role + "] "@ + s,
                None,
            ),
        ]
    }
}

fn one(event: MappedEvent) -> (r: Vec<MappedEvent>)
    ensures
        r.deep_view() == seq![event@],
{
    let ghost view = event@;
    let mut v: Vec<MappedEvent> = Vec::new();
    v.push(event);
    assert(v.deep_view() =~= seq![view]);
    v
}

fn two(first: MappedEvent, second: MappedEvent) -> (r: Vec<MappedEvent>)
    ensures
        r.deep_view() == seq![first@, second@],
{
    let ghost views = seq![first@, second@];
    let mut v: Vec<MappedEvent> = Vec::new();
    v.push(first);
    v.push(second);
    assert(v.deep_view() =~= views);
    v
}

fn none() -> (r: Vec<MappedEvent>)
    ensures
        r.deep_view() == Seq::<EventView>::empty(),
{
    let v: Vec<MappedEvent> = Vec::new();
    assert(v.deep_view() =~= Seq::<EventView>::empty());
    v
}

fn map_message(
    mint: &KeyMint,
    provenance: RawItemProvenance,
    role: &str,
    content: &Vec<ContentItem>,
) -> (r: Vec<MappedEvent>)
    ensures
        r.deep_view() == message_events(mint.item(), provenance, role@, content.deep_view()),
{
    if text_eq(role, "developer") || text_eq(role, "system") {
        return none();
    }
    let s = content_items_text(content);
    if text_eq(role, "user") {
        if s.as_str().is_empty() {
            return none();
        }
        match provenance {
            RawItemProvenance::UserPrompt => one(
                text_event(mint, "user_prompt", ACTOR_USER, s.as_str(), None),
            ),
            RawItemProvenance::HostContext
            | RawItemProvenance::InterAgent
            | RawItemProvenance::ModelOutput => one(
                text_event(mint, "runtime_note", ACTOR_SYSTEM, s.as_str(), None),
            ),
        }
    } else if text_eq(role, "assistant") {
        if s.as_str().is_empty() {
            return none();
        }
        one(text_event(mint, "assistant_text", ACTOR_ASSISTANT, s.as_str(), None))
    } else {
        let mut t = text("[");
        t.append(role);
        t.append("] ");
        t.append(s.as_str());
        one(text_event(mint, "runtime_note", ACTOR_SYSTEM, t.as_str(), None))
    }
}

/// `entries` and then `key`, unless the text is absent or empty.
pub open spec fn and_filled(entries: Entries, key: Seq<char>, value: Option<Seq<char>>) -> Entries {
    match value {
        Some(s) => if s.len() > 0 {
            entries.push((key, JsonView::Text(s)))
        } else {
            entries
        },
        None => entries,
    }
}

fn push_filled(entries: &mut Vec<(String, Json)>, key: &str, value: &Option<String>)
    ensures
        final(entries).deep_view() == and_filled(old(entries).deep_view(), key@, value.deep_view()),
{
    if let Some(s) = value {
        if !s.as_str().is_empty() {
            push_entry(entries, key, Json::Text(s.clone()));
        }
    }
}

/// The payload of a thinking event: its text, its signature, and which model
/// it came from.
pub open spec fn thinking_payload(
    s: Seq<char>,
    signature: Option<Seq<char>>,
    identity: Option<ModelIdentityView>,
) -> Entries {
    let e = text_payload(s);
    let e = and_filled(e, "signature"@, signature);
    match identity {
        Some(id) => {
            let e = and_filled(e, "provider"@, id.provider);
            let e = and_filled(e, "model"@, id.model);
            and_filled(e, "api"@, id.api)
        },
        None => e,
    }
}

/// The events of a reasoning item.
pub open spec fn reasoning_events(
    item: ItemKey,
    summary: Seq<ReasoningItemReasoningSummaryView>,
    content: Option<Seq<ReasoningItemContentView>>,
    encrypted_content: Option<Seq<char>>,
    identity: Option<ModelIdentityView>,
) -> Seq<EventView> {
    let s = joined(reasoning_texts(summary, content), ""@);
    if s.len() > 0 || is_filled(encrypted_content) {
        seq![
            host_event(
                "assistant_thinking"@,
                item.key("assistant_thinking"@, None),
                ACTOR_ASSISTANT@,
                thinking_payload(s, encrypted_content, identity),
            ),
        ]
    } else {
        Seq::empty()
    }
}

fn map_reasoning(
    mint: &KeyMint,
    summary: &Vec<ReasoningItemReasoningSummary>,
    content: &Option<Vec<ReasoningItemContent>>,
    encrypted_content: &Option<String>,
    identity: Option<&ModelIdentity>,
) -> (r: Vec<MappedEvent>)
    ensures
        r.deep_view() == reasoning_events(
            mint.item(),
            summary.deep_view(),
            content.deep_view(),
            encrypted_content.deep_view(),
            identity.deep_view(),
        ),
{
    let s = reasoning_summary_text(summary, content);
    if s.as_str().is_empty() && !filled(encrypted_content) {
        return none();
    }
    let mut payload = text_entries(s.as_str());
    push_filled(&mut payload, "signature", encrypted_content);
    if let Some(id) = identity {
        push_filled(&mut payload, "provider", &id.provider);
        push_filled(&mut payload, "model", &id.model);
        push_filled(&mut payload, "api", &id.api);
    }
    one(
        make_event(
            "assistant_thinking",
            mint.key("assistant_thinking", None),
            ACTOR_ASSISTANT,
            payload,
        ),
    )
}

/// The text of one part of a message between agents.
pub open spec fn agent_chunk(part: AgentMessageInputContentView) -> Seq<char> {
    match part {
        AgentMessageInputContentView::InputText { text } => text,
        AgentMessageInputContentView::EncryptedContent { encrypted_content } => encrypted_content,
    }
}

/// A message between agents as one text.
pub open spec fn agent_message_text(
    author: Seq<char>,
    recipient: Seq<char>,
    content: Seq<AgentMessageInputContentView>,
) -> Seq<char> {
    let head = "agent_message author="@ + author + " recipient="@ + recipient + " parts="@
        + json_text(list_wire::<AgentMessageInputContent>(content));
    let body = joined(content.map_values(|p: AgentMessageInputContentView| agent_chunk(p)), "\n"@);
    if body.len() == 0 {
        head
    } else {
        head + "\n"@ + body
    }
}

fn agent_text(author: &str, recipient: &str, content: &Vec<AgentMessageInputContent>) -> (r: String)
    ensures
        r@ == agent_message_text(author@, recipient@, content.deep_view()),
{
    let mut texts: Vec<String> = Vec::new();
    let mut i: usize = 0;
    while i < content.len()
        invariant
            i <= content.len(),
            texts.len() == i,
            forall|k: int| 0 <= k < i ==> (#[trigger] texts@[k])@ == agent_chunk(content@[k]@),
        decreases content.len() - i,
    {
        match &content[i] {
            AgentMessageInputContent::InputText { text } => texts.push(text.clone()),
            AgentMessageInputContent::EncryptedContent { encrypted_content } => texts.push(
                encrypted_content.clone(),
            ),
        }
        i = i + 1;
    }
    assert(texts.deep_view() =~= content.deep_view().map_values(
        |p: AgentMessageInputContentView| agent_chunk(p),
    ));
    let body = join(&texts, "\n");
    let mut out = text("agent_message author=");
    out.append(author);
    out.append(" recipient=");
    out.append(recipient);
    out.append(" parts=");
    out.append(list_to_wire(content).to_text().as_str());
    if !body.as_str().is_empty() {
        out.append("\n");
        out.append(body.as_str());
    }
    out
}

/// The identity of a call that may lack one: then one made from its digest.
pub open spec fn call_id_or_synthetic(call_id: Option<Seq<char>>, digest: Seq<char>) -> Seq<char> {
    match call_id {
        Some(id) => id,
        None => "synthetic:"@ + digest,
    }
}

fn or_synthetic(call_id: &Option<String>, digest: &str) -> (r: String)
    ensures
        r@ == call_id_or_synthetic(call_id.deep_view(), digest@),
{
    match call_id {
        Some(id) => id.clone(),
        None => {
            let mut s = text("synthetic:");
            s.append(digest);
            s
        },
    }
}

/// A status that says that something went wrong.
pub open spec fn is_failed_status(status: Seq<char>) -> bool {
    status == "failed"@ || status == "error"@
}

fn failed_status(status: &str) -> (r: bool)
    ensures
        r == is_failed_status(status@),
{
    text_eq(status, "failed") || text_eq(status, "error")
}

/// What is stored as the result of an image generation.
pub open spec fn image_result(
    status: Seq<char>,
    result: Seq<char>,
    revised_prompt: Option<Seq<char>>,
) -> JsonView {
    JsonView::Object(
        seq![
            ("status"@, JsonView::Text(status)),
            ("result"@, JsonView::Text(result)),
            ("revisedPrompt"@, text_or_null(revised_prompt)),
        ],
    )
}

fn image_result_text(status: &str, result: &str, revised_prompt: &Option<String>) -> (r: String)
    ensures
        r@ == json_text(image_result(status@, result@, revised_prompt.deep_view())),
{
    broadcast use lemma_object_view;

    let mut e: Vec<(String, Json)> = Vec::new();
    push_entry(&mut e, "status", Json::Text(text(status)));
    push_entry(&mut e, "result", Json::Text(text(result)));
    push_entry(&mut e, "revisedPrompt", opt_text_json(revised_prompt));
    assert(e.deep_view() =~= image_result(
        status@,
        result@,
        revised_prompt.deep_view(),
    )->Object_0);
    Json::Object(e).to_text()
}

/// The arguments of a function call: those of its wire string, and the
/// encrypted ones beside them.
pub open spec fn function_arguments(
    raw: Seq<char>,
    read: Option<JsonView>,
    encrypted: Option<Seq<Seq<char>>>,
) -> Entries {
    match encrypted {
        Some(list) => with_entry(
            arguments_of(raw, read),
            "__hostEncryptedFunctionArgs"@,
            list_wire::<String>(list),
        ),
        None => arguments_of(raw, read),
    }
}

/// The events that an item gives rise to.
pub open spec fn item_events(
    key: ItemKey,
    item: ResponseItemView,
    provenance: RawItemProvenance,
    identity: Option<ModelIdentityView>,
) -> Seq<EventView> {
    match item {
        ResponseItemView::Message { role, content, .. } => message_events(
            key,
            provenance,
            role,
            content,
        ),
        ResponseItemView::AgentMessage { author, recipient, content, .. } => seq![
            text_event_of(
                key,
                "runtime_note"@,
                ACTOR_SYSTEM@,
                agent_message_text(author, recipient, content),
                None,
            ),
        ],
        ResponseItemView::Reasoning { summary, content, encrypted_content, .. } => reasoning_events(
            key,
            summary,
            content,
            encrypted_content,
            identity,
        ),
        ResponseItemView::LocalShellCall { call_id, action, .. } => seq![
            tool_call_of(
                key,
                call_id_or_synthetic(call_id, key.digest),
                "local_shell"@,
                local_shell_arguments_of(action),
            ),
        ],
        ResponseItemView::FunctionCall {
            name,
            arguments,
            encrypted_function_args,
            call_id,
            ..
        } => seq![
            tool_call_of(
                key,
                call_id,
                name,
                function_arguments(arguments, json_read(arguments), encrypted_function_args),
            ),
        ],
        ResponseItemView::ToolSearchCall { call_id, arguments, .. } => seq![
            tool_call_of(
                key,
                call_id_or_synthetic(call_id, key.digest),
                "tool_search"@,
                with_entry(
                    value_arguments(arguments),
                    "__hostRaw"@,
                    JsonView::Text(json_text(arguments)),
                ),
            ),
        ],
        ResponseItemView::FunctionCallOutput { call_id, output, .. } => seq![
            tool_result_of(
                key,
                call_id_or_synthetic(call_id, key.digest),
                output_text_of(output.body),
                error_of(output.success),
            ),
        ],
        ResponseItemView::CustomToolCall { call_id, name, input, .. } => seq![
            tool_call_of(key, call_id, name, arguments_of(input, json_read(input))),
        ],
        ResponseItemView::CustomToolCallOutput { call_id, output, .. } => seq![
            tool_result_of(
                key,
                call_id,
                output_text_of(output.body),
                error_of(output.success),
            ),
        ],
        ResponseItemView::ToolSearchOutput { call_id, tools, status, .. } => seq![
            tool_result_of(
                key,
                call_id_or_synthetic(call_id, key.digest),
                json_text(list_wire::<Json>(tools)),
                Some(is_failed_status(status)),
            ),
        ],
        ResponseItemView::WebSearchCall { id, action, .. } => seq![
            tool_call_of(
                key,
                call_id_or_synthetic(id, key.digest),
                "web_search"@,
                web_search_arguments_of(action),
            ),
        ],
        ResponseItemView::ImageGenerationCall { id, status, revised_prompt, result, .. } => seq![
            tool_call_of(
                key,
                call_id_or_synthetic(id, key.digest),
                "image_generation"@,
                match revised_prompt {
                    Some(p) => seq![("revisedPrompt"@, JsonView::Text(p))],
                    None => Seq::empty(),
                },
            ),
            tool_result_of(
                key,
                call_id_or_synthetic(id, key.digest),
                json_text(image_result(status, result, revised_prompt)),
                Some(is_failed_status(status)),
            ),
        ],
        ResponseItemView::AdditionalTools { tools, .. } => seq![
            text_event_of(
                key,
                "runtime_note"@,
                ACTOR_SYSTEM@,
                "additional_tools "@ + json_text(list_wire::<Json>(tools)),
                None,
            ),
        ],
        ResponseItemView::Compaction { encrypted_content, .. } => seq![
            text_event_of(
                key,
                "runtime_note"@,
                ACTOR_SYSTEM@,
                encrypted_content,
                Some("compaction"@),
            ),
        ],
        ResponseItemView::CompactionTrigger => Seq::empty(),
        ResponseItemView::ContextCompaction { encrypted_content, .. } => match encrypted_content {
            Some(s) => if s.len() > 0 {
                seq![
                    text_event_of(
                        key,
                        "runtime_note"@,
                        ACTOR_SYSTEM@,
                        s,
                        Some("context_compaction"@),
                    ),
                ]
            } else {
                Seq::empty()
            },
            None => Seq::empty(),
        },
        ResponseItemView::Other => Seq::empty(),
    }
}

fn item_events_for(
    mint: &KeyMint,
    item: &ResponseItem,
    provenance: RawItemProvenance,
    identity: Option<&ModelIdentity>,
) -> (r: Vec<MappedEvent>)
    ensures
        r.deep_view() == item_events(mint.item(), item@, provenance, identity.deep_view()),
{
    match item {
        ResponseItem::Message { role, content, .. } => map_message(
            mint,
            provenance,
            role.as_str(),
            content,
        ),
        ResponseItem::AgentMessage { author, recipient, content, .. } => {
            let s = agent_text(author.as_str(), recipient.as_str(), content);
            one(text_event(mint, "runtime_note", ACTOR_SYSTEM, s.as_str(), None))
        },
        ResponseItem::Reasoning { summary, content, encrypted_content, .. } => map_reasoning(
            mint,
            summary,
            content,
            encrypted_content,
            identity,
        ),
        ResponseItem::LocalShellCall { call_id, action, .. } => {
            let tool_call_id = or_synthetic(call_id, mint.digest);
            one(
                tool_call_event(
                    mint,
                    tool_call_id.as_str(),
                    "local_shell",
                    local_shell_arguments(action),
                ),
            )
        },
        ResponseItem::FunctionCall { name, arguments, encrypted_function_args, call_id, .. } => {
            let mut args = parse_arguments_object(arguments.as_str());
            if let Some(list) = encrypted_function_args {
                put_entry(&mut args, "__hostEncryptedFunctionArgs", list_to_wire(list));
            }
            one(tool_call_event(mint, call_id.as_str(), name.as_str(), args))
        },
        ResponseItem::ToolSearchCall { call_id, arguments, .. } => {
            let tool_call_id = or_synthetic(call_id, mint.digest);
            let mut args = value_to_arguments_map(arguments);
            put_entry(&mut args, "__hostRaw", Json::Text(arguments.to_text()));
            one(tool_call_event(mint, tool_call_id.as_str(), "tool_search", args))
        },
        ResponseItem::FunctionCallOutput { call_id, output, .. } => {
            let tool_call_id = or_synthetic(call_id, mint.digest);
            let (content, is_error) = function_output_content(output);
            one(tool_result_event(mint, tool_call_id.as_str(), content.as_str(), is_error))
        },
        ResponseItem::CustomToolCall { call_id, name, input, .. } => {
            let args = parse_arguments_object(input.as_str());
            one(tool_call_event(mint, call_id.as_str(), name.as_str(), args))
        },
        ResponseItem::CustomToolCallOutput { call_id, output, .. } => {
            let (content, is_error) = function_output_content(output);
            one(tool_result_event(mint, call_id.as_str(), content.as_str(), is_error))
        },
        ResponseItem::ToolSearchOutput { call_id, tools, status, .. } => {
            let tool_call_id = or_synthetic(call_id, mint.digest);
            let content = list_to_wire(tools).to_text();
            let is_error = failed_status(status.as_str());
            one(tool_result_event(mint, tool_call_id.as_str(), content.as_str(), Some(is_error)))
        },
        ResponseItem::WebSearchCall { id, action, .. } => {
            let tool_call_id = or_synthetic(id, mint.digest);
            one(
                tool_call_event(
                    mint,
                    tool_call_id.as_str(),
                    "web_search",
                    web_search_arguments(action),
                ),
            )
        },
        ResponseItem::ImageGenerationCall { id, status, revised_prompt, result, .. } => {
            let tool_call_id = or_synthetic(id, mint.digest);
            let mut args: Vec<(String, Json)> = Vec::new();
            assert(args.deep_view() =~= Seq::empty());
            if let Some(p) = revised_prompt {
                push_entry(&mut args, "revisedPrompt", Json::Text(p.clone()));
                assert(args.deep_view() =~= seq![("revisedPrompt"@, JsonView::Text(p@))]);
            }
            let call = tool_call_event(mint, tool_call_id.as_str(), "image_generation", args);
            let content = image_result_text(status.as_str(), result.as_str(), revised_prompt);
            let result = tool_result_event(
                mint,
                tool_call_id.as_str(),
                content.as_str(),
                Some(failed_status(status.as_str())),
            );
            two(call, result)
        },
        ResponseItem::AdditionalTools { tools, .. } => {
            let mut s = text("additional_tools ");
            s.append(list_to_wire(tools).to_text().as_str());
            one(text_event(mint, "runtime_note", ACTOR_SYSTEM, s.as_str(), None))
        },
        ResponseItem::Compaction { encrypted_content, .. } => one(
            text_event(
                mint,
                "runtime_note",
                ACTOR_SYSTEM,
                encrypted_content.as_str(),
                Some("compaction"),
            ),
        ),
        ResponseItem::CompactionTrigger => none(),
        ResponseItem::ContextCompaction { encrypted_content, .. } => match encrypted_content {
            Some(s) => if s.as_str().is_empty() {
                none()
            } else {
                one(
                    text_event(
                        mint,
                        "runtime_note",
                        ACTOR_SYSTEM,
                        s.as_str(),
                        Some("context_compaction"),
                    ),
                )
            },
            None => none(),
        },
        ResponseItem::Other => none(),
    }
}

/// What the events of `item` have in common, `count` being the next occurrence
/// number of its digest. An item with an identity has no occurrence number.
pub open spec fn item_key(thread_id: Seq<char>, item: ResponseItemView, count: u64) -> ItemKey {
    ItemKey {
        thread_id,
        stable_id: stable_id(item),
        digest: digest_of(item),
        occurrence: if stable_id(item) is None {
            count as nat
        } else {
            0
        },
    }
}

/// Maps one item to the events that are stored for it.
///
/// `identity` says which model is live; it goes with reasoning. Only an item
/// without an identity takes an occurrence number.
pub fn map_item(
    thread_id: &str,
    item: &ResponseItem,
    provenance: RawItemProvenance,
    tracker: &mut OccurrenceTracker,
    identity: Option<&ModelIdentity>,
) -> (r: Vec<MappedEvent>)
    requires
        old(tracker)@.has_room_for(item@),
    ensures
        r.deep_view() == item_events(
            item_key(thread_id@, item@, old(tracker)@.count(digest_of(item@))),
            item@,
            provenance,
            identity.deep_view(),
        ),
        final(tracker)@ == (if stable_id(item@) is None {
            old(tracker)@.advanced(digest_of(item@))
        } else {
            old(tracker)@
        }),
{
    let digest = item_digest(item);
    let sid = item_stable_id(item);
    let occurrence: u64 = match &sid {
        Some(_) => 0,
        None => tracker.next(digest.as_str()),
    };
    let mint = KeyMint {
        thread_id,
        stable_id: match &sid {
            Some(s) => Some(s.as_str()),
            None => None,
        },
        digest: digest.as_str(),
        occurrence,
    };
    assert(mint.item() == item_key(thread_id@, item@, old(tracker)@.count(digest_of(item@))));
    item_events_for(&mint, item, provenance, identity)
}

// ---------------------------------------------------------------------------
// Turn boundaries, notes and changes
// ---------------------------------------------------------------------------

/// What the host saw of the end of a turn. All of it may be absent.
#[derive(Debug, PartialEq, Eq)]
pub struct TurnEndFacts {
    /// `"completed"` or `"aborted"`.
    pub outcome: Option<&'static str>,
    pub outcome_reason: Option<String>,
    /// When the turn began, in ISO-8601 UTC.
    pub started_at: Option<String>,
    /// When the turn ended, in ISO-8601 UTC.
    pub ended_at: Option<String>,
}

/// What a [`TurnEndFacts`] stands for.
#[verifier::ext_equal]
pub struct TurnEndFactsView {
    pub outcome: Option<Seq<char>>,
    pub outcome_reason: Option<Seq<char>>,
    pub started_at: Option<Seq<char>>,
    pub ended_at: Option<Seq<char>>,
}

impl View for TurnEndFacts {
    type V = TurnEndFactsView;

    open spec fn view(&self) -> TurnEndFactsView {
        TurnEndFactsView {
            outcome: self.outcome.deep_view(),
            outcome_reason: self.outcome_reason.deep_view(),
            started_at: self.started_at.deep_view(),
            ended_at: self.ended_at.deep_view(),
        }
    }
}

impl DeepView for TurnEndFacts {
    type V = TurnEndFactsView;

    open spec fn deep_view(&self) -> TurnEndFactsView {
        self@
    }
}

impl Clone for TurnEndFacts {
    fn clone(&self) -> (r: Self)
        ensures
            r@ == self@,
    {
        TurnEndFacts {
            outcome: self.outcome,
            outcome_reason: self.outcome_reason.clone(),
            started_at: self.started_at.clone(),
            ended_at: self.ended_at.clone(),
        }
    }
}

impl Default for TurnEndFacts {
    fn default() -> (r: Self)
        ensures
            r@ == (TurnEndFactsView {
                outcome: None,
                outcome_reason: None,
                started_at: None,
                ended_at: None,
            }),
    {
        TurnEndFacts { outcome: None, outcome_reason: None, started_at: None, ended_at: None }
    }
}

/// The payload of a turn boundary: the facts that are there.
pub open spec fn turn_end_payload(facts: TurnEndFactsView) -> Entries {
    let e: Entries = Seq::empty();
    let e = and_opt_text(e, "outcome"@, facts.outcome);
    let e = and_opt_text(e, "outcomeReason"@, facts.outcome_reason);
    let e = and_opt_text(e, "startedAt"@, facts.started_at);
    and_opt_text(e, "endedAt"@, facts.ended_at)
}

/// The event of a turn boundary.
pub open spec fn turn_end_event(
    thread_id: Seq<char>,
    turn_id: Seq<char>,
    reason: Seq<char>,
    facts: TurnEndFactsView,
) -> EventView {
    host_event(
        "turn_end"@,
        turn_key(thread_id, turn_id, reason),
        ACTOR_ASSISTANT@,
        turn_end_payload(facts),
    )
}

/// Maps a turn boundary to its event. `reason` goes into the key only.
pub fn map_turn_end(thread_id: &str, turn_id: &str, reason: &str, facts: &TurnEndFacts) -> (r:
    MappedEvent)
    ensures
        r@ == turn_end_event(thread_id@, turn_id@, reason@, facts@),
{
    let mut payload: Vec<(String, Json)> = Vec::new();
    assert(payload.deep_view() =~= Seq::empty());
    if let Some(outcome) = facts.outcome {
        push_entry(&mut payload, "outcome", Json::Text(text(outcome)));
    }
    push_opt_text(&mut payload, "outcomeReason", &facts.outcome_reason);
    push_opt_text(&mut payload, "startedAt", &facts.started_at);
    push_opt_text(&mut payload, "endedAt", &facts.ended_at);
    make_event("turn_end", turn_end_key(thread_id, turn_id, reason), ACTOR_ASSISTANT, payload)
}

/// A usage figure as the entries of an object.
pub open spec fn usage_entries(usage: TokenUsageView) -> Entries {
    let e: Entries = seq![
        ("input_tokens"@, JsonView::Int(usage.input_tokens as int)),
        ("cached_input_tokens"@, JsonView::Int(usage.cached_input_tokens as int)),
        ("cache_write_input_tokens"@, JsonView::Int(usage.cache_write_input_tokens as int)),
        ("output_tokens"@, JsonView::Int(usage.output_tokens as int)),
        ("reasoning_output_tokens"@, JsonView::Int(usage.reasoning_output_tokens as int)),
        ("total_tokens"@, JsonView::Int(usage.total_tokens as int)),
    ];
    and_opt_json(
        e,
        "codex_rollout_budget_units"@,
        match usage.codex_rollout_budget_units {
            Some(n) => Some(JsonView::Int(n as int)),
            None => None,
        },
    )
}

/// A usage figure as the entries of an object, field by field.
pub fn token_usage_to_provider_usage(usage: &TokenUsage) -> (r: Option<Vec<(String, Json)>>)
    ensures
        r matches Some(e) && e.deep_view() == usage_entries(usage@),
{
    let mut e: Vec<(String, Json)> = Vec::new();
    push_entry(&mut e, "input_tokens", Json::Int(usage.input_tokens as i128));
    push_entry(&mut e, "cached_input_tokens", Json::Int(usage.cached_input_tokens as i128));
    push_entry(
        &mut e,
        "cache_write_input_tokens",
        Json::Int(usage.cache_write_input_tokens as i128),
    );
    push_entry(&mut e, "output_tokens", Json::Int(usage.output_tokens as i128));
    push_entry(
        &mut e,
        "reasoning_output_tokens",
        Json::Int(usage.reasoning_output_tokens as i128),
    );
    push_entry(&mut e, "total_tokens", Json::Int(usage.total_tokens as i128));
    assert(e.deep_view() =~= seq![
        ("input_tokens"@, JsonView::Int(usage.input_tokens as int)),
        ("cached_input_tokens"@, JsonView::Int(usage.cached_input_tokens as int)),
        ("cache_write_input_tokens"@, JsonView::Int(usage.cache_write_input_tokens as int)),
        ("output_tokens"@, JsonView::Int(usage.output_tokens as int)),
        ("reasoning_output_tokens"@, JsonView::Int(usage.reasoning_output_tokens as int)),
        ("total_tokens"@, JsonView::Int(usage.total_tokens as int)),
    ]);
    if let Some(n) = usage.codex_rollout_budget_units {
        push_entry(&mut e, "codex_rollout_budget_units", Json::Int(n as i128));
    }
    Some(e)
}

/// An event with one more entry in its payload.
pub open spec fn with_payload_entry(
    event: EventView,
    key: Seq<char>,
    value: JsonView,
) -> EventView {
    EventView { payload: with_entry(event.payload, key, value), ..event }
}

/// `event` with the usage of its model call; only text of the assistant has one.
pub open spec fn with_provider_usage(event: EventView, usage: Entries) -> EventView {
    if event.event_kind == "assistant_text"@ {
        with_payload_entry(event, "providerUsage"@, JsonView::Object(usage))
    } else {
        event
    }
}

fn clone_entries(entries: &Vec<(String, Json)>) -> (r: Vec<(String, Json)>)
    ensures
        r.deep_view() == entries.deep_view(),
{
    let mut out: Vec<(String, Json)> = Vec::new();
    let mut i: usize = 0;
    let ghost all = entries.deep_view();
    while i < entries.len()
        invariant
            i <= entries.len(),
            all == entries.deep_view(),
            out.deep_view() == all.take(i as int),
        decreases entries.len() - i,
    {
        push_entry(&mut out, entries[i].0.as_str(), entries[i].1.clone());
        i = i + 1;
        assert(all.take(i as int) =~= all.take(i - 1).push(all[i - 1]));
    }
    assert(all.take(i as int) =~= all);
    out
}

/// Attaches the usage of a model call to text of the assistant; leaves every
/// other event alone.
pub fn attach_provider_usage(event: &mut MappedEvent, usage: &Vec<(String, Json)>)
    ensures
        final(event)@ == with_provider_usage(old(event)@, usage.deep_view()),
{
    broadcast use lemma_object_view;

    if text_eq(event.input.event_kind.as_str(), "assistant_text") {
        put_entry(&mut event.input.payload, "providerUsage", Json::Object(clone_entries(usage)));
    }
}

/// The kinds of event that carry a step number.
pub open spec fn bears_step(kind: Seq<char>) -> bool {
    kind == "assistant_text"@ || kind == "assistant_thinking"@ || kind == "tool_call"@ || kind
        == "tool_result"@
}

/// `event` with its step number; only the four step-bearing kinds have one.
pub open spec fn with_step_index(event: EventView, step_index: i64) -> EventView {
    if bears_step(event.event_kind) {
        with_payload_entry(event, "stepIndex"@, JsonView::Int(step_index as int))
    } else {
        event
    }
}

/// Attaches the step number to an event of a step-bearing kind; leaves every
/// other event alone.
pub fn attach_step_index(event: &mut MappedEvent, step_index: i64)
    ensures
        final(event)@ == with_step_index(old(event)@, step_index),
{
    let bears = {
        let kind = event.input.event_kind.as_str();
        text_eq(kind, "assistant_text") || text_eq(kind, "assistant_thinking") || text_eq(
            kind,
            "tool_call",
        ) || text_eq(kind, "tool_result")
    };
    if bears {
        put_entry(&mut event.input.payload, "stepIndex", Json::Int(step_index as i128));
    }
}

/// `event` marked as a prompt that came in the middle of a run; only a prompt
/// of the user can be one.
pub open spec fn with_steer(event: EventView) -> EventView {
    if event.event_kind == "user_prompt"@ {
        with_payload_entry(event, "steer"@, JsonView::Bool(true))
    } else {
        event
    }
}

/// Marks a prompt of the user as one that came in the middle of a run; leaves
/// every other event alone.
pub fn attach_steer(event: &mut MappedEvent)
    ensures
        final(event)@ == with_steer(old(event)@),
{
    if text_eq(event.input.event_kind.as_str(), "user_prompt") {
        put_entry(&mut event.input.payload, "steer", Json::Bool(true));
    }
}

/// A note of the host, under a key of its own.
pub open spec fn runtime_note_event(
    thread_id: Seq<char>,
    s: Seq<char>,
    key_suffix: Seq<char>,
) -> EventView {
    host_event(
        "runtime_note"@,
        "codex:"@ + key_escaped(thread_id) + ":runtime_note:host:"@ + key_escaped(key_suffix),
        ACTOR_SYSTEM@,
        text_payload(s),
    )
}

/// A note of the host. Its key comes from `key_suffix`, not from its text.
pub fn map_runtime_note(thread_id: &str, s: &str, key_suffix: &str) -> (r: MappedEvent)
    ensures
        r@ == runtime_note_event(thread_id@, s@, key_suffix@),
{
    let mut key = text("codex:");
    key.append(encode_thread_id(thread_id).as_str());
    key.append(":runtime_note:host:");
    key.append(encode_thread_id(key_suffix).as_str());
    make_event("runtime_note", key, ACTOR_SYSTEM, text_entries(s))
}

/// The event of a transition from one label to another.
pub open spec fn change_event(
    thread_id: Seq<char>,
    kind: Seq<char>,
    what: Seq<char>,
    previous_name: Seq<char>,
    new_name: Seq<char>,
    previous: Seq<char>,
    new: Seq<char>,
) -> EventView {
    host_event(
        kind,
        transition_key(thread_id, what, previous, new),
        ACTOR_SYSTEM@,
        seq![(previous_name, JsonView::Text(previous)), (new_name, JsonView::Text(new))],
    )
}

/// The events of a change of model, of thinking level, or of both.
pub open spec fn change_events(
    thread_id: Seq<char>,
    previous_model: Seq<char>,
    new_model: Seq<char>,
    previous_level: Seq<char>,
    new_level: Seq<char>,
) -> Seq<EventView> {
    let model = if previous_model != new_model {
        seq![
            change_event(
                thread_id,
                "model_change"@,
                ":model_change:"@,
                "previousModel"@,
                "newModel"@,
                previous_model,
                new_model,
            ),
        ]
    } else {
        Seq::empty()
    };
    let level = if previous_level != new_level {
        seq![
            change_event(
                thread_id,
                "thinking_level_change"@,
                ":thinking_level_change:"@,
                "previousLevel"@,
                "newLevel"@,
                previous_level,
                new_level,
            ),
        ]
    } else {
        Seq::empty()
    };
    model + level
}

fn change_payload(previous_name: &str, new_name: &str, previous: &str, new: &str) -> (r: Vec<
    (String, Json),
>)
    ensures
        r.deep_view() == seq![
            (previous_name@, JsonView::Text(previous@)),
            (new_name@, JsonView::Text(new@)),
        ],
{
    let mut payload: Vec<(String, Json)> = Vec::new();
    push_entry(&mut payload, previous_name, Json::Text(text(previous)));
    push_entry(&mut payload, new_name, Json::Text(text(new)));
    assert(payload.deep_view() =~= seq![
        (previous_name@, JsonView::Text(previous@)),
        (new_name@, JsonView::Text(new@)),
    ]);
    payload
}

/// Maps a change of model or thinking level to events; only what changed gives
/// rise to one.
pub fn map_model_or_thinking_change(
    thread_id: &str,
    previous_model: &str,
    new_model: &str,
    previous_level: &str,
    new_level: &str,
) -> (r: Vec<MappedEvent>)
    ensures
        r.deep_view() == change_events(
            thread_id@,
            previous_model@,
            new_model@,
            previous_level@,
            new_level@,
        ),
{
    let mut out: Vec<MappedEvent> = Vec::new();
    assert(out.deep_view() =~= Seq::empty());
    if !text_eq(previous_model, new_model) {
        let event = make_event(
            "model_change",
            model_change_key(thread_id, previous_model, new_model),
            ACTOR_SYSTEM,
            change_payload("previousModel", "newModel", previous_model, new_model),
        );
        let ghost view = event@;
        out.push(event);
        assert(out.deep_view() =~= seq![view]);
    }
    let ghost model = out.deep_view();
    if !text_eq(previous_level, new_level) {
        let event = make_event(
            "thinking_level_change",
            thinking_level_change_key(thread_id, previous_level, new_level),
            ACTOR_SYSTEM,
            change_payload("previousLevel", "newLevel", previous_level, new_level),
        );
        let ghost view = event@;
        out.push(event);
        assert(out.deep_view() =~= model + seq![view]);
    }
    assert(out.deep_view() =~= change_events(
        thread_id@,
        previous_model@,
        new_model@,
        previous_level@,
        new_level@,
    ));
    out
}

// ---------------------------------------------------------------------------
// What the mapping guarantees
// ---------------------------------------------------------------------------

/// Every event of an item is the host's, holds nothing outside its payload,
/// and has a key. An image generation gives two events, any other item at most
/// one.
pub proof fn item_events_are_closed(
    key: ItemKey,
    item: ResponseItemView,
    provenance: RawItemProvenance,
    identity: Option<ModelIdentityView>,
)
    ensures
        item_events(key, item, provenance, identity).len() == 2 <==> item is ImageGenerationCall,
        item_events(key, item, provenance, identity).len() <= 2,
        forall|i: int|
            0 <= i < item_events(key, item, provenance, identity).len() ==> ({
                let e = #[trigger] item_events(key, item, provenance, identity)[i];
                e.harness == HARNESS@ && e.extra.len() == 0 && e.idempotency_key is Some
            }),
{
}

/// An event bears a key of the item.
pub open spec fn bears_key_of(event: EventView, key: ItemKey) -> bool {
    exists|kind: Seq<char>, part: Option<Seq<char>>|
        event.idempotency_key == Some(#[trigger] key.key(kind, part))
}

/// Every event of an item bears a key of that item.
pub proof fn item_events_bear_keys_of_the_item(
    key: ItemKey,
    item: ResponseItemView,
    provenance: RawItemProvenance,
    identity: Option<ModelIdentityView>,
)
    ensures
        forall|i: int|
            0 <= i < item_events(key, item, provenance, identity).len() ==> bears_key_of(
                #[trigger] item_events(key, item, provenance, identity)[i],
                key,
            ),
{
}

/// Where a message of a user came from decides what it is stored as; what it
/// says does not.
pub proof fn user_message_kind_is_its_provenance(
    key: ItemKey,
    provenance: RawItemProvenance,
    content: Seq<ContentItemView>,
)
    requires
        content_text_of(content).len() > 0,
    ensures
        message_events(key, provenance, "user"@, content).len() == 1,
        message_events(key, provenance, "user"@, content)[0].event_kind == (if provenance
            is UserPrompt {
            "user_prompt"@
        } else {
            "runtime_note"@
        }),
        message_events(key, provenance, "user"@, content)[0].payload == text_payload(
            content_text_of(content),
        ),
{
    reveal_strlit("user");
    reveal_strlit("developer");
    reveal_strlit("system");
    assert("user"@.len() != "developer"@.len());
    assert("user"@.len() != "system"@.len());
}

/// The wire string of a function call is stored verbatim, whatever it reads as
/// and whatever else is stored beside it.
pub proof fn wire_arguments_are_kept(
    raw: Seq<char>,
    read: Option<JsonView>,
    encrypted: Option<Seq<Seq<char>>>,
)
    ensures
        entry(arguments_of(raw, read), "__hostRaw"@) == Some(JsonView::Text(raw)),
        entry(function_arguments(raw, read, encrypted), "__hostRaw"@) == Some(JsonView::Text(raw)),
        encrypted matches Some(list) ==> entry(
            function_arguments(raw, read, encrypted),
            "__hostEncryptedFunctionArgs"@,
        ) == Some(list_wire::<String>(list)),
{
    reveal_strlit("__hostRaw");
    reveal_strlit("__hostEncryptedFunctionArgs");
    let entries = match read {
        Some(JsonView::Object(entries)) => entries,
        Some(other) => seq![("value"@, other)],
        None => seq![("raw"@, JsonView::Text(raw))],
    };
    entry_after_write(entries, "__hostRaw"@, JsonView::Text(raw), "__hostRaw"@);
    assert("__hostRaw"@.len() != "__hostEncryptedFunctionArgs"@.len());
    if let Some(list) = encrypted {
        entry_after_write(
            arguments_of(raw, read),
            "__hostEncryptedFunctionArgs"@,
            list_wire::<String>(list),
            "__hostRaw"@,
        );
    }
}

/// An item with an identity maps to the same events however often it is
/// presented and whatever the tracker has seen meanwhile.
pub proof fn identified_item_maps_the_same_again(
    thread_id: Seq<char>,
    item: ResponseItemView,
    provenance: RawItemProvenance,
    identity: Option<ModelIdentityView>,
    first_count: u64,
    later_count: u64,
)
    requires
        stable_id(item) is Some,
    ensures
        item_events(item_key(thread_id, item, first_count), item, provenance, identity)
            == item_events(item_key(thread_id, item, later_count), item, provenance, identity),
{
}

/// Nothing changed, nothing stored.
pub proof fn no_change_no_events(thread_id: Seq<char>, model: Seq<char>, level: Seq<char>)
    ensures
        change_events(thread_id, model, model, level, level).len() == 0,
{
}

} // verus!
