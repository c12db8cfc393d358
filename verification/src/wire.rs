//! JSON images: the shape in which each part of a conversation travels.

use vstd::prelude::*;

use crate::json::{lemma_list_view, lemma_object_view, Entries, Json, JsonView};
use crate::protocol::{
    AgentMessageInputContent, AgentMessageInputContentView, ContentItem, ContentItemView,
    EnvVar, EnvVarView, FunctionCallOutputBody, FunctionCallOutputBodyView,
    FunctionCallOutputContentItem, FunctionCallOutputContentItemView, FunctionCallOutputPayload,
    FunctionCallOutputPayloadView, ImageDetail, LocalShellAction, LocalShellActionView,
    LocalShellExecAction, LocalShellExecActionView, LocalShellStatus, ReasoningItemContent,
    ReasoningItemContentView, ReasoningItemReasoningSummary, ReasoningItemReasoningSummaryView,
    ResponseItem, ResponseItemView, WebSearchAction, WebSearchActionView,
};
use crate::text::text;

verus! {

/// A value with a JSON image.
pub trait Wire: DeepView + Sized {
    /// The JSON image of what a value stands for.
    spec fn wire(v: Self::V) -> JsonView;

    /// The JSON image of the value.
    fn to_wire(&self) -> (r: Json)
        ensures
            r@ == Self::wire(self.deep_view()),
    ;
}

// ---------------------------------------------------------------------------
// Building an object entry by entry
// ---------------------------------------------------------------------------

/// The entries of an object that so far holds its type only.
pub open spec fn tagged(tag: Seq<char>) -> Entries {
    seq![("type"@, JsonView::Text(tag))]
}

/// `e` and then `key`, unless the value is absent.
pub open spec fn and_opt_text(e: Entries, key: Seq<char>, value: Option<Seq<char>>) -> Entries {
    match value {
        Some(s) => e.push((key, JsonView::Text(s))),
        None => e,
    }
}

/// `e` and then `key`, unless the value is absent.
pub open spec fn and_opt_json(e: Entries, key: Seq<char>, value: Option<JsonView>) -> Entries {
    match value {
        Some(j) => e.push((key, j)),
        None => e,
    }
}

/// `e` and then `key`, unless the list is absent.
pub open spec fn and_opt_list<T: Wire>(
    e: Entries,
    key: Seq<char>,
    value: Option<Seq<T::V>>,
) -> Entries {
    match value {
        Some(v) => e.push((key, list_wire::<T>(v))),
        None => e,
    }
}

/// A string, or `null` when the value is absent.
pub open spec fn text_or_null(value: Option<Seq<char>>) -> JsonView {
    match value {
        Some(s) => JsonView::Text(s),
        None => JsonView::Null,
    }
}

/// The images of a list, in order.
pub open spec fn list_wire<T: Wire>(v: Seq<T::V>) -> JsonView {
    JsonView::List(v.map_values(|x: T::V| T::wire(x)))
}

/// The image of a value that may be absent.
pub open spec fn opt_wire<T: Wire>(v: Option<T::V>) -> Option<JsonView> {
    match v {
        Some(x) => Some(T::wire(x)),
        None => None,
    }
}

/// Adds `key` with `value` at the end.
pub fn push_entry(entries: &mut Vec<(String, Json)>, key: &str, value: Json)
    ensures
        final(entries).deep_view() == old(entries).deep_view().push((key@, value@)),
{
    let ghost before = entries.deep_view();
    let ghost val = value@;
    entries.push((text(key), value));
    assert(entries.deep_view() =~= before.push((key@, val)));
}

fn tag_entries(tag: &str) -> (r: Vec<(String, Json)>)
    ensures
        r.deep_view() == tagged(tag@),
{
    let mut r: Vec<(String, Json)> = Vec::new();
    push_entry(&mut r, "type", Json::Text(text(tag)));
    assert(r.deep_view() =~= tagged(tag@));
    r
}

/// Adds `key` at the end, unless the value is absent.
pub fn push_opt_text(entries: &mut Vec<(String, Json)>, key: &str, value: &Option<String>)
    ensures
        final(entries).deep_view() == and_opt_text(
            old(entries).deep_view(),
            key@,
            value.deep_view(),
        ),
{
    if let Some(s) = value {
        push_entry(entries, key, Json::Text(s.clone()));
    }
}

fn push_opt_json(entries: &mut Vec<(String, Json)>, key: &str, value: &Option<Json>)
    ensures
        final(entries).deep_view() == and_opt_json(
            old(entries).deep_view(),
            key@,
            value.deep_view(),
        ),
{
    if let Some(j) = value {
        push_entry(entries, key, j.clone());
    }
}

fn push_opt_wire<T: Wire>(entries: &mut Vec<(String, Json)>, key: &str, value: &Option<T>)
    ensures
        final(entries).deep_view() == and_opt_json(
            old(entries).deep_view(),
            key@,
            opt_wire::<T>(value.deep_view()),
        ),
{
    if let Some(x) = value {
        push_entry(entries, key, x.to_wire());
    }
}

fn push_opt_list<T: Wire>(entries: &mut Vec<(String, Json)>, key: &str, value: &Option<Vec<T>>)
    ensures
        final(entries).deep_view() == and_opt_list::<T>(
            old(entries).deep_view(),
            key@,
            value.deep_view(),
        ),
{
    if let Some(v) = value {
        push_entry(entries, key, list_to_wire(v));
    }
}

/// A string, or `null` when the value is absent.
pub fn opt_text_json(value: &Option<String>) -> (r: Json)
    ensures
        r@ == text_or_null(value.deep_view()),
{
    match value {
        Some(s) => Json::Text(s.clone()),
        None => Json::Null,
    }
}

/// The images of a list, in order.
pub fn list_to_wire<T: Wire>(v: &Vec<T>) -> (r: Json)
    ensures
        r@ == list_wire::<T>(v.deep_view()),
{
    broadcast use lemma_list_view;

    let mut out: Vec<Json> = Vec::new();
    let mut i: usize = 0;
    while i < v.len()
        invariant
            i <= v.len(),
            out.len() == i,
            forall|k: int| 0 <= k < i ==> (#[trigger] out@[k])@ == T::wire(v@[k].deep_view()),
        decreases v.len() - i,
    {
        out.push(v[i].to_wire());
        i = i + 1;
    }
    assert(out.deep_view() =~= v.deep_view().map_values(|x: T::V| T::wire(x)));
    Json::List(out)
}

// ---------------------------------------------------------------------------
// Images of the parts
// ---------------------------------------------------------------------------

impl Wire for String {
    open spec fn wire(v: Seq<char>) -> JsonView {
        JsonView::Text(v)
    }

    fn to_wire(&self) -> Json {
        Json::Text(self.clone())
    }
}

impl Wire for Json {
    open spec fn wire(v: JsonView) -> JsonView {
        v
    }

    fn to_wire(&self) -> Json {
        self.clone()
    }
}

/// The word for an image detail.
pub open spec fn image_detail_word(detail: ImageDetail) -> Seq<char> {
    match detail {
        ImageDetail::Auto => "auto"@,
        ImageDetail::Low => "low"@,
        ImageDetail::High => "high"@,
        ImageDetail::Original => "original"@,
    }
}

impl Wire for ImageDetail {
    open spec fn wire(v: ImageDetail) -> JsonView {
        JsonView::Text(image_detail_word(v))
    }

    fn to_wire(&self) -> Json {
        match self {
            ImageDetail::Auto => Json::Text(text("auto")),
            ImageDetail::Low => Json::Text(text("low")),
            ImageDetail::High => Json::Text(text("high")),
            ImageDetail::Original => Json::Text(text("original")),
        }
    }
}

impl Wire for LocalShellStatus {
    open spec fn wire(v: LocalShellStatus) -> JsonView {
        match v {
            LocalShellStatus::Completed => JsonView::Text("completed"@),
            LocalShellStatus::InProgress => JsonView::Text("in_progress"@),
            LocalShellStatus::Incomplete => JsonView::Text("incomplete"@),
        }
    }

    fn to_wire(&self) -> Json {
        match self {
            LocalShellStatus::Completed => Json::Text(text("completed")),
            LocalShellStatus::InProgress => Json::Text(text("in_progress")),
            LocalShellStatus::Incomplete => Json::Text(text("incomplete")),
        }
    }
}

/// The variables of an environment as the entries of an object.
pub open spec fn env_entries(env: Seq<EnvVarView>) -> Entries {
    env.map_values(|x: EnvVarView| (x.name, JsonView::Text(x.value)))
}

fn env_to_wire(env: &Vec<EnvVar>) -> (r: Json)
    ensures
        r@ == JsonView::Object(env_entries(env.deep_view())),
{
    broadcast use lemma_object_view;

    let mut out: Vec<(String, Json)> = Vec::new();
    let mut i: usize = 0;
    while i < env.len()
        invariant
            i <= env.len(),
            out.deep_view() == env_entries(env.deep_view()).take(i as int),
        decreases env.len() - i,
    {
        push_entry(&mut out, env[i].name.as_str(), Json::Text(env[i].value.clone()));
        i = i + 1;
        assert(env_entries(env.deep_view()).take(i as int) =~= env_entries(env.deep_view()).take(
            i - 1,
        ).push(env_entries(env.deep_view())[i - 1]));
    }
    assert(env_entries(env.deep_view()).take(i as int) =~= env_entries(env.deep_view()));
    Json::Object(out)
}

/// The fields of a shell command, appended to `e`.
pub open spec fn with_exec_fields(e: Entries, x: LocalShellExecActionView) -> Entries {
    let e = e.push(("command"@, list_wire::<String>(x.command)));
    let e = e.push(
        (
            "timeout_ms"@,
            match x.timeout_ms {
                Some(n) => JsonView::Int(n as int),
                None => JsonView::Null,
            },
        ),
    );
    let e = e.push(("working_directory"@, text_or_null(x.working_directory)));
    let e = e.push(
        (
            "env"@,
            match x.env {
                Some(v) => JsonView::Object(env_entries(v)),
                None => JsonView::Null,
            },
        ),
    );
    e.push(("user"@, text_or_null(x.user)))
}

/// Appends the fields of a shell command.
pub fn push_exec_fields(entries: &mut Vec<(String, Json)>, x: &LocalShellExecAction)
    ensures
        final(entries).deep_view() == with_exec_fields(old(entries).deep_view(), x@),
{
    push_entry(entries, "command", list_to_wire(&x.command));
    push_entry(
        entries,
        "timeout_ms",
        match x.timeout_ms {
            Some(n) => Json::Int(n as i128),
            None => Json::Null,
        },
    );
    push_entry(entries, "working_directory", opt_text_json(&x.working_directory));
    push_entry(
        entries,
        "env",
        match &x.env {
            Some(v) => env_to_wire(v),
            None => Json::Null,
        },
    );
    push_entry(entries, "user", opt_text_json(&x.user));
}

impl Wire for LocalShellAction {
    open spec fn wire(v: LocalShellActionView) -> JsonView {
        match v {
            LocalShellActionView::Exec(x) => JsonView::Object(with_exec_fields(tagged("exec"@), x)),
        }
    }

    fn to_wire(&self) -> Json {
        broadcast use lemma_object_view;

        match self {
            LocalShellAction::Exec(x) => {
                let mut e = tag_entries("exec");
                push_exec_fields(&mut e, x);
                Json::Object(e)
            },
        }
    }
}

impl Wire for FunctionCallOutputPayload {
    open spec fn wire(v: FunctionCallOutputPayloadView) -> JsonView {
        match v.body {
            FunctionCallOutputBodyView::Text(s) => JsonView::Text(s),
            FunctionCallOutputBodyView::ContentItems(items) => list_wire::<
                FunctionCallOutputContentItem,
            >(items),
        }
    }

    fn to_wire(&self) -> Json {
        match &self.body {
            FunctionCallOutputBody::Text(s) => Json::Text(s.clone()),
            FunctionCallOutputBody::ContentItems(items) => list_to_wire(items),
        }
    }
}

/// The entries of the JSON image of a message part.
pub open spec fn content_item_entries(x: ContentItemView) -> Entries {
    match x {
        ContentItemView::InputText { text, .. } => {
            let e = tagged("input_text"@);
            let e = e.push(("text"@, JsonView::Text(text)));
            e
        },
        ContentItemView::InputImage { image_url, detail, .. } => {
            let e = tagged("input_image"@);
            let e = e.push(("image_url"@, JsonView::Text(image_url)));
            let e = and_opt_json(e, "detail"@, opt_wire::<ImageDetail>(detail));
            e
        },
        ContentItemView::InputAudio { audio_url, .. } => {
            let e = tagged("input_audio"@);
            let e = e.push(("audio_url"@, JsonView::Text(audio_url)));
            e
        },
        ContentItemView::OutputText { text, .. } => {
            let e = tagged("output_text"@);
            let e = e.push(("text"@, JsonView::Text(text)));
            e
        },
    }
}

impl Wire for ContentItem {
    open spec fn wire(v: ContentItemView) -> JsonView {
        JsonView::Object(content_item_entries(v))
    }

    fn to_wire(&self) -> Json {
        broadcast use lemma_object_view;

        match self {
            ContentItem::InputText { text, .. } => {
                let mut e = tag_entries("input_text");
                push_entry(&mut e, "text", Json::Text(text.clone()));
                Json::Object(e)
            },
            ContentItem::InputImage { image_url, detail, .. } => {
                let mut e = tag_entries("input_image");
                push_entry(&mut e, "image_url", Json::Text(image_url.clone()));
                push_opt_wire(&mut e, "detail", detail);
                Json::Object(e)
            },
            ContentItem::InputAudio { audio_url, .. } => {
                let mut e = tag_entries("input_audio");
                push_entry(&mut e, "audio_url", Json::Text(audio_url.clone()));
                Json::Object(e)
            },
            ContentItem::OutputText { text, .. } => {
                let mut e = tag_entries("output_text");
                push_entry(&mut e, "text", Json::Text(text.clone()));
                Json::Object(e)
            },
        }
    }
}

/// The entries of the JSON image of a part of a message between agents.
pub open spec fn agent_message_input_content_entries(x: AgentMessageInputContentView) -> Entries {
    match x {
        AgentMessageInputContentView::InputText { text, .. } => {
            let e = tagged("input_text"@);
            let e = e.push(("text"@, JsonView::Text(text)));
            e
        },
        AgentMessageInputContentView::EncryptedContent { encrypted_content, .. } => {
            let e = tagged("encrypted_content"@);
            let e = e.push(("encrypted_content"@, JsonView::Text(encrypted_content)));
            e
        },
    }
}

impl Wire for AgentMessageInputContent {
    open spec fn wire(v: AgentMessageInputContentView) -> JsonView {
        JsonView::Object(agent_message_input_content_entries(v))
    }

    fn to_wire(&self) -> Json {
        broadcast use lemma_object_view;

        match self {
            AgentMessageInputContent::InputText { text, .. } => {
                let mut e = tag_entries("input_text");
                push_entry(&mut e, "text", Json::Text(text.clone()));
                Json::Object(e)
            },
            AgentMessageInputContent::EncryptedContent { encrypted_content, .. } => {
                let mut e = tag_entries("encrypted_content");
                push_entry(&mut e, "encrypted_content", Json::Text(encrypted_content.clone()));
                Json::Object(e)
            },
        }
    }
}

/// The entries of the JSON image of a part of a reasoning summary.
pub open spec fn reasoning_item_reasoning_summary_entries(
    x: ReasoningItemReasoningSummaryView,
) -> Entries {
    match x {
        ReasoningItemReasoningSummaryView::SummaryText { text, .. } => {
            let e = tagged("summary_text"@);
            let e = e.push(("text"@, JsonView::Text(text)));
            e
        },
    }
}

impl Wire for ReasoningItemReasoningSummary {
    open spec fn wire(v: ReasoningItemReasoningSummaryView) -> JsonView {
        JsonView::Object(reasoning_item_reasoning_summary_entries(v))
    }

    fn to_wire(&self) -> Json {
        broadcast use lemma_object_view;

        match self {
            ReasoningItemReasoningSummary::SummaryText { text, .. } => {
                let mut e = tag_entries("summary_text");
                push_entry(&mut e, "text", Json::Text(text.clone()));
                Json::Object(e)
            },
        }
    }
}

/// The entries of the JSON image of a part of reasoning.
pub open spec fn reasoning_item_content_entries(x: ReasoningItemContentView) -> Entries {
    match x {
        ReasoningItemContentView::ReasoningText { text, .. } => {
            let e = tagged("reasoning_text"@);
            let e = e.push(("text"@, JsonView::Text(text)));
            e
        },
        ReasoningItemContentView::Text { text, .. } => {
            let e = tagged("text"@);
            let e = e.push(("text"@, JsonView::Text(text)));
            e
        },
    }
}

impl Wire for ReasoningItemContent {
    open spec fn wire(v: ReasoningItemContentView) -> JsonView {
        JsonView::Object(reasoning_item_content_entries(v))
    }

    fn to_wire(&self) -> Json {
        broadcast use lemma_object_view;

        match self {
            ReasoningItemContent::ReasoningText { text, .. } => {
                let mut e = tag_entries("reasoning_text");
                push_entry(&mut e, "text", Json::Text(text.clone()));
                Json::Object(e)
            },
            ReasoningItemContent::Text { text, .. } => {
                let mut e = tag_entries("text");
                push_entry(&mut e, "text", Json::Text(text.clone()));
                Json::Object(e)
            },
        }
    }
}

/// The entries of the JSON image of a part of a tool output.
pub open spec fn function_call_output_content_item_entries(
    x: FunctionCallOutputContentItemView,
) -> Entries {
    match x {
        FunctionCallOutputContentItemView::InputText { text, .. } => {
            let e = tagged("input_text"@);
            let e = e.push(("text"@, JsonView::Text(text)));
            e
        },
        FunctionCallOutputContentItemView::InputImage { image_url, detail, .. } => {
            let e = tagged("input_image"@);
            let e = e.push(("image_url"@, JsonView::Text(image_url)));
            let e = and_opt_json(e, "detail"@, opt_wire::<ImageDetail>(detail));
            e
        },
        FunctionCallOutputContentItemView::InputAudio { audio_url, .. } => {
            let e = tagged("input_audio"@);
            let e = e.push(("audio_url"@, JsonView::Text(audio_url)));
            e
        },
        FunctionCallOutputContentItemView::EncryptedContent { encrypted_content, .. } => {
            let e = tagged("encrypted_content"@);
            let e = e.push(("encrypted_content"@, JsonView::Text(encrypted_content)));
            e
        },
    }
}

impl Wire for FunctionCallOutputContentItem {
    open spec fn wire(v: FunctionCallOutputContentItemView) -> JsonView {
        JsonView::Object(function_call_output_content_item_entries(v))
    }

    fn to_wire(&self) -> Json {
        broadcast use lemma_object_view;

        match self {
            FunctionCallOutputContentItem::InputText { text, .. } => {
                let mut e = tag_entries("input_text");
                push_entry(&mut e, "text", Json::Text(text.clone()));
                Json::Object(e)
            },
            FunctionCallOutputContentItem::InputImage { image_url, detail, .. } => {
                let mut e = tag_entries("input_image");
                push_entry(&mut e, "image_url", Json::Text(image_url.clone()));
                push_opt_wire(&mut e, "detail", detail);
                Json::Object(e)
            },
            FunctionCallOutputContentItem::InputAudio { audio_url, .. } => {
                let mut e = tag_entries("input_audio");
                push_entry(&mut e, "audio_url", Json::Text(audio_url.clone()));
                Json::Object(e)
            },
            FunctionCallOutputContentItem::EncryptedContent { encrypted_content, .. } => {
                let mut e = tag_entries("encrypted_content");
                push_entry(&mut e, "encrypted_content", Json::Text(encrypted_content.clone()));
                Json::Object(e)
            },
        }
    }
}

/// The entries of the JSON image of a web search action.
pub open spec fn web_search_action_entries(x: WebSearchActionView) -> Entries {
    match x {
        WebSearchActionView::Search { query, queries, .. } => {
            let e = tagged("search"@);
            let e = and_opt_text(e, "query"@, query);
            let e = and_opt_list::<String>(e, "queries"@, queries);
            e
        },
        WebSearchActionView::OpenPage { url, .. } => {
            let e = tagged("open_page"@);
            let e = and_opt_text(e, "url"@, url);
            e
        },
        WebSearchActionView::FindInPage { url, pattern, .. } => {
            let e = tagged("find_in_page"@);
            let e = and_opt_text(e, "url"@, url);
            let e = and_opt_text(e, "pattern"@, pattern);
            e
        },
        WebSearchActionView::Other => tagged("other"@),
    }
}

impl Wire for WebSearchAction {
    open spec fn wire(v: WebSearchActionView) -> JsonView {
        JsonView::Object(web_search_action_entries(v))
    }

    fn to_wire(&self) -> Json {
        broadcast use lemma_object_view;

        match self {
            WebSearchAction::Search { query, queries, .. } => {
                let mut e = tag_entries("search");
                push_opt_text(&mut e, "query", query);
                push_opt_list(&mut e, "queries", queries);
                Json::Object(e)
            },
            WebSearchAction::OpenPage { url, .. } => {
                let mut e = tag_entries("open_page");
                push_opt_text(&mut e, "url", url);
                Json::Object(e)
            },
            WebSearchAction::FindInPage { url, pattern, .. } => {
                let mut e = tag_entries("find_in_page");
                push_opt_text(&mut e, "url", url);
                push_opt_text(&mut e, "pattern", pattern);
                Json::Object(e)
            },
            WebSearchAction::Other => Json::Object(tag_entries("other")),
        }
    }
}

/// The entries of the JSON image of a conversation item.
pub open spec fn response_item_entries(x: ResponseItemView) -> Entries {
    match x {
        ResponseItemView::Message {
            id,
            role,
            content,
            phase,
            internal_chat_message_metadata_passthrough,
            ..
        } => {
            let e = tagged("message"@);
            let e = and_opt_text(e, "id"@, id);
            let e = e.push(("role"@, JsonView::Text(role)));
            let e = e.push(("content"@, list_wire::<ContentItem>(content)));
            let e = and_opt_text(e, "phase"@, phase);
            let e = and_opt_json(
                e,
                "internal_chat_message_metadata_passthrough"@,
                internal_chat_message_metadata_passthrough,
            );
            e
        },
        ResponseItemView::AgentMessage {
            id,
            author,
            recipient,
            content,
            internal_chat_message_metadata_passthrough,
            ..
        } => {
            let e = tagged("agent_message"@);
            let e = and_opt_text(e, "id"@, id);
            let e = e.push(("author"@, JsonView::Text(author)));
            let e = e.push(("recipient"@, JsonView::Text(recipient)));
            let e = e.push(("content"@, list_wire::<AgentMessageInputContent>(content)));
            let e = and_opt_json(
                e,
                "internal_chat_message_metadata_passthrough"@,
                internal_chat_message_metadata_passthrough,
            );
            e
        },
        ResponseItemView::Reasoning {
            id,
            summary,
            content,
            encrypted_content,
            internal_chat_message_metadata_passthrough,
            ..
        } => {
            let e = tagged("reasoning"@);
            let e = and_opt_text(e, "id"@, id);
            let e = e.push(("summary"@, list_wire::<ReasoningItemReasoningSummary>(summary)));
            let e = and_opt_list::<ReasoningItemContent>(e, "content"@, content);
            let e = e.push(("encrypted_content"@, text_or_null(encrypted_content)));
            let e = and_opt_json(
                e,
                "internal_chat_message_metadata_passthrough"@,
                internal_chat_message_metadata_passthrough,
            );
            e
        },
        ResponseItemView::LocalShellCall {
            id,
            call_id,
            status,
            action,
            internal_chat_message_metadata_passthrough,
            ..
        } => {
            let e = tagged("local_shell_call"@);
            let e = and_opt_text(e, "id"@, id);
            let e = e.push(("call_id"@, text_or_null(call_id)));
            let e = e.push(("status"@, LocalShellStatus::wire(status)));
            let e = e.push(("action"@, LocalShellAction::wire(action)));
            let e = and_opt_json(
                e,
                "internal_chat_message_metadata_passthrough"@,
                internal_chat_message_metadata_passthrough,
            );
            e
        },
        ResponseItemView::FunctionCall {
            id,
            name,
            namespace,
            arguments,
            encrypted_function_args,
            call_id,
            internal_chat_message_metadata_passthrough,
            ..
        } => {
            let e = tagged("function_call"@);
            let e = and_opt_text(e, "id"@, id);
            let e = e.push(("name"@, JsonView::Text(name)));
            let e = and_opt_text(e, "namespace"@, namespace);
            let e = e.push(("arguments"@, JsonView::Text(arguments)));
            let e = and_opt_list::<String>(e, "encrypted_function_args"@, encrypted_function_args);
            let e = e.push(("call_id"@, JsonView::Text(call_id)));
            let e = and_opt_json(
                e,
                "internal_chat_message_metadata_passthrough"@,
                internal_chat_message_metadata_passthrough,
            );
            e
        },
        ResponseItemView::ToolSearchCall {
            id,
            call_id,
            status,
            execution,
            arguments,
            internal_chat_message_metadata_passthrough,
            ..
        } => {
            let e = tagged("tool_search_call"@);
            let e = and_opt_text(e, "id"@, id);
            let e = e.push(("call_id"@, text_or_null(call_id)));
            let e = and_opt_text(e, "status"@, status);
            let e = e.push(("execution"@, JsonView::Text(execution)));
            let e = e.push(("arguments"@, arguments));
            let e = and_opt_json(
                e,
                "internal_chat_message_metadata_passthrough"@,
                internal_chat_message_metadata_passthrough,
            );
            e
        },
        ResponseItemView::FunctionCallOutput {
            id,
            call_id,
            name,
            namespace,
            output,
            internal_chat_message_metadata_passthrough,
            ..
        } => {
            let e = tagged("function_call_output"@);
            let e = and_opt_text(e, "id"@, id);
            let e = and_opt_text(e, "call_id"@, call_id);
            let e = and_opt_text(e, "name"@, name);
            let e = and_opt_text(e, "namespace"@, namespace);
            let e = e.push(("output"@, FunctionCallOutputPayload::wire(output)));
            let e = and_opt_json(
                e,
                "internal_chat_message_metadata_passthrough"@,
                internal_chat_message_metadata_passthrough,
            );
            e
        },
        ResponseItemView::CustomToolCall {
            id,
            status,
            call_id,
            name,
            namespace,
            input,
            internal_chat_message_metadata_passthrough,
            ..
        } => {
            let e = tagged("custom_tool_call"@);
            let e = and_opt_text(e, "id"@, id);
            let e = and_opt_text(e, "status"@, status);
            let e = e.push(("call_id"@, JsonView::Text(call_id)));
            let e = e.push(("name"@, JsonView::Text(name)));
            let e = and_opt_text(e, "namespace"@, namespace);
            let e = e.push(("input"@, JsonView::Text(input)));
            let e = and_opt_json(
                e,
                "internal_chat_message_metadata_passthrough"@,
                internal_chat_message_metadata_passthrough,
            );
            e
        },
        ResponseItemView::CustomToolCallOutput {
            id,
            call_id,
            name,
            output,
            internal_chat_message_metadata_passthrough,
            ..
        } => {
            let e = tagged("custom_tool_call_output"@);
            let e = and_opt_text(e, "id"@, id);
            let e = e.push(("call_id"@, JsonView::Text(call_id)));
            let e = and_opt_text(e, "name"@, name);
            let e = e.push(("output"@, FunctionCallOutputPayload::wire(output)));
            let e = and_opt_json(
                e,
                "internal_chat_message_metadata_passthrough"@,
                internal_chat_message_metadata_passthrough,
            );
            e
        },
        ResponseItemView::ToolSearchOutput {
            id,
            call_id,
            status,
            execution,
            tools,
            internal_chat_message_metadata_passthrough,
            ..
        } => {
            let e = tagged("tool_search_output"@);
            let e = and_opt_text(e, "id"@, id);
            let e = e.push(("call_id"@, text_or_null(call_id)));
            let e = e.push(("status"@, JsonView::Text(status)));
            let e = e.push(("execution"@, JsonView::Text(execution)));
            let e = e.push(("tools"@, list_wire::<Json>(tools)));
            let e = and_opt_json(
                e,
                "internal_chat_message_metadata_passthrough"@,
                internal_chat_message_metadata_passthrough,
            );
            e
        },
        ResponseItemView::WebSearchCall {
            id,
            status,
            action,
            internal_chat_message_metadata_passthrough,
            ..
        } => {
            let e = tagged("web_search_call"@);
            let e = and_opt_text(e, "id"@, id);
            let e = and_opt_text(e, "status"@, status);
            let e = and_opt_json(e, "action"@, opt_wire::<WebSearchAction>(action));
            let e = and_opt_json(
                e,
                "internal_chat_message_metadata_passthrough"@,
                internal_chat_message_metadata_passthrough,
            );
            e
        },
        ResponseItemView::ImageGenerationCall {
            id,
            status,
            revised_prompt,
            result,
            internal_chat_message_metadata_passthrough,
            ..
        } => {
            let e = tagged("image_generation_call"@);
            let e = and_opt_text(e, "id"@, id);
            let e = e.push(("status"@, JsonView::Text(status)));
            let e = and_opt_text(e, "revised_prompt"@, revised_prompt);
            let e = e.push(("result"@, JsonView::Text(result)));
            let e = and_opt_json(
                e,
                "internal_chat_message_metadata_passthrough"@,
                internal_chat_message_metadata_passthrough,
            );
            e
        },
        ResponseItemView::AdditionalTools { id, role, tools, .. } => {
            let e = tagged("additional_tools"@);
            let e = and_opt_text(e, "id"@, id);
            let e = e.push(("role"@, JsonView::Text(role)));
            let e = e.push(("tools"@, list_wire::<Json>(tools)));
            e
        },
        ResponseItemView::Compaction {
            id,
            encrypted_content,
            internal_chat_message_metadata_passthrough,
            ..
        } => {
            let e = tagged("compaction"@);
            let e = and_opt_text(e, "id"@, id);
            let e = e.push(("encrypted_content"@, JsonView::Text(encrypted_content)));
            let e = and_opt_json(
                e,
                "internal_chat_message_metadata_passthrough"@,
                internal_chat_message_metadata_passthrough,
            );
            e
        },
        ResponseItemView::CompactionTrigger => tagged("compaction_trigger"@),
        ResponseItemView::ContextCompaction {
            id,
            encrypted_content,
            internal_chat_message_metadata_passthrough,
            ..
        } => {
            let e = tagged("context_compaction"@);
            let e = and_opt_text(e, "id"@, id);
            let e = and_opt_text(e, "encrypted_content"@, encrypted_content);
            let e = and_opt_json(
                e,
                "internal_chat_message_metadata_passthrough"@,
                internal_chat_message_metadata_passthrough,
            );
            e
        },
        ResponseItemView::Other => tagged("other"@),
    }
}

impl Wire for ResponseItem {
    open spec fn wire(v: ResponseItemView) -> JsonView {
        JsonView::Object(response_item_entries(v))
    }

    fn to_wire(&self) -> Json {
        broadcast use lemma_object_view;

        match self {
            ResponseItem::Message {
                id,
                role,
                content,
                phase,
                internal_chat_message_metadata_passthrough,
                ..
            } => {
                let mut e = tag_entries("message");
                push_opt_text(&mut e, "id", id);
                push_entry(&mut e, "role", Json::Text(role.clone()));
                push_entry(&mut e, "content", list_to_wire(content));
                push_opt_text(&mut e, "phase", phase);
                push_opt_json(
                    &mut e,
                    "internal_chat_message_metadata_passthrough",
                    internal_chat_message_metadata_passthrough,
                );
                Json::Object(e)
            },
            ResponseItem::AgentMessage {
                id,
                author,
                recipient,
                content,
                internal_chat_message_metadata_passthrough,
                ..
            } => {
                let mut e = tag_entries("agent_message");
                push_opt_text(&mut e, "id", id);
                push_entry(&mut e, "author", Json::Text(author.clone()));
                push_entry(&mut e, "recipient", Json::Text(recipient.clone()));
                push_entry(&mut e, "content", list_to_wire(content));
                push_opt_json(
                    &mut e,
                    "internal_chat_message_metadata_passthrough",
                    internal_chat_message_metadata_passthrough,
                );
                Json::Object(e)
            },
            ResponseItem::Reasoning {
                id,
                summary,
                content,
                encrypted_content,
                internal_chat_message_metadata_passthrough,
                ..
            } => {
                let mut e = tag_entries("reasoning");
                push_opt_text(&mut e, "id", id);
                push_entry(&mut e, "summary", list_to_wire(summary));
                push_opt_list(&mut e, "content", content);
                push_entry(&mut e, "encrypted_content", opt_text_json(encrypted_content));
                push_opt_json(
                    &mut e,
                    "internal_chat_message_metadata_passthrough",
                    internal_chat_message_metadata_passthrough,
                );
                Json::Object(e)
            },
            ResponseItem::LocalShellCall {
                id,
                call_id,
                status,
                action,
                internal_chat_message_metadata_passthrough,
                ..
            } => {
                let mut e = tag_entries("local_shell_call");
                push_opt_text(&mut e, "id", id);
                push_entry(&mut e, "call_id", opt_text_json(call_id));
                push_entry(&mut e, "status", status.to_wire());
                push_entry(&mut e, "action", action.to_wire());
                push_opt_json(
                    &mut e,
                    "internal_chat_message_metadata_passthrough",
                    internal_chat_message_metadata_passthrough,
                );
                Json::Object(e)
            },
            ResponseItem::FunctionCall {
                id,
                name,
                namespace,
                arguments,
                encrypted_function_args,
                call_id,
                internal_chat_message_metadata_passthrough,
                ..
            } => {
                let mut e = tag_entries("function_call");
                push_opt_text(&mut e, "id", id);
                push_entry(&mut e, "name", Json::Text(name.clone()));
                push_opt_text(&mut e, "namespace", namespace);
                push_entry(&mut e, "arguments", Json::Text(arguments.clone()));
                push_opt_list(&mut e, "encrypted_function_args", encrypted_function_args);
                push_entry(&mut e, "call_id", Json::Text(call_id.clone()));
                push_opt_json(
                    &mut e,
                    "internal_chat_message_metadata_passthrough",
                    internal_chat_message_metadata_passthrough,
                );
                Json::Object(e)
            },
            ResponseItem::ToolSearchCall {
                id,
                call_id,
                status,
                execution,
                arguments,
                internal_chat_message_metadata_passthrough,
                ..
            } => {
                let mut e = tag_entries("tool_search_call");
                push_opt_text(&mut e, "id", id);
                push_entry(&mut e, "call_id", opt_text_json(call_id));
                push_opt_text(&mut e, "status", status);
                push_entry(&mut e, "execution", Json::Text(execution.clone()));
                push_entry(&mut e, "arguments", arguments.clone());
                push_opt_json(
                    &mut e,
                    "internal_chat_message_metadata_passthrough",
                    internal_chat_message_metadata_passthrough,
                );
                Json::Object(e)
            },
            ResponseItem::FunctionCallOutput {
                id,
                call_id,
                name,
                namespace,
                output,
                internal_chat_message_metadata_passthrough,
                ..
            } => {
                let mut e = tag_entries("function_call_output");
                push_opt_text(&mut e, "id", id);
                push_opt_text(&mut e, "call_id", call_id);
                push_opt_text(&mut e, "name", name);
                push_opt_text(&mut e, "namespace", namespace);
                push_entry(&mut e, "output", output.to_wire());
                push_opt_json(
                    &mut e,
                    "internal_chat_message_metadata_passthrough",
                    internal_chat_message_metadata_passthrough,
                );
                Json::Object(e)
            },
            ResponseItem::CustomToolCall {
                id,
                status,
                call_id,
                name,
                namespace,
                input,
                internal_chat_message_metadata_passthrough,
                ..
            } => {
                let mut e = tag_entries("custom_tool_call");
                push_opt_text(&mut e, "id", id);
                push_opt_text(&mut e, "status", status);
                push_entry(&mut e, "call_id", Json::Text(call_id.clone()));
                push_entry(&mut e, "name", Json::Text(name.clone()));
                push_opt_text(&mut e, "namespace", namespace);
                push_entry(&mut e, "input", Json::Text(input.clone()));
                push_opt_json(
                    &mut e,
                    "internal_chat_message_metadata_passthrough",
                    internal_chat_message_metadata_passthrough,
                );
                Json::Object(e)
            },
            ResponseItem::CustomToolCallOutput {
                id,
                call_id,
                name,
                output,
                internal_chat_message_metadata_passthrough,
                ..
            } => {
                let mut e = tag_entries("custom_tool_call_output");
                push_opt_text(&mut e, "id", id);
                push_entry(&mut e, "call_id", Json::Text(call_id.clone()));
                push_opt_text(&mut e, "name", name);
                push_entry(&mut e, "output", output.to_wire());
                push_opt_json(
                    &mut e,
                    "internal_chat_message_metadata_passthrough",
                    internal_chat_message_metadata_passthrough,
                );
                Json::Object(e)
            },
            ResponseItem::ToolSearchOutput {
                id,
                call_id,
                status,
                execution,
                tools,
                internal_chat_message_metadata_passthrough,
                ..
            } => {
                let mut e = tag_entries("tool_search_output");
                push_opt_text(&mut e, "id", id);
                push_entry(&mut e, "call_id", opt_text_json(call_id));
                push_entry(&mut e, "status", Json::Text(status.clone()));
                push_entry(&mut e, "execution", Json::Text(execution.clone()));
                push_entry(&mut e, "tools", list_to_wire(tools));
                push_opt_json(
                    &mut e,
                    "internal_chat_message_metadata_passthrough",
                    internal_chat_message_metadata_passthrough,
                );
                Json::Object(e)
            },
            ResponseItem::WebSearchCall {
                id,
                status,
                action,
                internal_chat_message_metadata_passthrough,
                ..
            } => {
                let mut e = tag_entries("web_search_call");
                push_opt_text(&mut e, "id", id);
                push_opt_text(&mut e, "status", status);
                push_opt_wire(&mut e, "action", action);
                push_opt_json(
                    &mut e,
                    "internal_chat_message_metadata_passthrough",
                    internal_chat_message_metadata_passthrough,
                );
                Json::Object(e)
            },
            ResponseItem::ImageGenerationCall {
                id,
                status,
                revised_prompt,
                result,
                internal_chat_message_metadata_passthrough,
                ..
            } => {
                let mut e = tag_entries("image_generation_call");
                push_opt_text(&mut e, "id", id);
                push_entry(&mut e, "status", Json::Text(status.clone()));
                push_opt_text(&mut e, "revised_prompt", revised_prompt);
                push_entry(&mut e, "result", Json::Text(result.clone()));
                push_opt_json(
                    &mut e,
                    "internal_chat_message_metadata_passthrough",
                    internal_chat_message_metadata_passthrough,
                );
                Json::Object(e)
            },
            ResponseItem::AdditionalTools { id, role, tools, .. } => {
                let mut e = tag_entries("additional_tools");
                push_opt_text(&mut e, "id", id);
                push_entry(&mut e, "role", Json::Text(role.clone()));
                push_entry(&mut e, "tools", list_to_wire(tools));
                Json::Object(e)
            },
            ResponseItem::Compaction {
                id,
                encrypted_content,
                internal_chat_message_metadata_passthrough,
                ..
            } => {
                let mut e = tag_entries("compaction");
                push_opt_text(&mut e, "id", id);
                push_entry(&mut e, "encrypted_content", Json::Text(encrypted_content.clone()));
                push_opt_json(
                    &mut e,
                    "internal_chat_message_metadata_passthrough",
                    internal_chat_message_metadata_passthrough,
                );
                Json::Object(e)
            },
            ResponseItem::CompactionTrigger => Json::Object(tag_entries("compaction_trigger")),
            ResponseItem::ContextCompaction {
                id,
                encrypted_content,
                internal_chat_message_metadata_passthrough,
                ..
            } => {
                let mut e = tag_entries("context_compaction");
                push_opt_text(&mut e, "id", id);
                push_opt_text(&mut e, "encrypted_content", encrypted_content);
                push_opt_json(
                    &mut e,
                    "internal_chat_message_metadata_passthrough",
                    internal_chat_message_metadata_passthrough,
                );
                Json::Object(e)
            },
            ResponseItem::Other => Json::Object(tag_entries("other")),
        }
    }
}

} // verus!
