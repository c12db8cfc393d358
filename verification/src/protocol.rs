//! The items of a conversation, as the host keeps them and sends them.

use vstd::prelude::*;

use crate::json::{Json, JsonView};

verus! {

/// How closely the model should look at an image.
#[derive(Debug, Clone, Copy, PartialEq, Eq, Structural)]
pub enum ImageDetail {
    Auto,
    Low,
    High,
    Original,
}

impl DeepView for ImageDetail {
    type V = ImageDetail;

    open spec fn deep_view(&self) -> ImageDetail {
        *self
    }
}

/// How far a local shell call has come.
#[derive(Debug, Clone, Copy, PartialEq, Eq, Structural)]
pub enum LocalShellStatus {
    Completed,
    InProgress,
    Incomplete,
}

impl DeepView for LocalShellStatus {
    type V = LocalShellStatus;

    open spec fn deep_view(&self) -> LocalShellStatus {
        *self
    }
}

/// One part of a message.
#[derive(Debug, PartialEq, Eq)]
pub enum ContentItem {
    InputText { text: String },
    InputImage { image_url: String, detail: Option<ImageDetail> },
    InputAudio { audio_url: String },
    OutputText { text: String },
}

/// What a [`ContentItem`] stands for.
#[verifier::ext_equal]
pub enum ContentItemView {
    InputText { text: Seq<char> },
    InputImage { image_url: Seq<char>, detail: Option<ImageDetail> },
    InputAudio { audio_url: Seq<char> },
    OutputText { text: Seq<char> },
}

impl View for ContentItem {
    type V = ContentItemView;

    open spec fn view(&self) -> ContentItemView {
        match self {
            ContentItem::InputText { text } => ContentItemView::InputText {
                text: text.deep_view(),
            },
            ContentItem::InputImage { image_url, detail } => ContentItemView::InputImage {
                image_url: image_url.deep_view(),
                detail: detail.deep_view(),
            },
            ContentItem::InputAudio { audio_url } => ContentItemView::InputAudio {
                audio_url: audio_url.deep_view(),
            },
            ContentItem::OutputText { text } => ContentItemView::OutputText {
                text: text.deep_view(),
            },
        }
    }
}

impl DeepView for ContentItem {
    type V = ContentItemView;

    open spec fn deep_view(&self) -> ContentItemView {
        self@
    }
}

impl Clone for ContentItem {
    fn clone(&self) -> (r: Self)
        ensures
            r@ == self@,
            r.deep_view() == self.deep_view(),
    {
        match self {
            ContentItem::InputText { text } => ContentItem::InputText { text: text.clone() },
            ContentItem::InputImage { image_url, detail } => ContentItem::InputImage {
                image_url: image_url.clone(),
                detail: detail.clone(),
            },
            ContentItem::InputAudio { audio_url } => ContentItem::InputAudio {
                audio_url: audio_url.clone(),
            },
            ContentItem::OutputText { text } => ContentItem::OutputText { text: text.clone() },
        }
    }
}

/// One part of a message between agents.
#[derive(Debug, PartialEq, Eq)]
pub enum AgentMessageInputContent {
    InputText { text: String },
    EncryptedContent { encrypted_content: String },
}

/// What a [`AgentMessageInputContent`] stands for.
#[verifier::ext_equal]
pub enum AgentMessageInputContentView {
    InputText { text: Seq<char> },
    EncryptedContent { encrypted_content: Seq<char> },
}

impl View for AgentMessageInputContent {
    type V = AgentMessageInputContentView;

    open spec fn view(&self) -> AgentMessageInputContentView {
        match self {
            AgentMessageInputContent::InputText {
                text,
            } => AgentMessageInputContentView::InputText { text: text.deep_view() },
            AgentMessageInputContent::EncryptedContent {
                encrypted_content,
            } => AgentMessageInputContentView::EncryptedContent {
                encrypted_content: encrypted_content.deep_view(),
            },
        }
    }
}

impl DeepView for AgentMessageInputContent {
    type V = AgentMessageInputContentView;

    open spec fn deep_view(&self) -> AgentMessageInputContentView {
        self@
    }
}

impl Clone for AgentMessageInputContent {
    fn clone(&self) -> (r: Self)
        ensures
            r@ == self@,
            r.deep_view() == self.deep_view(),
    {
        match self {
            AgentMessageInputContent::InputText { text } => AgentMessageInputContent::InputText {
                text: text.clone(),
            },
            AgentMessageInputContent::EncryptedContent {
                encrypted_content,
            } => AgentMessageInputContent::EncryptedContent {
                encrypted_content: encrypted_content.clone(),
            },
        }
    }
}

/// One part of a reasoning summary.
#[derive(Debug, PartialEq, Eq)]
pub enum ReasoningItemReasoningSummary {
    SummaryText { text: String },
}

/// What a [`ReasoningItemReasoningSummary`] stands for.
#[verifier::ext_equal]
pub enum ReasoningItemReasoningSummaryView {
    SummaryText { text: Seq<char> },
}

impl View for ReasoningItemReasoningSummary {
    type V = ReasoningItemReasoningSummaryView;

    open spec fn view(&self) -> ReasoningItemReasoningSummaryView {
        match self {
            ReasoningItemReasoningSummary::SummaryText {
                text,
            } => ReasoningItemReasoningSummaryView::SummaryText { text: text.deep_view() },
        }
    }
}

impl DeepView for ReasoningItemReasoningSummary {
    type V = ReasoningItemReasoningSummaryView;

    open spec fn deep_view(&self) -> ReasoningItemReasoningSummaryView {
        self@
    }
}

impl Clone for ReasoningItemReasoningSummary {
    fn clone(&self) -> (r: Self)
        ensures
            r@ == self@,
            r.deep_view() == self.deep_view(),
    {
        match self {
            ReasoningItemReasoningSummary::SummaryText {
                text,
            } => ReasoningItemReasoningSummary::SummaryText { text: text.clone() },
        }
    }
}

/// One part of the reasoning itself.
#[derive(Debug, PartialEq, Eq)]
pub enum ReasoningItemContent {
    ReasoningText { text: String },
    Text { text: String },
}

/// What a [`ReasoningItemContent`] stands for.
#[verifier::ext_equal]
pub enum ReasoningItemContentView {
    ReasoningText { text: Seq<char> },
    Text { text: Seq<char> },
}

impl View for ReasoningItemContent {
    type V = ReasoningItemContentView;

    open spec fn view(&self) -> ReasoningItemContentView {
        match self {
            ReasoningItemContent::ReasoningText {
                text,
            } => ReasoningItemContentView::ReasoningText { text: text.deep_view() },
            ReasoningItemContent::Text { text } => ReasoningItemContentView::Text {
                text: text.deep_view(),
            },
        }
    }
}

impl DeepView for ReasoningItemContent {
    type V = ReasoningItemContentView;

    open spec fn deep_view(&self) -> ReasoningItemContentView {
        self@
    }
}

impl Clone for ReasoningItemContent {
    fn clone(&self) -> (r: Self)
        ensures
            r@ == self@,
            r.deep_view() == self.deep_view(),
    {
        match self {
            ReasoningItemContent::ReasoningText { text } => ReasoningItemContent::ReasoningText {
                text: text.clone(),
            },
            ReasoningItemContent::Text { text } => ReasoningItemContent::Text {
                text: text.clone(),
            },
        }
    }
}

/// One part of a tool output.
#[derive(Debug, PartialEq, Eq)]
pub enum FunctionCallOutputContentItem {
    InputText { text: String },
    InputImage { image_url: String, detail: Option<ImageDetail> },
    InputAudio { audio_url: String },
    EncryptedContent { encrypted_content: String },
}

/// What a [`FunctionCallOutputContentItem`] stands for.
#[verifier::ext_equal]
pub enum FunctionCallOutputContentItemView {
    InputText { text: Seq<char> },
    InputImage { image_url: Seq<char>, detail: Option<ImageDetail> },
    InputAudio { audio_url: Seq<char> },
    EncryptedContent { encrypted_content: Seq<char> },
}

impl View for FunctionCallOutputContentItem {
    type V = FunctionCallOutputContentItemView;

    open spec fn view(&self) -> FunctionCallOutputContentItemView {
        match self {
            FunctionCallOutputContentItem::InputText {
                text,
            } => FunctionCallOutputContentItemView::InputText { text: text.deep_view() },
            FunctionCallOutputContentItem::InputImage {
                image_url,
                detail,
            } => FunctionCallOutputContentItemView::InputImage {
                image_url: image_url.deep_view(),
                detail: detail.deep_view(),
            },
            FunctionCallOutputContentItem::InputAudio {
                audio_url,
            } => FunctionCallOutputContentItemView::InputAudio { audio_url: audio_url.deep_view() },
            FunctionCallOutputContentItem::EncryptedContent {
                encrypted_content,
            } => FunctionCallOutputContentItemView::EncryptedContent {
                encrypted_content: encrypted_content.deep_view(),
            },
        }
    }
}

impl DeepView for FunctionCallOutputContentItem {
    type V = FunctionCallOutputContentItemView;

    open spec fn deep_view(&self) -> FunctionCallOutputContentItemView {
        self@
    }
}

impl Clone for FunctionCallOutputContentItem {
    fn clone(&self) -> (r: Self)
        ensures
            r@ == self@,
            r.deep_view() == self.deep_view(),
    {
        match self {
            FunctionCallOutputContentItem::InputText {
                text,
            } => FunctionCallOutputContentItem::InputText { text: text.clone() },
            FunctionCallOutputContentItem::InputImage {
                image_url,
                detail,
            } => FunctionCallOutputContentItem::InputImage {
                image_url: image_url.clone(),
                detail: detail.clone(),
            },
            FunctionCallOutputContentItem::InputAudio {
                audio_url,
            } => FunctionCallOutputContentItem::InputAudio { audio_url: audio_url.clone() },
            FunctionCallOutputContentItem::EncryptedContent {
                encrypted_content,
            } => FunctionCallOutputContentItem::EncryptedContent {
                encrypted_content: encrypted_content.clone(),
            },
        }
    }
}

/// What a tool returned.
#[derive(Debug, PartialEq, Eq)]
pub enum FunctionCallOutputBody {
    Text(String),
    ContentItems(Vec<FunctionCallOutputContentItem>),
}

/// What a [`FunctionCallOutputBody`] stands for.
#[verifier::ext_equal]
pub enum FunctionCallOutputBodyView {
    Text(Seq<char>),
    ContentItems(Seq<FunctionCallOutputContentItemView>),
}

impl View for FunctionCallOutputBody {
    type V = FunctionCallOutputBodyView;

    open spec fn view(&self) -> FunctionCallOutputBodyView {
        match self {
            FunctionCallOutputBody::Text(x) => FunctionCallOutputBodyView::Text(x.deep_view()),
            FunctionCallOutputBody::ContentItems(x) => FunctionCallOutputBodyView::ContentItems(
                x.deep_view(),
            ),
        }
    }
}

impl DeepView for FunctionCallOutputBody {
    type V = FunctionCallOutputBodyView;

    open spec fn deep_view(&self) -> FunctionCallOutputBodyView {
        self@
    }
}

impl Clone for FunctionCallOutputBody {
    fn clone(&self) -> (r: Self)
        ensures
            r@ == self@,
            r.deep_view() == self.deep_view(),
    {
        match self {
            FunctionCallOutputBody::Text(x) => FunctionCallOutputBody::Text(x.clone()),
            FunctionCallOutputBody::ContentItems(x) => FunctionCallOutputBody::ContentItems(
                x.clone(),
            ),
        }
    }
}

/// What a tool returned, and whether it succeeded.
#[derive(Debug, PartialEq, Eq)]
pub struct FunctionCallOutputPayload {
    pub body: FunctionCallOutputBody,
    pub success: Option<bool>,
}

/// What a [`FunctionCallOutputPayload`] stands for.
#[verifier::ext_equal]
pub struct FunctionCallOutputPayloadView {
    pub body: FunctionCallOutputBodyView,
    pub success: Option<bool>,
}

impl View for FunctionCallOutputPayload {
    type V = FunctionCallOutputPayloadView;

    open spec fn view(&self) -> FunctionCallOutputPayloadView {
        FunctionCallOutputPayloadView {
            body: self.body.deep_view(),
            success: self.success.deep_view(),
        }
    }
}

impl DeepView for FunctionCallOutputPayload {
    type V = FunctionCallOutputPayloadView;

    open spec fn deep_view(&self) -> FunctionCallOutputPayloadView {
        self@
    }
}

impl Clone for FunctionCallOutputPayload {
    fn clone(&self) -> (r: Self)
        ensures
            r@ == self@,
            r.deep_view() == self.deep_view(),
    {
        FunctionCallOutputPayload {
            body: self.body.clone(),
            success: self.success.clone(),
        }
    }
}

/// One variable of a command environment.
#[derive(Debug, PartialEq, Eq)]
pub struct EnvVar {
    pub name: String,
    pub value: String,
}

/// What a [`EnvVar`] stands for.
#[verifier::ext_equal]
pub struct EnvVarView {
    pub name: Seq<char>,
    pub value: Seq<char>,
}

impl View for EnvVar {
    type V = EnvVarView;

    open spec fn view(&self) -> EnvVarView {
        EnvVarView {
            name: self.name.deep_view(),
            value: self.value.deep_view(),
        }
    }
}

impl DeepView for EnvVar {
    type V = EnvVarView;

    open spec fn deep_view(&self) -> EnvVarView {
        self@
    }
}

impl Clone for EnvVar {
    fn clone(&self) -> (r: Self)
        ensures
            r@ == self@,
            r.deep_view() == self.deep_view(),
    {
        EnvVar {
            name: self.name.clone(),
            value: self.value.clone(),
        }
    }
}

/// A command for the local shell.
#[derive(Debug, PartialEq, Eq)]
pub struct LocalShellExecAction {
    pub command: Vec<String>,
    pub timeout_ms: Option<u64>,
    pub working_directory: Option<String>,
    pub env: Option<Vec<EnvVar>>,
    pub user: Option<String>,
}

/// What a [`LocalShellExecAction`] stands for.
#[verifier::ext_equal]
pub struct LocalShellExecActionView {
    pub command: Seq<Seq<char>>,
    pub timeout_ms: Option<u64>,
    pub working_directory: Option<Seq<char>>,
    pub env: Option<Seq<EnvVarView>>,
    pub user: Option<Seq<char>>,
}

impl View for LocalShellExecAction {
    type V = LocalShellExecActionView;

    open spec fn view(&self) -> LocalShellExecActionView {
        LocalShellExecActionView {
            command: self.command.deep_view(),
            timeout_ms: self.timeout_ms.deep_view(),
            working_directory: self.working_directory.deep_view(),
            env: self.env.deep_view(),
            user: self.user.deep_view(),
        }
    }
}

impl DeepView for LocalShellExecAction {
    type V = LocalShellExecActionView;

    open spec fn deep_view(&self) -> LocalShellExecActionView {
        self@
    }
}

impl Clone for LocalShellExecAction {
    fn clone(&self) -> (r: Self)
        ensures
            r@ == self@,
            r.deep_view() == self.deep_view(),
    {
        LocalShellExecAction {
            command: self.command.clone(),
            timeout_ms: self.timeout_ms.clone(),
            working_directory: self.working_directory.clone(),
            env: self.env.clone(),
            user: self.user.clone(),
        }
    }
}

/// What a local shell call does.
#[derive(Debug, PartialEq, Eq)]
pub enum LocalShellAction {
    Exec(LocalShellExecAction),
}

/// What a [`LocalShellAction`] stands for.
#[verifier::ext_equal]
pub enum LocalShellActionView {
    Exec(LocalShellExecActionView),
}

impl View for LocalShellAction {
    type V = LocalShellActionView;

    open spec fn view(&self) -> LocalShellActionView {
        match self {
            LocalShellAction::Exec(x) => LocalShellActionView::Exec(x.deep_view()),
        }
    }
}

impl DeepView for LocalShellAction {
    type V = LocalShellActionView;

    open spec fn deep_view(&self) -> LocalShellActionView {
        self@
    }
}

impl Clone for LocalShellAction {
    fn clone(&self) -> (r: Self)
        ensures
            r@ == self@,
            r.deep_view() == self.deep_view(),
    {
        match self {
            LocalShellAction::Exec(x) => LocalShellAction::Exec(x.clone()),
        }
    }
}

/// What a web search call does.
#[derive(Debug, PartialEq, Eq)]
pub enum WebSearchAction {
    Search { query: Option<String>, queries: Option<Vec<String>> },
    OpenPage { url: Option<String> },
    FindInPage { url: Option<String>, pattern: Option<String> },
    Other,
}

/// What a [`WebSearchAction`] stands for.
#[verifier::ext_equal]
pub enum WebSearchActionView {
    Search { query: Option<Seq<char>>, queries: Option<Seq<Seq<char>>> },
    OpenPage { url: Option<Seq<char>> },
    FindInPage { url: Option<Seq<char>>, pattern: Option<Seq<char>> },
    Other,
}

impl View for WebSearchAction {
    type V = WebSearchActionView;

    open spec fn view(&self) -> WebSearchActionView {
        match self {
            WebSearchAction::Search { query, queries } => WebSearchActionView::Search {
                query: query.deep_view(),
                queries: queries.deep_view(),
            },
            WebSearchAction::OpenPage { url } => WebSearchActionView::OpenPage {
                url: url.deep_view(),
            },
            WebSearchAction::FindInPage { url, pattern } => WebSearchActionView::FindInPage {
                url: url.deep_view(),
                pattern: pattern.deep_view(),
            },
            WebSearchAction::Other => WebSearchActionView::Other,
        }
    }
}

impl DeepView for WebSearchAction {
    type V = WebSearchActionView;

    open spec fn deep_view(&self) -> WebSearchActionView {
        self@
    }
}

impl Clone for WebSearchAction {
    fn clone(&self) -> (r: Self)
        ensures
            r@ == self@,
            r.deep_view() == self.deep_view(),
    {
        match self {
            WebSearchAction::Search { query, queries } => WebSearchAction::Search {
                query: query.clone(),
                queries: queries.clone(),
            },
            WebSearchAction::OpenPage { url } => WebSearchAction::OpenPage { url: url.clone() },
            WebSearchAction::FindInPage { url, pattern } => WebSearchAction::FindInPage {
                url: url.clone(),
                pattern: pattern.clone(),
            },
            WebSearchAction::Other => WebSearchAction::Other,
        }
    }
}

/// One item of the conversation that the host keeps and sends.
#[derive(Debug, PartialEq, Eq)]
#[allow(inconsistent_fields)]
pub enum ResponseItem {
    Message {
        id: Option<String>,
        role: String,
        content: Vec<ContentItem>,
        phase: Option<String>,
        internal_chat_message_metadata_passthrough: Option<Json>,
    },
    AgentMessage {
        id: Option<String>,
        author: String,
        recipient: String,
        content: Vec<AgentMessageInputContent>,
        internal_chat_message_metadata_passthrough: Option<Json>,
    },
    Reasoning {
        id: Option<String>,
        summary: Vec<ReasoningItemReasoningSummary>,
        content: Option<Vec<ReasoningItemContent>>,
        encrypted_content: Option<String>,
        internal_chat_message_metadata_passthrough: Option<Json>,
    },
    LocalShellCall {
        id: Option<String>,
        call_id: Option<String>,
        status: LocalShellStatus,
        action: LocalShellAction,
        internal_chat_message_metadata_passthrough: Option<Json>,
    },
    FunctionCall {
        id: Option<String>,
        name: String,
        namespace: Option<String>,
        arguments: String,
        encrypted_function_args: Option<Vec<String>>,
        call_id: String,
        internal_chat_message_metadata_passthrough: Option<Json>,
    },
    ToolSearchCall {
        id: Option<String>,
        call_id: Option<String>,
        status: Option<String>,
        execution: String,
        arguments: Json,
        internal_chat_message_metadata_passthrough: Option<Json>,
    },
    FunctionCallOutput {
        id: Option<String>,
        call_id: Option<String>,
        name: Option<String>,
        namespace: Option<String>,
        output: FunctionCallOutputPayload,
        internal_chat_message_metadata_passthrough: Option<Json>,
    },
    CustomToolCall {
        id: Option<String>,
        status: Option<String>,
        call_id: String,
        name: String,
        namespace: Option<String>,
        input: String,
        internal_chat_message_metadata_passthrough: Option<Json>,
    },
    CustomToolCallOutput {
        id: Option<String>,
        call_id: String,
        name: Option<String>,
        output: FunctionCallOutputPayload,
        internal_chat_message_metadata_passthrough: Option<Json>,
    },
    ToolSearchOutput {
        id: Option<String>,
        call_id: Option<String>,
        status: String,
        execution: String,
        tools: Vec<Json>,
        internal_chat_message_metadata_passthrough: Option<Json>,
    },
    WebSearchCall {
        id: Option<String>,
        status: Option<String>,
        action: Option<WebSearchAction>,
        internal_chat_message_metadata_passthrough: Option<Json>,
    },
    ImageGenerationCall {
        id: Option<String>,
        status: String,
        revised_prompt: Option<String>,
        result: String,
        internal_chat_message_metadata_passthrough: Option<Json>,
    },
    AdditionalTools { id: Option<String>, role: String, tools: Vec<Json> },
    Compaction {
        id: Option<String>,
        encrypted_content: String,
        internal_chat_message_metadata_passthrough: Option<Json>,
    },
    CompactionTrigger,
    ContextCompaction {
        id: Option<String>,
        encrypted_content: Option<String>,
        internal_chat_message_metadata_passthrough: Option<Json>,
    },
    Other,
}

/// What a [`ResponseItem`] stands for.
#[verifier::ext_equal]
#[allow(inconsistent_fields)]
pub enum ResponseItemView {
    Message {
        id: Option<Seq<char>>,
        role: Seq<char>,
        content: Seq<ContentItemView>,
        phase: Option<Seq<char>>,
        internal_chat_message_metadata_passthrough: Option<JsonView>,
    },
    AgentMessage {
        id: Option<Seq<char>>,
        author: Seq<char>,
        recipient: Seq<char>,
        content: Seq<AgentMessageInputContentView>,
        internal_chat_message_metadata_passthrough: Option<JsonView>,
    },
    Reasoning {
        id: Option<Seq<char>>,
        summary: Seq<ReasoningItemReasoningSummaryView>,
        content: Option<Seq<ReasoningItemContentView>>,
        encrypted_content: Option<Seq<char>>,
        internal_chat_message_metadata_passthrough: Option<JsonView>,
    },
    LocalShellCall {
        id: Option<Seq<char>>,
        call_id: Option<Seq<char>>,
        status: LocalShellStatus,
        action: LocalShellActionView,
        internal_chat_message_metadata_passthrough: Option<JsonView>,
    },
    FunctionCall {
        id: Option<Seq<char>>,
        name: Seq<char>,
        namespace: Option<Seq<char>>,
        arguments: Seq<char>,
        encrypted_function_args: Option<Seq<Seq<char>>>,
        call_id: Seq<char>,
        internal_chat_message_metadata_passthrough: Option<JsonView>,
    },
    ToolSearchCall {
        id: Option<Seq<char>>,
        call_id: Option<Seq<char>>,
        status: Option<Seq<char>>,
        execution: Seq<char>,
        arguments: JsonView,
        internal_chat_message_metadata_passthrough: Option<JsonView>,
    },
    FunctionCallOutput {
        id: Option<Seq<char>>,
        call_id: Option<Seq<char>>,
        name: Option<Seq<char>>,
        namespace: Option<Seq<char>>,
        output: FunctionCallOutputPayloadView,
        internal_chat_message_metadata_passthrough: Option<JsonView>,
    },
    CustomToolCall {
        id: Option<Seq<char>>,
        status: Option<Seq<char>>,
        call_id: Seq<char>,
        name: Seq<char>,
        namespace: Option<Seq<char>>,
        input: Seq<char>,
        internal_chat_message_metadata_passthrough: Option<JsonView>,
    },
    CustomToolCallOutput {
        id: Option<Seq<char>>,
        call_id: Seq<char>,
        name: Option<Seq<char>>,
        output: FunctionCallOutputPayloadView,
        internal_chat_message_metadata_passthrough: Option<JsonView>,
    },
    ToolSearchOutput {
        id: Option<Seq<char>>,
        call_id: Option<Seq<char>>,
        status: Seq<char>,
        execution: Seq<char>,
        tools: Seq<JsonView>,
        internal_chat_message_metadata_passthrough: Option<JsonView>,
    },
    WebSearchCall {
        id: Option<Seq<char>>,
        status: Option<Seq<char>>,
        action: Option<WebSearchActionView>,
        internal_chat_message_metadata_passthrough: Option<JsonView>,
    },
    ImageGenerationCall {
        id: Option<Seq<char>>,
        status: Seq<char>,
        revised_prompt: Option<Seq<char>>,
        result: Seq<char>,
        internal_chat_message_metadata_passthrough: Option<JsonView>,
    },
    AdditionalTools { id: Option<Seq<char>>, role: Seq<char>, tools: Seq<JsonView> },
    Compaction {
        id: Option<Seq<char>>,
        encrypted_content: Seq<char>,
        internal_chat_message_metadata_passthrough: Option<JsonView>,
    },
    CompactionTrigger,
    ContextCompaction {
        id: Option<Seq<char>>,
        encrypted_content: Option<Seq<char>>,
        internal_chat_message_metadata_passthrough: Option<JsonView>,
    },
    Other,
}

impl View for ResponseItem {
    type V = ResponseItemView;

    open spec fn view(&self) -> ResponseItemView {
        match self {
            ResponseItem::Message {
                id,
                role,
                content,
                phase,
                internal_chat_message_metadata_passthrough,
            } => ResponseItemView::Message {
                id: id.deep_view(),
                role: role.deep_view(),
                content: content.deep_view(),
                phase: phase.deep_view(),
                internal_chat_message_metadata_passthrough: internal_chat_message_metadata_passthrough.deep_view(),
            },
            ResponseItem::AgentMessage {
                id,
                author,
                recipient,
                content,
                internal_chat_message_metadata_passthrough,
            } => ResponseItemView::AgentMessage {
                id: id.deep_view(),
                author: author.deep_view(),
                recipient: recipient.deep_view(),
                content: content.deep_view(),
                internal_chat_message_metadata_passthrough: internal_chat_message_metadata_passthrough.deep_view(),
            },
            ResponseItem::Reasoning {
                id,
                summary,
                content,
                encrypted_content,
                internal_chat_message_metadata_passthrough,
            } => ResponseItemView::Reasoning {
                id: id.deep_view(),
                summary: summary.deep_view(),
                content: content.deep_view(),
                encrypted_content: encrypted_content.deep_view(),
                internal_chat_message_metadata_passthrough: internal_chat_message_metadata_passthrough.deep_view(),
            },
            ResponseItem::LocalShellCall {
                id,
                call_id,
                status,
                action,
                internal_chat_message_metadata_passthrough,
            } => ResponseItemView::LocalShellCall {
                id: id.deep_view(),
                call_id: call_id.deep_view(),
                status: status.deep_view(),
                action: action.deep_view(),
                internal_chat_message_metadata_passthrough: internal_chat_message_metadata_passthrough.deep_view(),
            },
            ResponseItem::FunctionCall {
                id,
                name,
                namespace,
                arguments,
                encrypted_function_args,
                call_id,
                internal_chat_message_metadata_passthrough,
            } => ResponseItemView::FunctionCall {
                id: id.deep_view(),
                name: name.deep_view(),
                namespace: namespace.deep_view(),
                arguments: arguments.deep_view(),
                encrypted_function_args: encrypted_function_args.deep_view(),
                call_id: call_id.deep_view(),
                internal_chat_message_metadata_passthrough: internal_chat_message_metadata_passthrough.deep_view(),
            },
            ResponseItem::ToolSearchCall {
                id,
                call_id,
                status,
                execution,
                arguments,
                internal_chat_message_metadata_passthrough,
            } => ResponseItemView::ToolSearchCall {
                id: id.deep_view(),
                call_id: call_id.deep_view(),
                status: status.deep_view(),
                execution: execution.deep_view(),
                arguments: arguments.deep_view(),
                internal_chat_message_metadata_passthrough: internal_chat_message_metadata_passthrough.deep_view(),
            },
            ResponseItem::FunctionCallOutput {
                id,
                call_id,
                name,
                namespace,
                output,
                internal_chat_message_metadata_passthrough,
            } => ResponseItemView::FunctionCallOutput {
                id: id.deep_view(),
                call_id: call_id.deep_view(),
                name: name.deep_view(),
                namespace: namespace.deep_view(),
                output: output.deep_view(),
                internal_chat_message_metadata_passthrough: internal_chat_message_metadata_passthrough.deep_view(),
            },
            ResponseItem::CustomToolCall {
                id,
                status,
                call_id,
                name,
                namespace,
                input,
                internal_chat_message_metadata_passthrough,
            } => ResponseItemView::CustomToolCall {
                id: id.deep_view(),
                status: status.deep_view(),
                call_id: call_id.deep_view(),
                name: name.deep_view(),
                namespace: namespace.deep_view(),
                input: input.deep_view(),
                internal_chat_message_metadata_passthrough: internal_chat_message_metadata_passthrough.deep_view(),
            },
            ResponseItem::CustomToolCallOutput {
                id,
                call_id,
                name,
                output,
                internal_chat_message_metadata_passthrough,
            } => ResponseItemView::CustomToolCallOutput {
                id: id.deep_view(),
                call_id: call_id.deep_view(),
                name: name.deep_view(),
                output: output.deep_view(),
                internal_chat_message_metadata_passthrough: internal_chat_message_metadata_passthrough.deep_view(),
            },
            ResponseItem::ToolSearchOutput {
                id,
                call_id,
                status,
                execution,
                tools,
                internal_chat_message_metadata_passthrough,
            } => ResponseItemView::ToolSearchOutput {
                id: id.deep_view(),
                call_id: call_id.deep_view(),
                status: status.deep_view(),
                execution: execution.deep_view(),
                tools: tools.deep_view(),
                internal_chat_message_metadata_passthrough: internal_chat_message_metadata_passthrough.deep_view(),
            },
            ResponseItem::WebSearchCall {
                id,
                status,
                action,
                internal_chat_message_metadata_passthrough,
            } => ResponseItemView::WebSearchCall {
                id: id.deep_view(),
                status: status.deep_view(),
                action: action.deep_view(),
                internal_chat_message_metadata_passthrough: internal_chat_message_metadata_passthrough.deep_view(),
            },
            ResponseItem::ImageGenerationCall {
                id,
                status,
                revised_prompt,
                result,
                internal_chat_message_metadata_passthrough,
            } => ResponseItemView::ImageGenerationCall {
                id: id.deep_view(),
                status: status.deep_view(),
                revised_prompt: revised_prompt.deep_view(),
                result: result.deep_view(),
                internal_chat_message_metadata_passthrough: internal_chat_message_metadata_passthrough.deep_view(),
            },
            ResponseItem::AdditionalTools { id, role, tools } => ResponseItemView::AdditionalTools {
                id: id.deep_view(),
                role: role.deep_view(),
                tools: tools.deep_view(),
            },
            ResponseItem::Compaction {
                id,
                encrypted_content,
                internal_chat_message_metadata_passthrough,
            } => ResponseItemView::Compaction {
                id: id.deep_view(),
                encrypted_content: encrypted_content.deep_view(),
                internal_chat_message_metadata_passthrough: internal_chat_message_metadata_passthrough.deep_view(),
            },
            ResponseItem::CompactionTrigger => ResponseItemView::CompactionTrigger,
            ResponseItem::ContextCompaction {
                id,
                encrypted_content,
                internal_chat_message_metadata_passthrough,
            } => ResponseItemView::ContextCompaction {
                id: id.deep_view(),
                encrypted_content: encrypted_content.deep_view(),
                internal_chat_message_metadata_passthrough: internal_chat_message_metadata_passthrough.deep_view(),
            },
            ResponseItem::Other => ResponseItemView::Other,
        }
    }
}

impl DeepView for ResponseItem {
    type V = ResponseItemView;

    open spec fn deep_view(&self) -> ResponseItemView {
        self@
    }
}

impl Clone for ResponseItem {
    fn clone(&self) -> (r: Self)
        ensures
            r@ == self@,
            r.deep_view() == self.deep_view(),
    {
        match self {
            ResponseItem::Message {
                id,
                role,
                content,
                phase,
                internal_chat_message_metadata_passthrough,
            } => ResponseItem::Message {
                id: id.clone(),
                role: role.clone(),
                content: content.clone(),
                phase: phase.clone(),
                internal_chat_message_metadata_passthrough: internal_chat_message_metadata_passthrough.clone(),
            },
            ResponseItem::AgentMessage {
                id,
                author,
                recipient,
                content,
                internal_chat_message_metadata_passthrough,
            } => ResponseItem::AgentMessage {
                id: id.clone(),
                author: author.clone(),
                recipient: recipient.clone(),
                content: content.clone(),
                internal_chat_message_metadata_passthrough: internal_chat_message_metadata_passthrough.clone(),
            },
            ResponseItem::Reasoning {
                id,
                summary,
                content,
                encrypted_content,
                internal_chat_message_metadata_passthrough,
            } => ResponseItem::Reasoning {
                id: id.clone(),
                summary: summary.clone(),
                content: content.clone(),
                encrypted_content: encrypted_content.clone(),
                internal_chat_message_metadata_passthrough: internal_chat_message_metadata_passthrough.clone(),
            },
            ResponseItem::LocalShellCall {
                id,
                call_id,
                status,
                action,
                internal_chat_message_metadata_passthrough,
            } => ResponseItem::LocalShellCall {
                id: id.clone(),
                call_id: call_id.clone(),
                status: *status,
                action: action.clone(),
                internal_chat_message_metadata_passthrough: internal_chat_message_metadata_passthrough.clone(),
            },
            ResponseItem::FunctionCall {
                id,
                name,
                namespace,
                arguments,
                encrypted_function_args,
                call_id,
                internal_chat_message_metadata_passthrough,
            } => ResponseItem::FunctionCall {
                id: id.clone(),
                name: name.clone(),
                namespace: namespace.clone(),
                arguments: arguments.clone(),
                encrypted_function_args: encrypted_function_args.clone(),
                call_id: call_id.clone(),
                internal_chat_message_metadata_passthrough: internal_chat_message_metadata_passthrough.clone(),
            },
            ResponseItem::ToolSearchCall {
                id,
                call_id,
                status,
                execution,
                arguments,
                internal_chat_message_metadata_passthrough,
            } => ResponseItem::ToolSearchCall {
                id: id.clone(),
                call_id: call_id.clone(),
                status: status.clone(),
                execution: execution.clone(),
                arguments: arguments.clone(),
                internal_chat_message_metadata_passthrough: internal_chat_message_metadata_passthrough.clone(),
            },
            ResponseItem::FunctionCallOutput {
                id,
                call_id,
                name,
                namespace,
                output,
                internal_chat_message_metadata_passthrough,
            } => ResponseItem::FunctionCallOutput {
                id: id.clone(),
                call_id: call_id.clone(),
                name: name.clone(),
                namespace: namespace.clone(),
                output: output.clone(),
                internal_chat_message_metadata_passthrough: internal_chat_message_metadata_passthrough.clone(),
            },
            ResponseItem::CustomToolCall {
                id,
                status,
                call_id,
                name,
                namespace,
                input,
                internal_chat_message_metadata_passthrough,
            } => ResponseItem::CustomToolCall {
                id: id.clone(),
                status: status.clone(),
                call_id: call_id.clone(),
                name: name.clone(),
                namespace: namespace.clone(),
                input: input.clone(),
                internal_chat_message_metadata_passthrough: internal_chat_message_metadata_passthrough.clone(),
            },
            ResponseItem::CustomToolCallOutput {
                id,
                call_id,
                name,
                output,
                internal_chat_message_metadata_passthrough,
            } => ResponseItem::CustomToolCallOutput {
                id: id.clone(),
                call_id: call_id.clone(),
                name: name.clone(),
                output: output.clone(),
                internal_chat_message_metadata_passthrough: internal_chat_message_metadata_passthrough.clone(),
            },
            ResponseItem::ToolSearchOutput {
                id,
                call_id,
                status,
                execution,
                tools,
                internal_chat_message_metadata_passthrough,
            } => ResponseItem::ToolSearchOutput {
                id: id.clone(),
                call_id: call_id.clone(),
                status: status.clone(),
                execution: execution.clone(),
                tools: tools.clone(),
                internal_chat_message_metadata_passthrough: internal_chat_message_metadata_passthrough.clone(),
            },
            ResponseItem::WebSearchCall {
                id,
                status,
                action,
                internal_chat_message_metadata_passthrough,
            } => ResponseItem::WebSearchCall {
                id: id.clone(),
                status: status.clone(),
                action: action.clone(),
                internal_chat_message_metadata_passthrough: internal_chat_message_metadata_passthrough.clone(),
            },
            ResponseItem::ImageGenerationCall {
                id,
                status,
                revised_prompt,
                result,
                internal_chat_message_metadata_passthrough,
            } => ResponseItem::ImageGenerationCall {
                id: id.clone(),
                status: status.clone(),
                revised_prompt: revised_prompt.clone(),
                result: result.clone(),
                internal_chat_message_metadata_passthrough: internal_chat_message_metadata_passthrough.clone(),
            },
            ResponseItem::AdditionalTools { id, role, tools } => ResponseItem::AdditionalTools {
                id: id.clone(),
                role: role.clone(),
                tools: tools.clone(),
            },
            ResponseItem::Compaction {
                id,
                encrypted_content,
                internal_chat_message_metadata_passthrough,
            } => ResponseItem::Compaction {
                id: id.clone(),
                encrypted_content: encrypted_content.clone(),
                internal_chat_message_metadata_passthrough: internal_chat_message_metadata_passthrough.clone(),
            },
            ResponseItem::CompactionTrigger => ResponseItem::CompactionTrigger,
            ResponseItem::ContextCompaction {
                id,
                encrypted_content,
                internal_chat_message_metadata_passthrough,
            } => ResponseItem::ContextCompaction {
                id: id.clone(),
                encrypted_content: encrypted_content.clone(),
                internal_chat_message_metadata_passthrough: internal_chat_message_metadata_passthrough.clone(),
            },
            ResponseItem::Other => ResponseItem::Other,
        }
    }
}

/// The identity that the host gave the item.
pub open spec fn item_id(item: ResponseItemView) -> Option<Seq<char>> {
    match item {
        ResponseItemView::Message { id, .. } => id,
        ResponseItemView::AgentMessage { id, .. } => id,
        ResponseItemView::Reasoning { id, .. } => id,
        ResponseItemView::LocalShellCall { id, .. } => id,
        ResponseItemView::FunctionCall { id, .. } => id,
        ResponseItemView::ToolSearchCall { id, .. } => id,
        ResponseItemView::FunctionCallOutput { id, .. } => id,
        ResponseItemView::CustomToolCall { id, .. } => id,
        ResponseItemView::CustomToolCallOutput { id, .. } => id,
        ResponseItemView::ToolSearchOutput { id, .. } => id,
        ResponseItemView::WebSearchCall { id, .. } => id,
        ResponseItemView::ImageGenerationCall { id, .. } => id,
        ResponseItemView::AdditionalTools { id, .. } => id,
        ResponseItemView::Compaction { id, .. } => id,
        ResponseItemView::ContextCompaction { id, .. } => id,
        ResponseItemView::CompactionTrigger => None,
        ResponseItemView::Other => None,
    }
}

/// The item under another identity.
pub open spec fn with_id(item: ResponseItemView, new_id: Option<Seq<char>>) -> ResponseItemView {
    match item {
        ResponseItemView::Message {
            id,
            role,
            content,
            phase,
            internal_chat_message_metadata_passthrough,
        } => ResponseItemView::Message {
            id: new_id,
            role,
            content,
            phase,
            internal_chat_message_metadata_passthrough,
        },
        ResponseItemView::AgentMessage {
            id,
            author,
            recipient,
            content,
            internal_chat_message_metadata_passthrough,
        } => ResponseItemView::AgentMessage {
            id: new_id,
            author,
            recipient,
            content,
            internal_chat_message_metadata_passthrough,
        },
        ResponseItemView::Reasoning {
            id,
            summary,
            content,
            encrypted_content,
            internal_chat_message_metadata_passthrough,
        } => ResponseItemView::Reasoning {
            id: new_id,
            summary,
            content,
            encrypted_content,
            internal_chat_message_metadata_passthrough,
        },
        ResponseItemView::LocalShellCall {
            id,
            call_id,
            status,
            action,
            internal_chat_message_metadata_passthrough,
        } => ResponseItemView::LocalShellCall {
            id: new_id,
            call_id,
            status,
            action,
            internal_chat_message_metadata_passthrough,
        },
        ResponseItemView::FunctionCall {
            id,
            name,
            namespace,
            arguments,
            encrypted_function_args,
            call_id,
            internal_chat_message_metadata_passthrough,
        } => ResponseItemView::FunctionCall {
            id: new_id,
            name,
            namespace,
            arguments,
            encrypted_function_args,
            call_id,
            internal_chat_message_metadata_passthrough,
        },
        ResponseItemView::ToolSearchCall {
            id,
            call_id,
            status,
            execution,
            arguments,
            internal_chat_message_metadata_passthrough,
        } => ResponseItemView::ToolSearchCall {
            id: new_id,
            call_id,
            status,
            execution,
            arguments,
            internal_chat_message_metadata_passthrough,
        },
        ResponseItemView::FunctionCallOutput {
            id,
            call_id,
            name,
            namespace,
            output,
            internal_chat_message_metadata_passthrough,
        } => ResponseItemView::FunctionCallOutput {
            id: new_id,
            call_id,
            name,
            namespace,
            output,
            internal_chat_message_metadata_passthrough,
        },
        ResponseItemView::CustomToolCall {
            id,
            status,
            call_id,
            name,
            namespace,
            input,
            internal_chat_message_metadata_passthrough,
        } => ResponseItemView::CustomToolCall {
            id: new_id,
            status,
            call_id,
            name,
            namespace,
            input,
            internal_chat_message_metadata_passthrough,
        },
        ResponseItemView::CustomToolCallOutput {
            id,
            call_id,
            name,
            output,
            internal_chat_message_metadata_passthrough,
        } => ResponseItemView::CustomToolCallOutput {
            id: new_id,
            call_id,
            name,
            output,
            internal_chat_message_metadata_passthrough,
        },
        ResponseItemView::ToolSearchOutput {
            id,
            call_id,
            status,
            execution,
            tools,
            internal_chat_message_metadata_passthrough,
        } => ResponseItemView::ToolSearchOutput {
            id: new_id,
            call_id,
            status,
            execution,
            tools,
            internal_chat_message_metadata_passthrough,
        },
        ResponseItemView::WebSearchCall {
            id,
            status,
            action,
            internal_chat_message_metadata_passthrough,
        } => ResponseItemView::WebSearchCall {
            id: new_id,
            status,
            action,
            internal_chat_message_metadata_passthrough,
        },
        ResponseItemView::ImageGenerationCall {
            id,
            status,
            revised_prompt,
            result,
            internal_chat_message_metadata_passthrough,
        } => ResponseItemView::ImageGenerationCall {
            id: new_id,
            status,
            revised_prompt,
            result,
            internal_chat_message_metadata_passthrough,
        },
        ResponseItemView::AdditionalTools { id, role, tools } => ResponseItemView::AdditionalTools {
            id: new_id,
            role,
            tools,
        },
        ResponseItemView::Compaction {
            id,
            encrypted_content,
            internal_chat_message_metadata_passthrough,
        } => ResponseItemView::Compaction {
            id: new_id,
            encrypted_content,
            internal_chat_message_metadata_passthrough,
        },
        ResponseItemView::ContextCompaction {
            id,
            encrypted_content,
            internal_chat_message_metadata_passthrough,
        } => ResponseItemView::ContextCompaction {
            id: new_id,
            encrypted_content,
            internal_chat_message_metadata_passthrough,
        },
        ResponseItemView::CompactionTrigger => item,
        ResponseItemView::Other => item,
    }
}

impl ResponseItem {
    /// The identity that the host gave the item.
    pub fn id(&self) -> (r: Option<&String>)
        ensures
            r.deep_view() == item_id(self@),
    {
        match self {
            ResponseItem::Message { id, .. } => id.as_ref(),
            ResponseItem::AgentMessage { id, .. } => id.as_ref(),
            ResponseItem::Reasoning { id, .. } => id.as_ref(),
            ResponseItem::LocalShellCall { id, .. } => id.as_ref(),
            ResponseItem::FunctionCall { id, .. } => id.as_ref(),
            ResponseItem::ToolSearchCall { id, .. } => id.as_ref(),
            ResponseItem::FunctionCallOutput { id, .. } => id.as_ref(),
            ResponseItem::CustomToolCall { id, .. } => id.as_ref(),
            ResponseItem::CustomToolCallOutput { id, .. } => id.as_ref(),
            ResponseItem::ToolSearchOutput { id, .. } => id.as_ref(),
            ResponseItem::WebSearchCall { id, .. } => id.as_ref(),
            ResponseItem::ImageGenerationCall { id, .. } => id.as_ref(),
            ResponseItem::AdditionalTools { id, .. } => id.as_ref(),
            ResponseItem::Compaction { id, .. } => id.as_ref(),
            ResponseItem::ContextCompaction { id, .. } => id.as_ref(),
            ResponseItem::CompactionTrigger => None,
            ResponseItem::Other => None,
        }
    }

    /// Gives the item another identity, or none.
    pub fn set_id(&mut self, new_id: Option<String>)
        ensures
            final(self)@ == with_id(old(self)@, new_id.deep_view()),
    {
        match self {
            ResponseItem::Message { id, .. } => {
                *id = new_id;
            },
            ResponseItem::AgentMessage { id, .. } => {
                *id = new_id;
            },
            ResponseItem::Reasoning { id, .. } => {
                *id = new_id;
            },
            ResponseItem::LocalShellCall { id, .. } => {
                *id = new_id;
            },
            ResponseItem::FunctionCall { id, .. } => {
                *id = new_id;
            },
            ResponseItem::ToolSearchCall { id, .. } => {
                *id = new_id;
            },
            ResponseItem::FunctionCallOutput { id, .. } => {
                *id = new_id;
            },
            ResponseItem::CustomToolCall { id, .. } => {
                *id = new_id;
            },
            ResponseItem::CustomToolCallOutput { id, .. } => {
                *id = new_id;
            },
            ResponseItem::ToolSearchOutput { id, .. } => {
                *id = new_id;
            },
            ResponseItem::WebSearchCall { id, .. } => {
                *id = new_id;
            },
            ResponseItem::ImageGenerationCall { id, .. } => {
                *id = new_id;
            },
            ResponseItem::AdditionalTools { id, .. } => {
                *id = new_id;
            },
            ResponseItem::Compaction { id, .. } => {
                *id = new_id;
            },
            ResponseItem::ContextCompaction { id, .. } => {
                *id = new_id;
            },
            ResponseItem::CompactionTrigger => {},
            ResponseItem::Other => {},
        }
    }
}

/// The item without what the host knows of it: its identity and the metadata
/// that it passes through. What goes to the model stays.
pub open spec fn without_provenance(item: ResponseItemView) -> ResponseItemView {
    match item {
        ResponseItemView::Message {
            id,
            role,
            content,
            phase,
            internal_chat_message_metadata_passthrough,
        } => ResponseItemView::Message {
            id: None,
            role,
            content,
            phase,
            internal_chat_message_metadata_passthrough: None,
        },
        ResponseItemView::AgentMessage {
            id,
            author,
            recipient,
            content,
            internal_chat_message_metadata_passthrough,
        } => ResponseItemView::AgentMessage {
            id: None,
            author,
            recipient,
            content,
            internal_chat_message_metadata_passthrough: None,
        },
        ResponseItemView::Reasoning {
            id,
            summary,
            content,
            encrypted_content,
            internal_chat_message_metadata_passthrough,
        } => ResponseItemView::Reasoning {
            id: None,
            summary,
            content,
            encrypted_content,
            internal_chat_message_metadata_passthrough: None,
        },
        ResponseItemView::LocalShellCall {
            id,
            call_id,
            status,
            action,
            internal_chat_message_metadata_passthrough,
        } => ResponseItemView::LocalShellCall {
            id: None,
            call_id,
            status,
            action,
            internal_chat_message_metadata_passthrough: None,
        },
        ResponseItemView::FunctionCall {
            id,
            name,
            namespace,
            arguments,
            encrypted_function_args,
            call_id,
            internal_chat_message_metadata_passthrough,
        } => ResponseItemView::FunctionCall {
            id: None,
            name,
            namespace,
            arguments,
            encrypted_function_args,
            call_id,
            internal_chat_message_metadata_passthrough: None,
        },
        ResponseItemView::ToolSearchCall {
            id,
            call_id,
            status,
            execution,
            arguments,
            internal_chat_message_metadata_passthrough,
        } => ResponseItemView::ToolSearchCall {
            id: None,
            call_id,
            status,
            execution,
            arguments,
            internal_chat_message_metadata_passthrough: None,
        },
        ResponseItemView::FunctionCallOutput {
            id,
            call_id,
            name,
            namespace,
            output,
            internal_chat_message_metadata_passthrough,
        } => ResponseItemView::FunctionCallOutput {
            id: None,
            call_id,
            name,
            namespace,
            output,
            internal_chat_message_metadata_passthrough: None,
        },
        ResponseItemView::CustomToolCall {
            id,
            status,
            call_id,
            name,
            namespace,
            input,
            internal_chat_message_metadata_passthrough,
        } => ResponseItemView::CustomToolCall {
            id: None,
            status,
            call_id,
            name,
            namespace,
            input,
            internal_chat_message_metadata_passthrough: None,
        },
        ResponseItemView::CustomToolCallOutput {
            id,
            call_id,
            name,
            output,
            internal_chat_message_metadata_passthrough,
        } => ResponseItemView::CustomToolCallOutput {
            id: None,
            call_id,
            name,
            output,
            internal_chat_message_metadata_passthrough: None,
        },
        ResponseItemView::ToolSearchOutput {
            id,
            call_id,
            status,
            execution,
            tools,
            internal_chat_message_metadata_passthrough,
        } => ResponseItemView::ToolSearchOutput {
            id: None,
            call_id,
            status,
            execution,
            tools,
            internal_chat_message_metadata_passthrough: None,
        },
        ResponseItemView::WebSearchCall {
            id,
            status,
            action,
            internal_chat_message_metadata_passthrough,
        } => ResponseItemView::WebSearchCall {
            id: None,
            status,
            action,
            internal_chat_message_metadata_passthrough: None,
        },
        ResponseItemView::ImageGenerationCall {
            id,
            status,
            revised_prompt,
            result,
            internal_chat_message_metadata_passthrough,
        } => ResponseItemView::ImageGenerationCall {
            id: None,
            status,
            revised_prompt,
            result,
            internal_chat_message_metadata_passthrough: None,
        },
        ResponseItemView::AdditionalTools { id, role, tools } => ResponseItemView::AdditionalTools {
            id: None,
            role,
            tools,
        },
        ResponseItemView::Compaction {
            id,
            encrypted_content,
            internal_chat_message_metadata_passthrough,
        } => ResponseItemView::Compaction {
            id: None,
            encrypted_content,
            internal_chat_message_metadata_passthrough: None,
        },
        ResponseItemView::ContextCompaction {
            id,
            encrypted_content,
            internal_chat_message_metadata_passthrough,
        } => ResponseItemView::ContextCompaction {
            id: None,
            encrypted_content,
            internal_chat_message_metadata_passthrough: None,
        },
        ResponseItemView::CompactionTrigger => item,
        ResponseItemView::Other => item,
    }
}

impl ResponseItem {
    /// Takes away what the host knows of the item: its identity and the metadata
    /// that it passes through.
    pub fn strip_provenance(&mut self)
        ensures
            final(self)@ == without_provenance(old(self)@),
    {
        match self {
            ResponseItem::Message { id, internal_chat_message_metadata_passthrough, .. } => {
                *id = None;
                *internal_chat_message_metadata_passthrough = None;
            },
            ResponseItem::AgentMessage { id, internal_chat_message_metadata_passthrough, .. } => {
                *id = None;
                *internal_chat_message_metadata_passthrough = None;
            },
            ResponseItem::Reasoning { id, internal_chat_message_metadata_passthrough, .. } => {
                *id = None;
                *internal_chat_message_metadata_passthrough = None;
            },
            ResponseItem::LocalShellCall { id, internal_chat_message_metadata_passthrough, .. } => {
                *id = None;
                *internal_chat_message_metadata_passthrough = None;
            },
            ResponseItem::FunctionCall { id, internal_chat_message_metadata_passthrough, .. } => {
                *id = None;
                *internal_chat_message_metadata_passthrough = None;
            },
            ResponseItem::ToolSearchCall { id, internal_chat_message_metadata_passthrough, .. } => {
                *id = None;
                *internal_chat_message_metadata_passthrough = None;
            },
            ResponseItem::FunctionCallOutput {
                id,
                internal_chat_message_metadata_passthrough,
                ..
            } => {
                *id = None;
                *internal_chat_message_metadata_passthrough = None;
            },
            ResponseItem::CustomToolCall { id, internal_chat_message_metadata_passthrough, .. } => {
                *id = None;
                *internal_chat_message_metadata_passthrough = None;
            },
            ResponseItem::CustomToolCallOutput {
                id,
                internal_chat_message_metadata_passthrough,
                ..
            } => {
                *id = None;
                *internal_chat_message_metadata_passthrough = None;
            },
            ResponseItem::ToolSearchOutput {
                id,
                internal_chat_message_metadata_passthrough,
                ..
            } => {
                *id = None;
                *internal_chat_message_metadata_passthrough = None;
            },
            ResponseItem::WebSearchCall { id, internal_chat_message_metadata_passthrough, .. } => {
                *id = None;
                *internal_chat_message_metadata_passthrough = None;
            },
            ResponseItem::ImageGenerationCall {
                id,
                internal_chat_message_metadata_passthrough,
                ..
            } => {
                *id = None;
                *internal_chat_message_metadata_passthrough = None;
            },
            ResponseItem::AdditionalTools { id, .. } => {
                *id = None;
            },
            ResponseItem::Compaction { id, internal_chat_message_metadata_passthrough, .. } => {
                *id = None;
                *internal_chat_message_metadata_passthrough = None;
            },
            ResponseItem::ContextCompaction {
                id,
                internal_chat_message_metadata_passthrough,
                ..
            } => {
                *id = None;
                *internal_chat_message_metadata_passthrough = None;
            },
            ResponseItem::CompactionTrigger => {},
            ResponseItem::Other => {},
        }
    }
}

} // verus!
