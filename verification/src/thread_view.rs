//! Thread views: a thread as the store shows it, compacted history first.

use vstd::prelude::*;

use crate::json::{Json, JsonView};

verus! {

/// The stored message that an entry was made of.
#[derive(Debug, PartialEq, Eq)]
pub struct SessionThreadViewEntrySource {
    pub message_id: String,
    pub idempotency_key: Option<String>,
}

/// What a [`SessionThreadViewEntrySource`] stands for.
#[verifier::ext_equal]
pub struct SessionThreadViewEntrySourceView {
    pub message_id: Seq<char>,
    pub idempotency_key: Option<Seq<char>>,
}

impl View for SessionThreadViewEntrySource {
    type V = SessionThreadViewEntrySourceView;

    open spec fn view(&self) -> SessionThreadViewEntrySourceView {
        SessionThreadViewEntrySourceView {
            message_id: self.message_id.deep_view(),
            idempotency_key: self.idempotency_key.deep_view(),
        }
    }
}

impl DeepView for SessionThreadViewEntrySource {
    type V = SessionThreadViewEntrySourceView;

    open spec fn deep_view(&self) -> SessionThreadViewEntrySourceView {
        self@
    }
}

impl Clone for SessionThreadViewEntrySource {
    fn clone(&self) -> (r: Self)
        ensures
            r@ == self@,
            r.deep_view() == self.deep_view(),
    {
        SessionThreadViewEntrySource {
            message_id: self.message_id.clone(),
            idempotency_key: self.idempotency_key.clone(),
        }
    }
}

/// What a part of an assistant entry holds.
#[derive(Debug, Clone, Copy, PartialEq, Eq, Structural)]
pub enum SessionAssistantPartType {
    Text,
    Thinking,
    ToolCall,
}

impl DeepView for SessionAssistantPartType {
    type V = SessionAssistantPartType;

    open spec fn deep_view(&self) -> SessionAssistantPartType {
        *self
    }
}

/// One part of an assistant entry.
#[derive(Debug, PartialEq, Eq)]
pub struct SessionAssistantPart {
    pub type_: SessionAssistantPartType,
    pub text: Option<String>,
    pub thinking: Option<String>,
    pub thinking_signature: Option<String>,
    pub tool_call_id: Option<String>,
    pub tool_name: Option<String>,
    pub arguments: Option<Json>,
}

/// What a [`SessionAssistantPart`] stands for.
#[verifier::ext_equal]
pub struct SessionAssistantPartView {
    pub type_: SessionAssistantPartType,
    pub text: Option<Seq<char>>,
    pub thinking: Option<Seq<char>>,
    pub thinking_signature: Option<Seq<char>>,
    pub tool_call_id: Option<Seq<char>>,
    pub tool_name: Option<Seq<char>>,
    pub arguments: Option<JsonView>,
}

impl View for SessionAssistantPart {
    type V = SessionAssistantPartView;

    open spec fn view(&self) -> SessionAssistantPartView {
        SessionAssistantPartView {
            type_: self.type_.deep_view(),
            text: self.text.deep_view(),
            thinking: self.thinking.deep_view(),
            thinking_signature: self.thinking_signature.deep_view(),
            tool_call_id: self.tool_call_id.deep_view(),
            tool_name: self.tool_name.deep_view(),
            arguments: self.arguments.deep_view(),
        }
    }
}

impl DeepView for SessionAssistantPart {
    type V = SessionAssistantPartView;

    open spec fn deep_view(&self) -> SessionAssistantPartView {
        self@
    }
}

impl Clone for SessionAssistantPart {
    fn clone(&self) -> (r: Self)
        ensures
            r@ == self@,
            r.deep_view() == self.deep_view(),
    {
        SessionAssistantPart {
            type_: self.type_,
            text: self.text.clone(),
            thinking: self.thinking.clone(),
            thinking_signature: self.thinking_signature.clone(),
            tool_call_id: self.tool_call_id.clone(),
            tool_name: self.tool_name.clone(),
            arguments: self.arguments.clone(),
        }
    }
}

/// What a user, or the store in its name, said. An entry without a source is compacted history.
#[derive(Debug, PartialEq, Eq)]
pub struct SessionUserMessage {
    pub content: String,
    pub source_messages: Vec<SessionThreadViewEntrySource>,
}

/// What a [`SessionUserMessage`] stands for.
#[verifier::ext_equal]
pub struct SessionUserMessageView {
    pub content: Seq<char>,
    pub source_messages: Seq<SessionThreadViewEntrySourceView>,
}

impl View for SessionUserMessage {
    type V = SessionUserMessageView;

    open spec fn view(&self) -> SessionUserMessageView {
        SessionUserMessageView {
            content: self.content.deep_view(),
            source_messages: self.source_messages.deep_view(),
        }
    }
}

impl DeepView for SessionUserMessage {
    type V = SessionUserMessageView;

    open spec fn deep_view(&self) -> SessionUserMessageView {
        self@
    }
}

impl Clone for SessionUserMessage {
    fn clone(&self) -> (r: Self)
        ensures
            r@ == self@,
            r.deep_view() == self.deep_view(),
    {
        SessionUserMessage {
            content: self.content.clone(),
            source_messages: self.source_messages.clone(),
        }
    }
}

/// What the model said, thought and called, and which model that was. The k-th
/// part comes from the k-th source.
#[derive(Debug, PartialEq, Eq)]
pub struct SessionAssistantMessage {
    pub content: Vec<SessionAssistantPart>,
    pub provider: Option<String>,
    pub model: Option<String>,
    pub api: Option<String>,
    pub source_messages: Vec<SessionThreadViewEntrySource>,
}

/// What a [`SessionAssistantMessage`] stands for.
#[verifier::ext_equal]
pub struct SessionAssistantMessageView {
    pub content: Seq<SessionAssistantPartView>,
    pub provider: Option<Seq<char>>,
    pub model: Option<Seq<char>>,
    pub api: Option<Seq<char>>,
    pub source_messages: Seq<SessionThreadViewEntrySourceView>,
}

impl View for SessionAssistantMessage {
    type V = SessionAssistantMessageView;

    open spec fn view(&self) -> SessionAssistantMessageView {
        SessionAssistantMessageView {
            content: self.content.deep_view(),
            provider: self.provider.deep_view(),
            model: self.model.deep_view(),
            api: self.api.deep_view(),
            source_messages: self.source_messages.deep_view(),
        }
    }
}

impl DeepView for SessionAssistantMessage {
    type V = SessionAssistantMessageView;

    open spec fn deep_view(&self) -> SessionAssistantMessageView {
        self@
    }
}

impl Clone for SessionAssistantMessage {
    fn clone(&self) -> (r: Self)
        ensures
            r@ == self@,
            r.deep_view() == self.deep_view(),
    {
        SessionAssistantMessage {
            content: self.content.clone(),
            provider: self.provider.clone(),
            model: self.model.clone(),
            api: self.api.clone(),
            source_messages: self.source_messages.clone(),
        }
    }
}

/// What a tool returned.
#[derive(Debug, PartialEq, Eq)]
pub struct SessionToolResultMessage {
    pub tool_call_id: String,
    pub tool_name: Option<String>,
    pub content: String,
    pub is_error: Option<bool>,
    pub source_messages: Vec<SessionThreadViewEntrySource>,
}

/// What a [`SessionToolResultMessage`] stands for.
#[verifier::ext_equal]
pub struct SessionToolResultMessageView {
    pub tool_call_id: Seq<char>,
    pub tool_name: Option<Seq<char>>,
    pub content: Seq<char>,
    pub is_error: Option<bool>,
    pub source_messages: Seq<SessionThreadViewEntrySourceView>,
}

impl View for SessionToolResultMessage {
    type V = SessionToolResultMessageView;

    open spec fn view(&self) -> SessionToolResultMessageView {
        SessionToolResultMessageView {
            tool_call_id: self.tool_call_id.deep_view(),
            tool_name: self.tool_name.deep_view(),
            content: self.content.deep_view(),
            is_error: self.is_error.deep_view(),
            source_messages: self.source_messages.deep_view(),
        }
    }
}

impl DeepView for SessionToolResultMessage {
    type V = SessionToolResultMessageView;

    open spec fn deep_view(&self) -> SessionToolResultMessageView {
        self@
    }
}

impl Clone for SessionToolResultMessage {
    fn clone(&self) -> (r: Self)
        ensures
            r@ == self@,
            r.deep_view() == self.deep_view(),
    {
        SessionToolResultMessage {
            tool_call_id: self.tool_call_id.clone(),
            tool_name: self.tool_name.clone(),
            content: self.content.clone(),
            is_error: self.is_error.clone(),
            source_messages: self.source_messages.clone(),
        }
    }
}

/// A message of the thread.
#[derive(Debug, PartialEq, Eq)]
pub enum SessionThreadViewMessage {
    User(SessionUserMessage),
    Assistant(SessionAssistantMessage),
    ToolResult(SessionToolResultMessage),
}

/// What a [`SessionThreadViewMessage`] stands for.
#[verifier::ext_equal]
pub enum SessionThreadViewMessageView {
    User(SessionUserMessageView),
    Assistant(SessionAssistantMessageView),
    ToolResult(SessionToolResultMessageView),
}

impl View for SessionThreadViewMessage {
    type V = SessionThreadViewMessageView;

    open spec fn view(&self) -> SessionThreadViewMessageView {
        match self {
            SessionThreadViewMessage::User(x) => SessionThreadViewMessageView::User(x.deep_view()),
            SessionThreadViewMessage::Assistant(x) => SessionThreadViewMessageView::Assistant(
                x.deep_view(),
            ),
            SessionThreadViewMessage::ToolResult(x) => SessionThreadViewMessageView::ToolResult(
                x.deep_view(),
            ),
        }
    }
}

impl DeepView for SessionThreadViewMessage {
    type V = SessionThreadViewMessageView;

    open spec fn deep_view(&self) -> SessionThreadViewMessageView {
        self@
    }
}

impl Clone for SessionThreadViewMessage {
    fn clone(&self) -> (r: Self)
        ensures
            r@ == self@,
            r.deep_view() == self.deep_view(),
    {
        match self {
            SessionThreadViewMessage::User(x) => SessionThreadViewMessage::User(x.clone()),
            SessionThreadViewMessage::Assistant(x) => SessionThreadViewMessage::Assistant(
                x.clone(),
            ),
            SessionThreadViewMessage::ToolResult(x) => SessionThreadViewMessage::ToolResult(
                x.clone(),
            ),
        }
    }
}

/// A change of the runtime.
#[derive(Debug, PartialEq, Eq)]
pub enum SessionThreadViewRuntimeEntry {
    ModelChange { source_messages: Vec<SessionThreadViewEntrySource> },
    ThinkingLevelChange { source_messages: Vec<SessionThreadViewEntrySource> },
}

/// What a [`SessionThreadViewRuntimeEntry`] stands for.
#[verifier::ext_equal]
pub enum SessionThreadViewRuntimeEntryView {
    ModelChange { source_messages: Seq<SessionThreadViewEntrySourceView> },
    ThinkingLevelChange { source_messages: Seq<SessionThreadViewEntrySourceView> },
}

impl View for SessionThreadViewRuntimeEntry {
    type V = SessionThreadViewRuntimeEntryView;

    open spec fn view(&self) -> SessionThreadViewRuntimeEntryView {
        match self {
            SessionThreadViewRuntimeEntry::ModelChange {
                source_messages,
            } => SessionThreadViewRuntimeEntryView::ModelChange {
                source_messages: source_messages.deep_view(),
            },
            SessionThreadViewRuntimeEntry::ThinkingLevelChange {
                source_messages,
            } => SessionThreadViewRuntimeEntryView::ThinkingLevelChange {
                source_messages: source_messages.deep_view(),
            },
        }
    }
}

impl DeepView for SessionThreadViewRuntimeEntry {
    type V = SessionThreadViewRuntimeEntryView;

    open spec fn deep_view(&self) -> SessionThreadViewRuntimeEntryView {
        self@
    }
}

impl Clone for SessionThreadViewRuntimeEntry {
    fn clone(&self) -> (r: Self)
        ensures
            r@ == self@,
            r.deep_view() == self.deep_view(),
    {
        match self {
            SessionThreadViewRuntimeEntry::ModelChange {
                source_messages,
            } => SessionThreadViewRuntimeEntry::ModelChange {
                source_messages: source_messages.clone(),
            },
            SessionThreadViewRuntimeEntry::ThinkingLevelChange {
                source_messages,
            } => SessionThreadViewRuntimeEntry::ThinkingLevelChange {
                source_messages: source_messages.clone(),
            },
        }
    }
}

/// One entry of a thread view.
#[derive(Debug, PartialEq, Eq)]
pub enum SessionThreadViewEntry {
    Message(SessionThreadViewMessage),
    Runtime(SessionThreadViewRuntimeEntry),
}

/// What a [`SessionThreadViewEntry`] stands for.
#[verifier::ext_equal]
pub enum SessionThreadViewEntryView {
    Message(SessionThreadViewMessageView),
    Runtime(SessionThreadViewRuntimeEntryView),
}

impl View for SessionThreadViewEntry {
    type V = SessionThreadViewEntryView;

    open spec fn view(&self) -> SessionThreadViewEntryView {
        match self {
            SessionThreadViewEntry::Message(x) => SessionThreadViewEntryView::Message(
                x.deep_view(),
            ),
            SessionThreadViewEntry::Runtime(x) => SessionThreadViewEntryView::Runtime(
                x.deep_view(),
            ),
        }
    }
}

impl DeepView for SessionThreadViewEntry {
    type V = SessionThreadViewEntryView;

    open spec fn deep_view(&self) -> SessionThreadViewEntryView {
        self@
    }
}

impl Clone for SessionThreadViewEntry {
    fn clone(&self) -> (r: Self)
        ensures
            r@ == self@,
            r.deep_view() == self.deep_view(),
    {
        match self {
            SessionThreadViewEntry::Message(x) => SessionThreadViewEntry::Message(x.clone()),
            SessionThreadViewEntry::Runtime(x) => SessionThreadViewEntry::Runtime(x.clone()),
        }
    }
}

} // verus!
