//! What the store hands back: events, turns and messages.

use vstd::prelude::*;

use crate::json::{Json, JsonView};

verus! {

/// The tokens that one or more model calls used.
#[derive(Debug, PartialEq, Eq)]
pub struct TokenUsage {
    pub input_tokens: i64,
    pub cached_input_tokens: i64,
    pub cache_write_input_tokens: i64,
    pub output_tokens: i64,
    pub reasoning_output_tokens: i64,
    pub total_tokens: i64,
    pub codex_rollout_budget_units: Option<i64>,
}

/// What a [`TokenUsage`] stands for.
#[verifier::ext_equal]
pub struct TokenUsageView {
    pub input_tokens: i64,
    pub cached_input_tokens: i64,
    pub cache_write_input_tokens: i64,
    pub output_tokens: i64,
    pub reasoning_output_tokens: i64,
    pub total_tokens: i64,
    pub codex_rollout_budget_units: Option<i64>,
}

impl View for TokenUsage {
    type V = TokenUsageView;

    open spec fn view(&self) -> TokenUsageView {
        TokenUsageView {
            input_tokens: self.input_tokens.deep_view(),
            cached_input_tokens: self.cached_input_tokens.deep_view(),
            cache_write_input_tokens: self.cache_write_input_tokens.deep_view(),
            output_tokens: self.output_tokens.deep_view(),
            reasoning_output_tokens: self.reasoning_output_tokens.deep_view(),
            total_tokens: self.total_tokens.deep_view(),
            codex_rollout_budget_units: self.codex_rollout_budget_units.deep_view(),
        }
    }
}

impl DeepView for TokenUsage {
    type V = TokenUsageView;

    open spec fn deep_view(&self) -> TokenUsageView {
        self@
    }
}

impl Clone for TokenUsage {
    fn clone(&self) -> (r: Self)
        ensures
            r@ == self@,
            r.deep_view() == self.deep_view(),
    {
        TokenUsage {
            input_tokens: self.input_tokens,
            cached_input_tokens: self.cached_input_tokens,
            cache_write_input_tokens: self.cache_write_input_tokens,
            output_tokens: self.output_tokens,
            reasoning_output_tokens: self.reasoning_output_tokens,
            total_tokens: self.total_tokens,
            codex_rollout_budget_units: self.codex_rollout_budget_units.clone(),
        }
    }
}

/// Where the host got a conversation item from.
#[derive(Debug, Clone, Copy, PartialEq, Eq, Structural)]
pub enum RawItemProvenance {
    /// A human wrote it.
    UserPrompt,
    /// The host put it in.
    HostContext,
    /// Another agent sent it.
    InterAgent,
    /// The model produced it.
    ModelOutput,
}

impl DeepView for RawItemProvenance {
    type V = RawItemProvenance;

    open spec fn deep_view(&self) -> RawItemProvenance {
        *self
    }
}

/// What kind of thing a stored event records.
#[derive(Debug, Clone, Copy, PartialEq, Eq, Structural)]
pub enum EventKind {
    UserPrompt,
    AssistantText,
    AssistantThinking,
    ToolCall,
    ToolResult,
    RuntimeNote,
    TurnEnd,
    ModelChange,
    ThinkingLevelChange,
}

impl DeepView for EventKind {
    type V = EventKind;

    open spec fn deep_view(&self) -> EventKind {
        *self
    }
}

/// What a stored event holds, as far as it is read back.
#[derive(Debug, PartialEq, Eq)]
pub enum EventPayload {
    Text { text: String },
    ToolCall { tool_name: String, arguments: Json },
    ToolResult { content: String },
    /// Nothing that is read back.
    Other,
}

/// What a [`EventPayload`] stands for.
#[verifier::ext_equal]
pub enum EventPayloadView {
    Text { text: Seq<char> },
    ToolCall { tool_name: Seq<char>, arguments: JsonView },
    ToolResult { content: Seq<char> },
    Other,
}

impl View for EventPayload {
    type V = EventPayloadView;

    open spec fn view(&self) -> EventPayloadView {
        match self {
            EventPayload::Text { text } => EventPayloadView::Text { text: text.deep_view() },
            EventPayload::ToolCall { tool_name, arguments } => EventPayloadView::ToolCall {
                tool_name: tool_name.deep_view(),
                arguments: arguments.deep_view(),
            },
            EventPayload::ToolResult { content } => EventPayloadView::ToolResult {
                content: content.deep_view(),
            },
            EventPayload::Other => EventPayloadView::Other,
        }
    }
}

impl DeepView for EventPayload {
    type V = EventPayloadView;

    open spec fn deep_view(&self) -> EventPayloadView {
        self@
    }
}

impl Clone for EventPayload {
    fn clone(&self) -> (r: Self)
        ensures
            r@ == self@,
            r.deep_view() == self.deep_view(),
    {
        match self {
            EventPayload::Text { text } => EventPayload::Text { text: text.clone() },
            EventPayload::ToolCall { tool_name, arguments } => EventPayload::ToolCall {
                tool_name: tool_name.clone(),
                arguments: arguments.clone(),
            },
            EventPayload::ToolResult { content } => EventPayload::ToolResult {
                content: content.clone(),
            },
            EventPayload::Other => EventPayload::Other,
        }
    }
}

/// One stored event.
#[derive(Debug, PartialEq, Eq)]
pub struct EventRecord {
    pub kind: EventKind,
    pub idempotency_key: String,
    pub event_order: i64,
    pub payload: EventPayload,
}

/// What a [`EventRecord`] stands for.
#[verifier::ext_equal]
pub struct EventRecordView {
    pub kind: EventKind,
    pub idempotency_key: Seq<char>,
    pub event_order: i64,
    pub payload: EventPayloadView,
}

impl View for EventRecord {
    type V = EventRecordView;

    open spec fn view(&self) -> EventRecordView {
        EventRecordView {
            kind: self.kind.deep_view(),
            idempotency_key: self.idempotency_key.deep_view(),
            event_order: self.event_order.deep_view(),
            payload: self.payload.deep_view(),
        }
    }
}

impl DeepView for EventRecord {
    type V = EventRecordView;

    open spec fn deep_view(&self) -> EventRecordView {
        self@
    }
}

impl Clone for EventRecord {
    fn clone(&self) -> (r: Self)
        ensures
            r@ == self@,
            r.deep_view() == self.deep_view(),
    {
        EventRecord {
            kind: self.kind,
            idempotency_key: self.idempotency_key.clone(),
            event_order: self.event_order,
            payload: self.payload.clone(),
        }
    }
}

/// Whether a turn is still under way.
#[derive(Debug, Clone, Copy, PartialEq, Eq, Structural)]
pub enum TurnStatus {
    Open,
    Closed,
}

impl DeepView for TurnStatus {
    type V = TurnStatus;

    open spec fn deep_view(&self) -> TurnStatus {
        *self
    }
}

/// How a turn ended.
#[derive(Debug, Clone, Copy, PartialEq, Eq, Structural)]
pub enum TurnOutcome {
    Completed,
    Aborted,
}

impl DeepView for TurnOutcome {
    type V = TurnOutcome;

    open spec fn deep_view(&self) -> TurnOutcome {
        *self
    }
}

/// One stored turn.
#[derive(Debug, PartialEq, Eq)]
pub struct TurnRecord {
    pub turn_id: String,
    pub turn_order: i64,
    pub status: TurnStatus,
    pub member_message_ids: Vec<String>,
    pub closed_at_event_order: Option<i64>,
    pub outcome: Option<TurnOutcome>,
    pub outcome_reason: Option<String>,
    pub started_at: Option<String>,
    pub ended_at: Option<String>,
}

/// What a [`TurnRecord`] stands for.
#[verifier::ext_equal]
pub struct TurnRecordView {
    pub turn_id: Seq<char>,
    pub turn_order: i64,
    pub status: TurnStatus,
    pub member_message_ids: Seq<Seq<char>>,
    pub closed_at_event_order: Option<i64>,
    pub outcome: Option<TurnOutcome>,
    pub outcome_reason: Option<Seq<char>>,
    pub started_at: Option<Seq<char>>,
    pub ended_at: Option<Seq<char>>,
}

impl View for TurnRecord {
    type V = TurnRecordView;

    open spec fn view(&self) -> TurnRecordView {
        TurnRecordView {
            turn_id: self.turn_id.deep_view(),
            turn_order: self.turn_order.deep_view(),
            status: self.status.deep_view(),
            member_message_ids: self.member_message_ids.deep_view(),
            closed_at_event_order: self.closed_at_event_order.deep_view(),
            outcome: self.outcome.deep_view(),
            outcome_reason: self.outcome_reason.deep_view(),
            started_at: self.started_at.deep_view(),
            ended_at: self.ended_at.deep_view(),
        }
    }
}

impl DeepView for TurnRecord {
    type V = TurnRecordView;

    open spec fn deep_view(&self) -> TurnRecordView {
        self@
    }
}

impl Clone for TurnRecord {
    fn clone(&self) -> (r: Self)
        ensures
            r@ == self@,
            r.deep_view() == self.deep_view(),
    {
        TurnRecord {
            turn_id: self.turn_id.clone(),
            turn_order: self.turn_order,
            status: self.status,
            member_message_ids: self.member_message_ids.clone(),
            closed_at_event_order: self.closed_at_event_order.clone(),
            outcome: self.outcome.clone(),
            outcome_reason: self.outcome_reason.clone(),
            started_at: self.started_at.clone(),
            ended_at: self.ended_at.clone(),
        }
    }
}

/// What kind of message was stored.
#[derive(Debug, Clone, Copy, PartialEq, Eq, Structural)]
pub enum MessageKind {
    UserPrompt,
    AssistantText,
    AssistantThinking,
    ToolCall,
    ToolResult,
    RuntimeNote,
}

impl DeepView for MessageKind {
    type V = MessageKind;

    open spec fn deep_view(&self) -> MessageKind {
        *self
    }
}

/// What a stored block holds.
#[derive(Debug, Clone, Copy, PartialEq, Eq, Structural)]
pub enum BlockType {
    Text,
    Thinking,
    ToolCall,
    ToolResult,
}

impl DeepView for BlockType {
    type V = BlockType;

    open spec fn deep_view(&self) -> BlockType {
        *self
    }
}

/// One block of a stored message.
#[derive(Debug, PartialEq, Eq)]
pub struct Block {
    pub block_type: BlockType,
    pub content: Json,
}

/// What a [`Block`] stands for.
#[verifier::ext_equal]
pub struct BlockView {
    pub block_type: BlockType,
    pub content: JsonView,
}

impl View for Block {
    type V = BlockView;

    open spec fn view(&self) -> BlockView {
        BlockView {
            block_type: self.block_type.deep_view(),
            content: self.content.deep_view(),
        }
    }
}

impl DeepView for Block {
    type V = BlockView;

    open spec fn deep_view(&self) -> BlockView {
        self@
    }
}

impl Clone for Block {
    fn clone(&self) -> (r: Self)
        ensures
            r@ == self@,
            r.deep_view() == self.deep_view(),
    {
        Block {
            block_type: self.block_type,
            content: self.content.clone(),
        }
    }
}

/// One stored message.
#[derive(Debug, PartialEq, Eq)]
pub struct MessageRecord {
    pub message_id: String,
    pub source_event_order: i64,
    pub kind: MessageKind,
    pub blocks: Vec<Block>,
    pub turn_id: String,
    pub provider_usage: Option<TokenUsage>,
}

/// What a [`MessageRecord`] stands for.
#[verifier::ext_equal]
pub struct MessageRecordView {
    pub message_id: Seq<char>,
    pub source_event_order: i64,
    pub kind: MessageKind,
    pub blocks: Seq<BlockView>,
    pub turn_id: Seq<char>,
    pub provider_usage: Option<TokenUsageView>,
}

impl View for MessageRecord {
    type V = MessageRecordView;

    open spec fn view(&self) -> MessageRecordView {
        MessageRecordView {
            message_id: self.message_id.deep_view(),
            source_event_order: self.source_event_order.deep_view(),
            kind: self.kind.deep_view(),
            blocks: self.blocks.deep_view(),
            turn_id: self.turn_id.deep_view(),
            provider_usage: self.provider_usage.deep_view(),
        }
    }
}

impl DeepView for MessageRecord {
    type V = MessageRecordView;

    open spec fn deep_view(&self) -> MessageRecordView {
        self@
    }
}

impl Clone for MessageRecord {
    fn clone(&self) -> (r: Self)
        ensures
            r@ == self@,
            r.deep_view() == self.deep_view(),
    {
        MessageRecord {
            message_id: self.message_id.clone(),
            source_event_order: self.source_event_order,
            kind: self.kind,
            blocks: self.blocks.clone(),
            turn_id: self.turn_id.clone(),
            provider_usage: self.provider_usage.clone(),
        }
    }
}

/// The word for a kind of event.
pub open spec fn event_kind_word(kind: EventKind) -> Seq<char> {
    match kind {
        EventKind::UserPrompt => "user_prompt"@,
        EventKind::AssistantText => "assistant_text"@,
        EventKind::AssistantThinking => "assistant_thinking"@,
        EventKind::ToolCall => "tool_call"@,
        EventKind::ToolResult => "tool_result"@,
        EventKind::RuntimeNote => "runtime_note"@,
        EventKind::TurnEnd => "turn_end"@,
        EventKind::ModelChange => "model_change"@,
        EventKind::ThinkingLevelChange => "thinking_level_change"@,
    }
}

impl EventKind {
    /// The word for the kind of event.
    pub fn as_str(self) -> (r: &'static str)
        ensures
            r@ == event_kind_word(self),
    {
        match self {
            EventKind::UserPrompt => "user_prompt",
            EventKind::AssistantText => "assistant_text",
            EventKind::AssistantThinking => "assistant_thinking",
            EventKind::ToolCall => "tool_call",
            EventKind::ToolResult => "tool_result",
            EventKind::RuntimeNote => "runtime_note",
            EventKind::TurnEnd => "turn_end",
            EventKind::ModelChange => "model_change",
            EventKind::ThinkingLevelChange => "thinking_level_change",
        }
    }
}

/// The idempotency keys of some events.
pub open spec fn event_keys(events: Seq<EventRecordView>) -> Seq<Seq<char>> {
    events.map_values(|e: EventRecordView| e.idempotency_key)
}

} // verus!
