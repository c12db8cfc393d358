//! Rollouts: the lines from which a session is resumed.

use vstd::prelude::*;

use crate::json::{Json, JsonView};
use crate::protocol::{ResponseItem, ResponseItemView, WebSearchAction, WebSearchActionView};
use crate::records::{TokenUsage, TokenUsageView};

verus! {

/// Why a turn was aborted.
#[derive(Debug, Clone, Copy, PartialEq, Eq, Structural)]
pub enum TurnAbortReason {
    Interrupted,
    Replaced,
    ReviewEnded,
    BudgetLimited,
}

impl DeepView for TurnAbortReason {
    type V = TurnAbortReason;

    open spec fn deep_view(&self) -> TurnAbortReason {
        *self
    }
}

/// What an item-completed event is about.
#[derive(Debug, Clone, Copy, PartialEq, Eq, Structural)]
pub enum CompletedItem {
    Plan,
    Extension,
    Other,
}

impl DeepView for CompletedItem {
    type V = CompletedItem;

    open spec fn deep_view(&self) -> CompletedItem {
        *self
    }
}

/// One event of the display stream. An event that is only carried along is held
/// in its JSON notation.
#[derive(Debug, PartialEq, Eq)]
#[allow(inconsistent_fields)]
pub enum EventMsg {
    ThreadRolledBack { num_turns: u32 },
    UserMessage { message: String },
    AgentMessage { message: String },
    AgentReasoning { text: String },
    TurnStarted { turn_id: String, started_at: Option<i64> },
    TurnComplete {
        turn_id: String,
        started_at: Option<i64>,
        completed_at: Option<i64>,
        duration_ms: Option<i64>,
    },
    TurnAborted {
        turn_id: Option<String>,
        reason: TurnAbortReason,
        started_at: Option<i64>,
        completed_at: Option<i64>,
        duration_ms: Option<i64>,
    },
    TokenCount { total_token_usage: TokenUsage, last_token_usage: TokenUsage },
    WebSearchEnd { call_id: String, query: String, action: WebSearchAction },
    ImageGenerationEnd {
        call_id: String,
        status: String,
        revised_prompt: Option<String>,
        result: String,
    },
    ContextCompacted,
    ThreadSettingsApplied(Json),
    ThreadGoalUpdated(Json),
    EnteredReviewMode(Json),
    ExitedReviewMode(Json),
    PatchApplyEnd(Json),
    McpToolCallEnd(Json),
    SubAgentActivity(Json),
    ItemCompleted { item: CompletedItem, event: Json },
    /// An event that no rollout keeps.
    Other(Json),
}

/// What a [`EventMsg`] stands for.
#[verifier::ext_equal]
#[allow(inconsistent_fields)]
pub enum EventMsgView {
    ThreadRolledBack { num_turns: u32 },
    UserMessage { message: Seq<char> },
    AgentMessage { message: Seq<char> },
    AgentReasoning { text: Seq<char> },
    TurnStarted { turn_id: Seq<char>, started_at: Option<i64> },
    TurnComplete {
        turn_id: Seq<char>,
        started_at: Option<i64>,
        completed_at: Option<i64>,
        duration_ms: Option<i64>,
    },
    TurnAborted {
        turn_id: Option<Seq<char>>,
        reason: TurnAbortReason,
        started_at: Option<i64>,
        completed_at: Option<i64>,
        duration_ms: Option<i64>,
    },
    TokenCount { total_token_usage: TokenUsageView, last_token_usage: TokenUsageView },
    WebSearchEnd { call_id: Seq<char>, query: Seq<char>, action: WebSearchActionView },
    ImageGenerationEnd {
        call_id: Seq<char>,
        status: Seq<char>,
        revised_prompt: Option<Seq<char>>,
        result: Seq<char>,
    },
    ContextCompacted,
    ThreadSettingsApplied(JsonView),
    ThreadGoalUpdated(JsonView),
    EnteredReviewMode(JsonView),
    ExitedReviewMode(JsonView),
    PatchApplyEnd(JsonView),
    McpToolCallEnd(JsonView),
    SubAgentActivity(JsonView),
    ItemCompleted { item: CompletedItem, event: JsonView },
    Other(JsonView),
}

impl View for EventMsg {
    type V = EventMsgView;

    open spec fn view(&self) -> EventMsgView {
        match self {
            EventMsg::ThreadRolledBack { num_turns } => EventMsgView::ThreadRolledBack {
                num_turns: num_turns.deep_view(),
            },
            EventMsg::UserMessage { message } => EventMsgView::UserMessage {
                message: message.deep_view(),
            },
            EventMsg::AgentMessage { message } => EventMsgView::AgentMessage {
                message: message.deep_view(),
            },
            EventMsg::AgentReasoning { text } => EventMsgView::AgentReasoning {
                text: text.deep_view(),
            },
            EventMsg::TurnStarted { turn_id, started_at } => EventMsgView::TurnStarted {
                turn_id: turn_id.deep_view(),
                started_at: started_at.deep_view(),
            },
            EventMsg::TurnComplete {
                turn_id,
                started_at,
                completed_at,
                duration_ms,
            } => EventMsgView::TurnComplete {
                turn_id: turn_id.deep_view(),
                started_at: started_at.deep_view(),
                completed_at: completed_at.deep_view(),
                duration_ms: duration_ms.deep_view(),
            },
            EventMsg::TurnAborted {
                turn_id,
                reason,
                started_at,
                completed_at,
                duration_ms,
            } => EventMsgView::TurnAborted {
                turn_id: turn_id.deep_view(),
                reason: reason.deep_view(),
                started_at: started_at.deep_view(),
                completed_at: completed_at.deep_view(),
                duration_ms: duration_ms.deep_view(),
            },
            EventMsg::TokenCount {
                total_token_usage,
                last_token_usage,
            } => EventMsgView::TokenCount {
                total_token_usage: total_token_usage.deep_view(),
                last_token_usage: last_token_usage.deep_view(),
            },
            EventMsg::WebSearchEnd { call_id, query, action } => EventMsgView::WebSearchEnd {
                call_id: call_id.deep_view(),
                query: query.deep_view(),
                action: action.deep_view(),
            },
            EventMsg::ImageGenerationEnd {
                call_id,
                status,
                revised_prompt,
                result,
            } => EventMsgView::ImageGenerationEnd {
                call_id: call_id.deep_view(),
                status: status.deep_view(),
                revised_prompt: revised_prompt.deep_view(),
                result: result.deep_view(),
            },
            EventMsg::ContextCompacted => EventMsgView::ContextCompacted,
            EventMsg::ThreadSettingsApplied(x) => EventMsgView::ThreadSettingsApplied(
                x.deep_view(),
            ),
            EventMsg::ThreadGoalUpdated(x) => EventMsgView::ThreadGoalUpdated(x.deep_view()),
            EventMsg::EnteredReviewMode(x) => EventMsgView::EnteredReviewMode(x.deep_view()),
            EventMsg::ExitedReviewMode(x) => EventMsgView::ExitedReviewMode(x.deep_view()),
            EventMsg::PatchApplyEnd(x) => EventMsgView::PatchApplyEnd(x.deep_view()),
            EventMsg::McpToolCallEnd(x) => EventMsgView::McpToolCallEnd(x.deep_view()),
            EventMsg::SubAgentActivity(x) => EventMsgView::SubAgentActivity(x.deep_view()),
            EventMsg::ItemCompleted { item, event } => EventMsgView::ItemCompleted {
                item: item.deep_view(),
                event: event.deep_view(),
            },
            EventMsg::Other(x) => EventMsgView::Other(x.deep_view()),
        }
    }
}

impl DeepView for EventMsg {
    type V = EventMsgView;

    open spec fn deep_view(&self) -> EventMsgView {
        self@
    }
}

impl Clone for EventMsg {
    fn clone(&self) -> (r: Self)
        ensures
            r@ == self@,
            r.deep_view() == self.deep_view(),
    {
        match self {
            EventMsg::ThreadRolledBack { num_turns } => EventMsg::ThreadRolledBack {
                num_turns: *num_turns,
            },
            EventMsg::UserMessage { message } => EventMsg::UserMessage { message: message.clone() },
            EventMsg::AgentMessage { message } => EventMsg::AgentMessage {
                message: message.clone(),
            },
            EventMsg::AgentReasoning { text } => EventMsg::AgentReasoning { text: text.clone() },
            EventMsg::TurnStarted { turn_id, started_at } => EventMsg::TurnStarted {
                turn_id: turn_id.clone(),
                started_at: started_at.clone(),
            },
            EventMsg::TurnComplete {
                turn_id,
                started_at,
                completed_at,
                duration_ms,
            } => EventMsg::TurnComplete {
                turn_id: turn_id.clone(),
                started_at: started_at.clone(),
                completed_at: completed_at.clone(),
                duration_ms: duration_ms.clone(),
            },
            EventMsg::TurnAborted {
                turn_id,
                reason,
                started_at,
                completed_at,
                duration_ms,
            } => EventMsg::TurnAborted {
                turn_id: turn_id.clone(),
                reason: *reason,
                started_at: started_at.clone(),
                completed_at: completed_at.clone(),
                duration_ms: duration_ms.clone(),
            },
            EventMsg::TokenCount { total_token_usage, last_token_usage } => EventMsg::TokenCount {
                total_token_usage: total_token_usage.clone(),
                last_token_usage: last_token_usage.clone(),
            },
            EventMsg::WebSearchEnd { call_id, query, action } => EventMsg::WebSearchEnd {
                call_id: call_id.clone(),
                query: query.clone(),
                action: action.clone(),
            },
            EventMsg::ImageGenerationEnd {
                call_id,
                status,
                revised_prompt,
                result,
            } => EventMsg::ImageGenerationEnd {
                call_id: call_id.clone(),
                status: status.clone(),
                revised_prompt: revised_prompt.clone(),
                result: result.clone(),
            },
            EventMsg::ContextCompacted => EventMsg::ContextCompacted,
            EventMsg::ThreadSettingsApplied(x) => EventMsg::ThreadSettingsApplied(x.clone()),
            EventMsg::ThreadGoalUpdated(x) => EventMsg::ThreadGoalUpdated(x.clone()),
            EventMsg::EnteredReviewMode(x) => EventMsg::EnteredReviewMode(x.clone()),
            EventMsg::ExitedReviewMode(x) => EventMsg::ExitedReviewMode(x.clone()),
            EventMsg::PatchApplyEnd(x) => EventMsg::PatchApplyEnd(x.clone()),
            EventMsg::McpToolCallEnd(x) => EventMsg::McpToolCallEnd(x.clone()),
            EventMsg::SubAgentActivity(x) => EventMsg::SubAgentActivity(x.clone()),
            EventMsg::ItemCompleted { item, event } => EventMsg::ItemCompleted {
                item: *item,
                event: event.clone(),
            },
            EventMsg::Other(x) => EventMsg::Other(x.clone()),
        }
    }
}

/// The record of a compact boundary.
#[derive(Debug, PartialEq, Eq)]
pub struct CompactedItem {
    pub message: String,
    pub replacement_history: Option<Vec<ResponseItem>>,
    pub window_number: Option<u64>,
    pub first_window_id: Option<String>,
    pub previous_window_id: Option<String>,
    pub window_id: Option<String>,
    /// What a guardian had seen of the history when it was compacted.
    pub guardian_history: Option<Json>,
}

/// What a [`CompactedItem`] stands for.
#[verifier::ext_equal]
pub struct CompactedItemView {
    pub message: Seq<char>,
    pub replacement_history: Option<Seq<ResponseItemView>>,
    pub window_number: Option<u64>,
    pub first_window_id: Option<Seq<char>>,
    pub previous_window_id: Option<Seq<char>>,
    pub window_id: Option<Seq<char>>,
    pub guardian_history: Option<JsonView>,
}

impl View for CompactedItem {
    type V = CompactedItemView;

    open spec fn view(&self) -> CompactedItemView {
        CompactedItemView {
            message: self.message.deep_view(),
            replacement_history: self.replacement_history.deep_view(),
            window_number: self.window_number.deep_view(),
            first_window_id: self.first_window_id.deep_view(),
            previous_window_id: self.previous_window_id.deep_view(),
            window_id: self.window_id.deep_view(),
            guardian_history: self.guardian_history.deep_view(),
        }
    }
}

impl DeepView for CompactedItem {
    type V = CompactedItemView;

    open spec fn deep_view(&self) -> CompactedItemView {
        self@
    }
}

impl Clone for CompactedItem {
    fn clone(&self) -> (r: Self)
        ensures
            r@ == self@,
            r.deep_view() == self.deep_view(),
    {
        CompactedItem {
            message: self.message.clone(),
            replacement_history: self.replacement_history.clone(),
            window_number: self.window_number.clone(),
            first_window_id: self.first_window_id.clone(),
            previous_window_id: self.previous_window_id.clone(),
            window_id: self.window_id.clone(),
            guardian_history: self.guardian_history.clone(),
        }
    }
}

/// One line of a rollout.
#[derive(Debug, PartialEq, Eq)]
pub enum RolloutItem {
    SessionMeta(Json),
    ResponseItem(ResponseItem),
    Compacted(CompactedItem),
    WorldState(Json),
    TurnContext(Json),
    EventMsg(EventMsg),
    InterAgentCommunication(Json),
    InterAgentCommunicationMetadata(Json),
    Other(Json),
}

/// What a [`RolloutItem`] stands for.
#[verifier::ext_equal]
pub enum RolloutItemView {
    SessionMeta(JsonView),
    ResponseItem(ResponseItemView),
    Compacted(CompactedItemView),
    WorldState(JsonView),
    TurnContext(JsonView),
    EventMsg(EventMsgView),
    InterAgentCommunication(JsonView),
    InterAgentCommunicationMetadata(JsonView),
    Other(JsonView),
}

impl View for RolloutItem {
    type V = RolloutItemView;

    open spec fn view(&self) -> RolloutItemView {
        match self {
            RolloutItem::SessionMeta(x) => RolloutItemView::SessionMeta(x.deep_view()),
            RolloutItem::ResponseItem(x) => RolloutItemView::ResponseItem(x.deep_view()),
            RolloutItem::Compacted(x) => RolloutItemView::Compacted(x.deep_view()),
            RolloutItem::WorldState(x) => RolloutItemView::WorldState(x.deep_view()),
            RolloutItem::TurnContext(x) => RolloutItemView::TurnContext(x.deep_view()),
            RolloutItem::EventMsg(x) => RolloutItemView::EventMsg(x.deep_view()),
            RolloutItem::InterAgentCommunication(x) => RolloutItemView::InterAgentCommunication(
                x.deep_view(),
            ),
            RolloutItem::InterAgentCommunicationMetadata(
                x,
            ) => RolloutItemView::InterAgentCommunicationMetadata(x.deep_view()),
            RolloutItem::Other(x) => RolloutItemView::Other(x.deep_view()),
        }
    }
}

impl DeepView for RolloutItem {
    type V = RolloutItemView;

    open spec fn deep_view(&self) -> RolloutItemView {
        self@
    }
}

impl Clone for RolloutItem {
    fn clone(&self) -> (r: Self)
        ensures
            r@ == self@,
            r.deep_view() == self.deep_view(),
    {
        match self {
            RolloutItem::SessionMeta(x) => RolloutItem::SessionMeta(x.clone()),
            RolloutItem::ResponseItem(x) => RolloutItem::ResponseItem(x.clone()),
            RolloutItem::Compacted(x) => RolloutItem::Compacted(x.clone()),
            RolloutItem::WorldState(x) => RolloutItem::WorldState(x.clone()),
            RolloutItem::TurnContext(x) => RolloutItem::TurnContext(x.clone()),
            RolloutItem::EventMsg(x) => RolloutItem::EventMsg(x.clone()),
            RolloutItem::InterAgentCommunication(x) => RolloutItem::InterAgentCommunication(
                x.clone(),
            ),
            RolloutItem::InterAgentCommunicationMetadata(
                x,
            ) => RolloutItem::InterAgentCommunicationMetadata(x.clone()),
            RolloutItem::Other(x) => RolloutItem::Other(x.clone()),
        }
    }
}

} // verus!
