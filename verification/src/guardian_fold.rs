//! A small fold of a thread: compacted history, then a prompt and a tool call
//! with its result, as a guardian replays them.

use vstd::prelude::*;
use vstd::string::*;

use crate::host_turn_ids::HostTurnIds;
use crate::json::{lemma_object_view, Json, JsonView};
use crate::materialize::{
    materialize_rollout, materialized, usage_can_be_told, CompactBoundaryMeta,
    CompactBoundaryMetaView, MaterializeInput, MaterializeInputView,
};
use crate::records::{
    Block, BlockType, BlockView, MessageKind, MessageRecord, MessageRecordView, TurnOutcome,
    TurnRecord, TurnRecordView, TurnStatus,
};
use crate::rollout::{RolloutItem, RolloutItemView};
use crate::text::text;
use crate::thread_view::{
    SessionAssistantMessage, SessionAssistantMessageView, SessionAssistantPart,
    SessionAssistantPartType, SessionAssistantPartView, SessionThreadViewEntry,
    SessionThreadViewEntrySource, SessionThreadViewEntrySourceView, SessionThreadViewEntryView,
    SessionThreadViewMessage, SessionThreadViewMessageView, SessionToolResultMessage,
    SessionToolResultMessageView, SessionUserMessage, SessionUserMessageView,
};
use crate::wire::push_entry;

verus! {

/// The call that every fold holds.
pub const OVERLAP_CALL_ID: &'static str = "fc_overlap";

/// The prompt that every fold holds.
pub const OVERLAP_USER: &'static str = "read the file";

/// The result that every fold holds.
pub const OVERLAP_OUTPUT: &'static str = "fn main() {}";

/// What a fold holds behind the call that every fold holds: another call with
/// its result, and a call without one.
#[derive(Debug, Clone, Copy)]
pub struct GuardianFoldTailExtras<'a> {
    pub extra_call_id: Option<&'a str>,
    pub unpaired_call_id: Option<&'a str>,
}

// ---------------------------------------------------------------------------
// What a fold is made of
// ---------------------------------------------------------------------------

/// The arguments of the calls.
pub open spec fn fold_arguments() -> JsonView {
    JsonView::Object(
        seq![
            ("path"@, JsonView::Text("src/main.rs"@)),
            ("__hostRaw"@, JsonView::Text("{\"path\":\"src/main.rs\"}"@)),
        ],
    )
}

/// A source without a key.
pub open spec fn bare_source(message_id: Seq<char>) -> Seq<SessionThreadViewEntrySourceView> {
    seq![SessionThreadViewEntrySourceView { message_id, idempotency_key: None }]
}

/// Compacted history as an entry.
pub open spec fn band_entry_of(s: Seq<char>) -> SessionThreadViewEntryView {
    SessionThreadViewEntryView::Message(
        SessionThreadViewMessageView::User(
            SessionUserMessageView {
                content: "[context · brief]\n"@ + s,
                source_messages: Seq::empty(),
            },
        ),
    )
}

/// A prompt as an entry.
pub open spec fn user_entry_of(message_id: Seq<char>, s: Seq<char>) -> SessionThreadViewEntryView {
    SessionThreadViewEntryView::Message(
        SessionThreadViewMessageView::User(
            SessionUserMessageView { content: s, source_messages: bare_source(message_id) },
        ),
    )
}

/// A call as an entry.
pub open spec fn call_entry_of(message_id: Seq<char>, call_id: Seq<char>) ->
    SessionThreadViewEntryView {
    SessionThreadViewEntryView::Message(
        SessionThreadViewMessageView::Assistant(
            SessionAssistantMessageView {
                content: seq![
                    SessionAssistantPartView {
                        type_: SessionAssistantPartType::ToolCall,
                        text: None,
                        thinking: None,
                        thinking_signature: None,
                        tool_call_id: Some(call_id),
                        tool_name: Some("read_file"@),
                        arguments: Some(fold_arguments()),
                    },
                ],
                provider: None,
                model: None,
                api: None,
                source_messages: bare_source(message_id),
            },
        ),
    )
}

/// A result as an entry.
pub open spec fn result_entry_of(
    message_id: Seq<char>,
    call_id: Seq<char>,
    content: Seq<char>,
) -> SessionThreadViewEntryView {
    SessionThreadViewEntryView::Message(
        SessionThreadViewMessageView::ToolResult(
            SessionToolResultMessageView {
                tool_call_id: call_id,
                tool_name: Some("read_file"@),
                content,
                is_error: Some(false),
                source_messages: bare_source(message_id),
            },
        ),
    )
}

/// A stored message of the fold's turn.
pub open spec fn fold_message(
    message_id: Seq<char>,
    kind: MessageKind,
    order: i64,
    block: BlockView,
) -> MessageRecordView {
    MessageRecordView {
        message_id,
        source_event_order: order,
        kind,
        blocks: seq![block],
        turn_id: "t-overlap"@,
        provider_usage: None,
    }
}

/// A block of text.
pub open spec fn text_block_of(s: Seq<char>) -> BlockView {
    BlockView {
        block_type: BlockType::Text,
        content: JsonView::Object(seq![("text"@, JsonView::Text(s))]),
    }
}

/// A block that holds a call.
pub open spec fn call_block_of() -> BlockView {
    BlockView {
        block_type: BlockType::ToolCall,
        content: JsonView::Object(
            seq![
                ("toolCallId"@, JsonView::Text("x"@)),
                ("toolName"@, JsonView::Text("t"@)),
                ("arguments"@, JsonView::Object(Seq::empty())),
            ],
        ),
    }
}

/// A block that holds a result.
pub open spec fn result_block_of(call_id: Seq<char>, content: Seq<char>) -> BlockView {
    BlockView {
        block_type: BlockType::ToolResult,
        content: JsonView::Object(
            seq![
                ("toolCallId"@, JsonView::Text(call_id)),
                ("content"@, JsonView::Text(content)),
                ("isError"@, JsonView::Bool(false)),
            ],
        ),
    }
}

/// The entries of a fold.
pub open spec fn fold_entries(extra: Option<Seq<char>>, unpaired: Option<Seq<char>>) -> Seq<
    SessionThreadViewEntryView,
> {
    let e = seq![
        band_entry_of("compressed prior turns"@),
        user_entry_of("m-overlap-user"@, OVERLAP_USER@),
        call_entry_of("m-overlap-call"@, OVERLAP_CALL_ID@),
        result_entry_of("m-overlap-out"@, OVERLAP_CALL_ID@, OVERLAP_OUTPUT@),
    ];
    let e = match extra {
        Some(id) => e.push(call_entry_of("m-extra-call"@, id)).push(
            result_entry_of("m-extra-out"@, id, "new-b"@),
        ),
        None => e,
    };
    match unpaired {
        Some(id) => e.push(call_entry_of("m-unpaired"@, id)),
        None => e,
    }
}

/// The stored messages of a fold.
pub open spec fn fold_messages(extra: Option<Seq<char>>, unpaired: Option<Seq<char>>) -> Seq<
    MessageRecordView,
> {
    let m = seq![
        fold_message(
            "m-overlap-user"@,
            MessageKind::UserPrompt,
            10,
            text_block_of(OVERLAP_USER@),
        ),
        fold_message("m-overlap-call"@, MessageKind::ToolCall, 11, call_block_of()),
        fold_message(
            "m-overlap-out"@,
            MessageKind::ToolResult,
            12,
            result_block_of(OVERLAP_CALL_ID@, OVERLAP_OUTPUT@),
        ),
    ];
    let m = match extra {
        Some(id) => m.push(
            fold_message("m-extra-call"@, MessageKind::ToolCall, 13, call_block_of()),
        ).push(
            fold_message(
                "m-extra-out"@,
                MessageKind::ToolResult,
                14,
                result_block_of(id, "new-b"@),
            ),
        ),
        None => m,
    };
    match unpaired {
        Some(_) => m.push(
            fold_message(
                "m-unpaired"@,
                MessageKind::ToolCall,
                if extra is Some {
                    15
                } else {
                    13
                },
                call_block_of(),
            ),
        ),
        None => m,
    }
}

/// The messages of the fold's turn.
pub open spec fn fold_members(extra: bool, unpaired: bool) -> Seq<Seq<char>> {
    let m = seq!["m-overlap-user"@, "m-overlap-call"@, "m-overlap-out"@];
    let m = if extra {
        m.push("m-extra-call"@).push("m-extra-out"@)
    } else {
        m
    };
    if unpaired {
        m.push("m-unpaired"@)
    } else {
        m
    }
}

/// The turn of a fold.
pub open spec fn fold_turn(members: Seq<Seq<char>>) -> TurnRecordView {
    TurnRecordView {
        turn_id: "t-overlap"@,
        turn_order: 1,
        status: TurnStatus::Closed,
        member_message_ids: members,
        closed_at_event_order: Some(15),
        outcome: Some(TurnOutcome::Completed),
        outcome_reason: None,
        started_at: Some("2026-07-01T12:00:00.000Z"@),
        ended_at: Some("2026-07-01T12:00:10.000Z"@),
    }
}

/// What a fold is rebuilt from.
pub open spec fn fold_input(
    session_meta: JsonView,
    guardian: JsonView,
    extra: Option<Seq<char>>,
    unpaired: Option<Seq<char>>,
) -> MaterializeInputView {
    MaterializeInputView {
        session_meta,
        entries: fold_entries(extra, unpaired),
        messages: fold_messages(extra, unpaired),
        turns: seq![fold_turn(fold_members(extra is Some, unpaired is Some))],
        host_turn_ids: Seq::empty(),
        prior_generation: Seq::empty(),
        boundary: CompactBoundaryMetaView {
            message: "lhc compact"@,
            window_number: 1,
            first_window_id: "11111111-1111-7111-8111-111111111111"@,
            previous_window_id: None,
            window_id: "33333333-3333-7333-8333-333333333333"@,
        },
        world_state: None,
        turn_context: None,
        guardian_history: Some(guardian),
        live_identity: None,
    }
}

// ---------------------------------------------------------------------------
// Building it
// ---------------------------------------------------------------------------

fn fold_arguments_json() -> (r: Json)
    ensures
        r@ == fold_arguments(),
{
    broadcast use lemma_object_view;

    let mut e: Vec<(String, Json)> = Vec::new();
    push_entry(&mut e, "path", Json::Text(text("src/main.rs")));
    push_entry(&mut e, "__hostRaw", Json::Text(text("{\"path\":\"src/main.rs\"}")));
    assert(e.deep_view() =~= fold_arguments()->Object_0);
    Json::Object(e)
}

fn sources(message_id: &str) -> (r: Vec<SessionThreadViewEntrySource>)
    ensures
        r.deep_view() == bare_source(message_id@),
{
    let s = SessionThreadViewEntrySource {
        message_id: text(message_id),
        idempotency_key: None,
    };
    let ghost view = s@;
    let mut r: Vec<SessionThreadViewEntrySource> = Vec::new();
    r.push(s);
    assert(r.deep_view() =~= seq![view]);
    r
}

fn band_entry(s: &str) -> (r: SessionThreadViewEntry)
    ensures
        r@ == band_entry_of(s@),
{
    let mut content = text("[context · brief]\n");
    content.append(s);
    let source_messages: Vec<SessionThreadViewEntrySource> = Vec::new();
    assert(source_messages.deep_view() =~= Seq::<SessionThreadViewEntrySourceView>::empty());
    SessionThreadViewEntry::Message(
        SessionThreadViewMessage::User(SessionUserMessage { content, source_messages }),
    )
}

fn user_tail(message_id: &str, s: &str) -> (r: SessionThreadViewEntry)
    ensures
        r@ == user_entry_of(message_id@, s@),
{
    SessionThreadViewEntry::Message(
        SessionThreadViewMessage::User(
            SessionUserMessage { content: text(s), source_messages: sources(message_id) },
        ),
    )
}

fn tool_call_tail(message_id: &str, call_id: &str) -> (r: SessionThreadViewEntry)
    ensures
        r@ == call_entry_of(message_id@, call_id@),
{
    let part = SessionAssistantPart {
        type_: SessionAssistantPartType::ToolCall,
        text: None,
        thinking: None,
        thinking_signature: None,
        tool_call_id: Some(text(call_id)),
        tool_name: Some(text("read_file")),
        arguments: Some(fold_arguments_json()),
    };
    let ghost view = part@;
    let mut content: Vec<SessionAssistantPart> = Vec::new();
    content.push(part);
    assert(content.deep_view() =~= seq![view]);
    SessionThreadViewEntry::Message(
        SessionThreadViewMessage::Assistant(
            SessionAssistantMessage {
                content,
                provider: None,
                model: None,
                api: None,
                source_messages: sources(message_id),
            },
        ),
    )
}

fn tool_result_tail(message_id: &str, call_id: &str, content: &str) -> (r: SessionThreadViewEntry)
    ensures
        r@ == result_entry_of(message_id@, call_id@, content@),
{
    SessionThreadViewEntry::Message(
        SessionThreadViewMessage::ToolResult(
            SessionToolResultMessage {
                tool_call_id: text(call_id),
                tool_name: Some(text("read_file")),
                content: text(content),
                is_error: Some(false),
                source_messages: sources(message_id),
            },
        ),
    )
}

fn text_block(s: &str) -> (r: Block)
    ensures
        r@ == text_block_of(s@),
{
    broadcast use lemma_object_view;

    let mut e: Vec<(String, Json)> = Vec::new();
    push_entry(&mut e, "text", Json::Text(text(s)));
    assert(e.deep_view() =~= text_block_of(s@).content->Object_0);
    Block { block_type: BlockType::Text, content: Json::Object(e) }
}

fn call_block() -> (r: Block)
    ensures
        r@ == call_block_of(),
{
    broadcast use lemma_object_view;

    let none: Vec<(String, Json)> = Vec::new();
    assert(none.deep_view() =~= Seq::<(Seq<char>, JsonView)>::empty());
    let mut e: Vec<(String, Json)> = Vec::new();
    push_entry(&mut e, "toolCallId", Json::Text(text("x")));
    push_entry(&mut e, "toolName", Json::Text(text("t")));
    push_entry(&mut e, "arguments", Json::Object(none));
    assert(e.deep_view() =~= call_block_of().content->Object_0);
    Block { block_type: BlockType::ToolCall, content: Json::Object(e) }
}

fn tool_result_block(call_id: &str, content: &str) -> (r: Block)
    ensures
        r@ == result_block_of(call_id@, content@),
{
    broadcast use lemma_object_view;

    let mut e: Vec<(String, Json)> = Vec::new();
    push_entry(&mut e, "toolCallId", Json::Text(text(call_id)));
    push_entry(&mut e, "content", Json::Text(text(content)));
    push_entry(&mut e, "isError", Json::Bool(false));
    assert(e.deep_view() =~= result_block_of(call_id@, content@).content->Object_0);
    Block { block_type: BlockType::ToolResult, content: Json::Object(e) }
}

fn message(message_id: &str, kind: MessageKind, order: i64, block: Block) -> (r: MessageRecord)
    ensures
        r@ == fold_message(message_id@, kind, order, block@),
{
    let ghost view = block@;
    let mut blocks: Vec<Block> = Vec::new();
    blocks.push(block);
    assert(blocks.deep_view() =~= seq![view]);
    MessageRecord {
        message_id: text(message_id),
        source_event_order: order,
        kind,
        blocks,
        turn_id: text("t-overlap"),
        provider_usage: None,
    }
}

fn add_entry(list: &mut Vec<SessionThreadViewEntry>, x: SessionThreadViewEntry)
    ensures
        final(list).deep_view() == old(list).deep_view().push(x@),
{
    let ghost before = list.deep_view();
    let ghost view = x@;
    list.push(x);
    assert(list.deep_view() =~= before.push(view));
}

fn add_message(list: &mut Vec<MessageRecord>, x: MessageRecord)
    ensures
        final(list).deep_view() == old(list).deep_view().push(x@),
{
    let ghost before = list.deep_view();
    let ghost view = x@;
    list.push(x);
    assert(list.deep_view() =~= before.push(view));
}

fn add_member(list: &mut Vec<String>, x: &str)
    ensures
        final(list).deep_view() == old(list).deep_view().push(x@),
{
    let ghost before = list.deep_view();
    list.push(text(x));
    assert(list.deep_view() =~= before.push(x@));
}

/// Rebuilds a fold that opens with the line of its session, and whose boundary
/// record holds what a guardian had seen.
pub fn materialize_guardian_tool_fold(
    session_meta: Json,
    guardian: Json,
    extras: GuardianFoldTailExtras,
) -> (r: Vec<RolloutItem>)
    ensures
        r.deep_view() == materialized(
            fold_input(
                session_meta@,
                guardian@,
                extras.extra_call_id.deep_view(),
                extras.unpaired_call_id.deep_view(),
            ),
        ).items,
{
    let ghost session = session_meta@;
    let ghost extra = extras.extra_call_id.deep_view();
    let ghost unpaired = extras.unpaired_call_id.deep_view();
    let mut entries: Vec<SessionThreadViewEntry> = Vec::new();
    let mut messages: Vec<MessageRecord> = Vec::new();
    let mut members: Vec<String> = Vec::new();
    add_entry(&mut entries, band_entry("compressed prior turns"));
    add_entry(&mut entries, user_tail("m-overlap-user", OVERLAP_USER));
    add_entry(&mut entries, tool_call_tail("m-overlap-call", OVERLAP_CALL_ID));
    add_entry(&mut entries, tool_result_tail("m-overlap-out", OVERLAP_CALL_ID, OVERLAP_OUTPUT));
    add_message(
        &mut messages,
        message("m-overlap-user", MessageKind::UserPrompt, 10, text_block(OVERLAP_USER)),
    );
    add_message(&mut messages, message("m-overlap-call", MessageKind::ToolCall, 11, call_block()));
    add_message(
        &mut messages,
        message(
            "m-overlap-out",
            MessageKind::ToolResult,
            12,
            tool_result_block(OVERLAP_CALL_ID, OVERLAP_OUTPUT),
        ),
    );
    add_member(&mut members, "m-overlap-user");
    add_member(&mut members, "m-overlap-call");
    add_member(&mut members, "m-overlap-out");
    let mut order: i64 = 13;
    if let Some(id) = extras.extra_call_id {
        add_entry(&mut entries, tool_call_tail("m-extra-call", id));
        add_entry(&mut entries, tool_result_tail("m-extra-out", id, "new-b"));
        add_message(
            &mut messages,
            message("m-extra-call", MessageKind::ToolCall, 13, call_block()),
        );
        add_message(
            &mut messages,
            message("m-extra-out", MessageKind::ToolResult, 14, tool_result_block(id, "new-b")),
        );
        add_member(&mut members, "m-extra-call");
        add_member(&mut members, "m-extra-out");
        order = 15;
    }
    if let Some(id) = extras.unpaired_call_id {
        add_entry(&mut entries, tool_call_tail("m-unpaired", id));
        add_message(
            &mut messages,
            message("m-unpaired", MessageKind::ToolCall, order, call_block()),
        );
        add_member(&mut members, "m-unpaired");
    }
    assert(entries.deep_view() =~= fold_entries(extra, unpaired));
    assert(messages.deep_view() =~= fold_messages(extra, unpaired));
    assert(members.deep_view() =~= fold_members(extra is Some, unpaired is Some));
    let turn = TurnRecord {
        turn_id: text("t-overlap"),
        turn_order: 1,
        status: TurnStatus::Closed,
        member_message_ids: members,
        closed_at_event_order: Some(15),
        outcome: Some(TurnOutcome::Completed),
        outcome_reason: None,
        started_at: Some(text("2026-07-01T12:00:00.000Z")),
        ended_at: Some(text("2026-07-01T12:00:10.000Z")),
    };
    let ghost turn_view = turn@;
    let mut turns: Vec<TurnRecord> = Vec::new();
    turns.push(turn);
    assert(turns.deep_view() =~= seq![turn_view]);
    let prior_generation: Vec<RolloutItem> = Vec::new();
    assert(prior_generation.deep_view() =~= Seq::<RolloutItemView>::empty());
    let input = MaterializeInput {
        session_meta,
        entries,
        messages,
        turns,
        host_turn_ids: HostTurnIds::default(),
        prior_generation,
        boundary: CompactBoundaryMeta {
            message: text("lhc compact"),
            window_number: 1,
            first_window_id: text("11111111-1111-7111-8111-111111111111"),
            previous_window_id: None,
            window_id: text("33333333-3333-7333-8333-333333333333"),
        },
        world_state: None,
        turn_context: None,
        guardian_history: Some(guardian),
        live_identity: None,
    };
    assert(input@ =~= fold_input(session, guardian@, extra, unpaired));
    proof {
        fold_reports_no_usage(session, guardian@, extra, unpaired);
    }
    materialize_rollout(&input).items
}

/// No call of a fold reports usage, so a fold can always be rebuilt.
pub proof fn fold_reports_no_usage(
    session_meta: JsonView,
    guardian: JsonView,
    extra: Option<Seq<char>>,
    unpaired: Option<Seq<char>>,
)
    ensures
        usage_can_be_told(fold_input(session_meta, guardian, extra, unpaired)),
{
    let messages = fold_messages(extra, unpaired);
    assert forall|k: int| 0 <= k < messages.len() implies (#[trigger] messages[k]).provider_usage
        is None by {
    }
}

} // verus!
