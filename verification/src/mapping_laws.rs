//! What the store is told of each kind of item: all that the item says, and
//! nothing that it does not say.

use vstd::prelude::*;
use vstd::string::*;

use crate::idempotency::{digest_of, key_escaped};
use crate::json::{entry, json_text, Entries, Json, JsonView};
use crate::mapping::{
    change_events, content_text_of, item_events, item_key, output_text_of, runtime_note_event,
    turn_end_event, usage_entries, with_provider_usage, with_steer, with_step_index, EventView,
    ItemKey, ModelIdentityView, TurnEndFactsView,
};
use crate::protocol::{
    AgentMessageInputContent, AgentMessageInputContentView, ContentItemView,
    FunctionCallOutputBodyView, FunctionCallOutputContentItemView, FunctionCallOutputPayloadView,
    LocalShellActionView, ReasoningItemContentView, ReasoningItemReasoningSummaryView,
    ResponseItemView, WebSearchActionView,
};
use crate::records::{RawItemProvenance, TokenUsageView};
use crate::text::{decimal, joined};
use crate::wire::list_wire;

verus! {

/// The event is one of the host, and says exactly this.
pub open spec fn stored_as(
    e: EventView,
    kind: Seq<char>,
    actor: Seq<char>,
    payload: Entries,
) -> bool {
    &&& e.event_kind == kind
    &&& e.actor == actor
    &&& e.payload == payload
    &&& e.harness == "codex"@
    &&& e.extra.len() == 0
}

/// The event is a note of the host with this text.
pub open spec fn noted_as(e: EventView, said: Seq<char>) -> bool {
    stored_as(e, "runtime_note"@, "system"@, seq![("text"@, JsonView::Text(said))])
}

// ---------------------------------------------------------------------------
// Messages
// ---------------------------------------------------------------------------

/// What the parts of a message say, each on a line of its own. What is no text
/// stands by its address.
pub open spec fn parts_say(content: Seq<ContentItemView>) -> Seq<char> {
    joined(
        content.map_values(
            |p: ContentItemView|
                match p {
                    ContentItemView::InputText { text } => text,
                    ContentItemView::OutputText { text } => text,
                    ContentItemView::InputImage { image_url, .. } => "[image:"@ + image_url
                        + "]"@,
                    ContentItemView::InputAudio { audio_url } => "[audio:"@ + audio_url + "]"@,
                },
        ),
        "\n"@,
    )
}

proof fn lemma_parts_say(content: Seq<ContentItemView>)
    ensures
        content_text_of(content) == parts_say(content),
{
    let a = content.map_values(|p: ContentItemView| crate::mapping::content_chunk(p));
    let b = content.map_values(
        |p: ContentItemView|
            match p {
                ContentItemView::InputText { text } => text,
                ContentItemView::OutputText { text } => text,
                ContentItemView::InputImage { image_url, .. } => "[image:"@ + image_url + "]"@,
                ContentItemView::InputAudio { audio_url } => "[audio:"@ + audio_url + "]"@,
            },
    );
    assert(a =~= b);
}

/// What a person or the assistant says is stored whole, as theirs. What the host
/// puts in, in the user's name, is stored as a note. What is empty is not stored,
/// nor are instructions of the developer and the system; what anyone else says is
/// a note that names them.
pub proof fn messages_are_stored_whole(
    key: ItemKey,
    id: Option<Seq<char>>,
    role: Seq<char>,
    content: Seq<ContentItemView>,
    phase: Option<Seq<char>>,
    passed: Option<JsonView>,
    provenance: RawItemProvenance,
    identity: Option<ModelIdentityView>,
)
    ensures
        ({
            let events = item_events(
                key,
                ResponseItemView::Message {
                    id,
                    role,
                    content,
                    phase,
                    internal_chat_message_metadata_passthrough: passed,
                },
                provenance,
                identity,
            );
            let said = parts_say(content);
            let text = seq![("text"@, JsonView::Text(said))];
            &&& role == "user"@ && said.len() > 0 && provenance == RawItemProvenance::UserPrompt
                ==> events.len() == 1 && stored_as(events[0], "user_prompt"@, "user"@, text)
            &&& role == "user"@ && said.len() > 0 && provenance != RawItemProvenance::UserPrompt
                ==> events.len() == 1 && noted_as(events[0], said)
            &&& role == "assistant"@ && said.len() > 0 ==> events.len() == 1 && stored_as(
                events[0],
                "assistant_text"@,
                "assistant"@,
                text,
            )
            &&& (role == "user"@ || role == "assistant"@) && said.len() == 0 ==> events.len() == 0
            &&& role == "developer"@ || role == "system"@ ==> events.len() == 0
            &&& role != "developer"@ && role != "system"@ && role != "user"@ && role
                != "assistant"@ ==> events.len() == 1 && noted_as(
                events[0],
                "["@ + role + "] "@ + said,
            )
        }),
{
    lemma_parts_say(content);
    reveal_strlit("user");
    reveal_strlit("developer");
    reveal_strlit("system");
    reveal_strlit("assistant");
    assert("user"@.len() == 4 && "developer"@.len() == 9 && "system"@.len() == 6);
    assert("assistant"@.len() == 9 && "assistant"@[0] == 'a' && "developer"@[0] == 'd');
}

/// A message between agents is stored as one note: who wrote to whom, the parts as
/// they are, and what can be read of them.
pub proof fn agent_messages_are_noted_whole(
    key: ItemKey,
    id: Option<Seq<char>>,
    author: Seq<char>,
    recipient: Seq<char>,
    content: Seq<AgentMessageInputContentView>,
    passed: Option<JsonView>,
    provenance: RawItemProvenance,
    identity: Option<ModelIdentityView>,
)
    ensures
        ({
            let events = item_events(
                key,
                ResponseItemView::AgentMessage {
                    id,
                    author,
                    recipient,
                    content,
                    internal_chat_message_metadata_passthrough: passed,
                },
                provenance,
                identity,
            );
            let read = joined(
                content.map_values(
                    |p: AgentMessageInputContentView|
                        match p {
                            AgentMessageInputContentView::InputText { text } => text,
                            AgentMessageInputContentView::EncryptedContent { encrypted_content } =>
                                encrypted_content,
                        },
                ),
                "\n"@,
            );
            let head = "agent_message author="@ + author + " recipient="@ + recipient + " parts="@
                + json_text(list_wire::<AgentMessageInputContent>(content));
            &&& events.len() == 1
            &&& read.len() == 0 ==> noted_as(events[0], head)
            &&& read.len() > 0 ==> noted_as(events[0], head + "\n"@ + read)
        }),
{
    let a = content.map_values(
        |p: AgentMessageInputContentView| crate::mapping::agent_chunk(p),
    );
    let b = content.map_values(
        |p: AgentMessageInputContentView|
            match p {
                AgentMessageInputContentView::InputText { text } => text,
                AgentMessageInputContentView::EncryptedContent { encrypted_content } =>
                    encrypted_content,
            },
    );
    assert(a =~= b);
}

// ---------------------------------------------------------------------------
// Reasoning
// ---------------------------------------------------------------------------

/// All that reasoning says: its summary, then the reasoning itself.
pub open spec fn reasoning_says(
    summary: Seq<ReasoningItemReasoningSummaryView>,
    content: Option<Seq<ReasoningItemContentView>>,
) -> Seq<char> {
    joined(
        summary.map_values(
            |s: ReasoningItemReasoningSummaryView|
                match s {
                    ReasoningItemReasoningSummaryView::SummaryText { text } => text,
                },
        ) + (match content {
            Some(parts) => parts.map_values(
                |c: ReasoningItemContentView|
                    match c {
                        ReasoningItemContentView::ReasoningText { text } => text,
                        ReasoningItemContentView::Text { text } => text,
                    },
            ),
            None => Seq::empty(),
        }),
        ""@,
    )
}

/// One named text, or nothing where there is none.
pub open spec fn named_text(name: Seq<char>, value: Option<Seq<char>>) -> Entries {
    if value is Some && value->0.len() > 0 {
        seq![(name, JsonView::Text(value->0))]
    } else {
        Seq::empty()
    }
}

/// Reasoning is stored when it says something or is signed: with its text, its
/// signature, and the model that it is of.
pub proof fn reasoning_is_stored_whole(
    key: ItemKey,
    id: Option<Seq<char>>,
    summary: Seq<ReasoningItemReasoningSummaryView>,
    content: Option<Seq<ReasoningItemContentView>>,
    signed: Option<Seq<char>>,
    passed: Option<JsonView>,
    provenance: RawItemProvenance,
    identity: Option<ModelIdentityView>,
)
    ensures
        ({
            let events = item_events(
                key,
                ResponseItemView::Reasoning {
                    id,
                    summary,
                    content,
                    encrypted_content: signed,
                    internal_chat_message_metadata_passthrough: passed,
                },
                provenance,
                identity,
            );
            let said = reasoning_says(summary, content);
            let of = match identity {
                Some(m) => named_text("provider"@, m.provider) + named_text("model"@, m.model)
                    + named_text("api"@, m.api),
                None => Seq::empty(),
            };
            let stored = said.len() > 0 || (signed is Some && signed->0.len() > 0);
            &&& events.len() == if stored {
                1nat
            } else {
                0nat
            }
            &&& stored ==> stored_as(
                events[0],
                "assistant_thinking"@,
                "assistant"@,
                seq![("text"@, JsonView::Text(said))] + named_text("signature"@, signed) + of,
            )
        }),
{
    let a = crate::mapping::reasoning_texts(summary, content);
    let b = summary.map_values(
        |s: ReasoningItemReasoningSummaryView|
            match s {
                ReasoningItemReasoningSummaryView::SummaryText { text } => text,
            },
    ) + (match content {
        Some(parts) => parts.map_values(
            |c: ReasoningItemContentView|
                match c {
                    ReasoningItemContentView::ReasoningText { text } => text,
                    ReasoningItemContentView::Text { text } => text,
                },
        ),
        None => Seq::empty(),
    });
    assert(a =~= b);
    let said = reasoning_says(summary, content);
    let of = match identity {
        Some(m) => named_text("provider"@, m.provider) + named_text("model"@, m.model)
            + named_text("api"@, m.api),
        None => Seq::empty(),
    };
    assert(crate::mapping::thinking_payload(said, signed, identity) =~= seq![
        ("text"@, JsonView::Text(said)),
    ] + named_text("signature"@, signed) + of);
}

// ---------------------------------------------------------------------------
// Results of tools
// ---------------------------------------------------------------------------

/// The identity of a call: its own, or one made from the digest of the item.
pub open spec fn own_or_made(id: Option<Seq<char>>, digest: Seq<char>) -> Seq<char> {
    match id {
        Some(own) => own,
        None => "synthetic:"@ + digest,
    }
}

/// What a tool returned, part by part on lines of their own. What is no text
/// stands by its address.
pub open spec fn output_says(body: FunctionCallOutputBodyView) -> Seq<char> {
    match body {
        FunctionCallOutputBodyView::Text(s) => s,
        FunctionCallOutputBodyView::ContentItems(items) => joined(
            items.map_values(
                |p: FunctionCallOutputContentItemView|
                    match p {
                        FunctionCallOutputContentItemView::InputText { text } => text,
                        FunctionCallOutputContentItemView::InputImage { image_url, .. } =>
                            "[image:"@ + image_url + "]"@,
                        FunctionCallOutputContentItemView::InputAudio { audio_url } => "[audio:"@
                            + audio_url + "]"@,
                        FunctionCallOutputContentItemView::EncryptedContent { encrypted_content } =>
                            encrypted_content,
                    },
            ),
            "\n"@,
        ),
    }
}

proof fn lemma_output_says(body: FunctionCallOutputBodyView)
    ensures
        output_text_of(body) == output_says(body),
{
    if let FunctionCallOutputBodyView::ContentItems(items) = body {
        let a = items.map_values(
            |p: FunctionCallOutputContentItemView| crate::mapping::output_chunk(p),
        );
        let b = items.map_values(
            |p: FunctionCallOutputContentItemView|
                match p {
                    FunctionCallOutputContentItemView::InputText { text } => text,
                    FunctionCallOutputContentItemView::InputImage { image_url, .. } => "[image:"@
                        + image_url + "]"@,
                    FunctionCallOutputContentItemView::InputAudio { audio_url } => "[audio:"@
                        + audio_url + "]"@,
                    FunctionCallOutputContentItemView::EncryptedContent { encrypted_content } =>
                        encrypted_content,
                },
        );
        assert(a =~= b);
    }
}

/// The event holds the result of call `call_id`. Whether it is an error is told
/// when it is known.
pub open spec fn holds_result(
    e: EventView,
    call_id: Seq<char>,
    content: Seq<char>,
    is_error: Option<bool>,
) -> bool {
    stored_as(
        e,
        "tool_result"@,
        "tool"@,
        seq![("toolCallId"@, JsonView::Text(call_id)), ("content"@, JsonView::Text(content))] + (
        match is_error {
            Some(failed) => seq![("isError"@, JsonView::Bool(failed))],
            None => Seq::empty(),
        }),
    )
}

/// The output of a call is stored as one result of that call, with all that the
/// tool returned. It is an error exactly when it is known to have failed, and no
/// error exactly when it is known to have succeeded.
pub proof fn outputs_are_stored_whole(
    key: ItemKey,
    id: Option<Seq<char>>,
    call_id: Option<Seq<char>>,
    custom_id: Seq<char>,
    name: Option<Seq<char>>,
    namespace: Option<Seq<char>>,
    output: FunctionCallOutputPayloadView,
    passed: Option<JsonView>,
    provenance: RawItemProvenance,
    identity: Option<ModelIdentityView>,
)
    ensures
        ({
            let events = item_events(
                key,
                ResponseItemView::FunctionCallOutput {
                    id,
                    call_id,
                    name,
                    namespace,
                    output,
                    internal_chat_message_metadata_passthrough: passed,
                },
                provenance,
                identity,
            );
            let custom = item_events(
                key,
                ResponseItemView::CustomToolCallOutput {
                    id,
                    call_id: custom_id,
                    name,
                    output,
                    internal_chat_message_metadata_passthrough: passed,
                },
                provenance,
                identity,
            );
            let said = output_says(output.body);
            let of = match call_id {
                Some(c) => c,
                None => "synthetic:"@ + key.digest,
            };
            &&& events.len() == 1
            &&& custom.len() == 1
            &&& output.success == Some(true) ==> holds_result(events[0], of, said, Some(false))
                && holds_result(custom[0], custom_id, said, Some(false))
            &&& output.success == Some(false) ==> holds_result(events[0], of, said, Some(true))
                && holds_result(custom[0], custom_id, said, Some(true))
            &&& output.success is None ==> holds_result(events[0], of, said, None)
                && holds_result(custom[0], custom_id, said, None)
        }),
{
    lemma_output_says(output.body);
    let said = output_says(output.body);
    let of = match call_id {
        Some(c) => c,
        None => "synthetic:"@ + key.digest,
    };
    lemma_result_payload(key, of, said);
    lemma_result_payload(key, custom_id, said);
}

proof fn lemma_result_payload(key: ItemKey, call_id: Seq<char>, content: Seq<char>)
    ensures
        forall|is_error: Option<bool>|
            holds_result(
                #[trigger] crate::mapping::tool_result_of(key, call_id, content, is_error),
                call_id,
                content,
                is_error,
            ),
{
    assert forall|is_error: Option<bool>|
        holds_result(
            #[trigger] crate::mapping::tool_result_of(key, call_id, content, is_error),
            call_id,
            content,
            is_error,
        ) by {
        let e = crate::mapping::tool_result_of(key, call_id, content, is_error);
        assert(e.payload =~= seq![
            ("toolCallId"@, JsonView::Text(call_id)),
            ("content"@, JsonView::Text(content)),
        ] + (match is_error {
            Some(failed) => seq![("isError"@, JsonView::Bool(failed))],
            None => Seq::empty(),
        }));
    }
}

/// A result that is stored tells whether it is an error exactly when that is
/// known, and tells it right.
pub proof fn stored_error_is_no_success(
    e: EventView,
    call_id: Seq<char>,
    content: Seq<char>,
    is_error: Option<bool>,
)
    requires
        holds_result(e, call_id, content, is_error),
    ensures
        entry(e.payload, "isError"@) == (match is_error {
            Some(failed) => Some(JsonView::Bool(failed)),
            None => None,
        }),
        entry(e.payload, "content"@) == Some(JsonView::Text(content)),
        entry(e.payload, "toolCallId"@) == Some(JsonView::Text(call_id)),
{
    reveal_strlit("isError");
    reveal_strlit("content");
    reveal_strlit("toolCallId");
    assert("isError"@[0] == 'i' && "content"@[0] == 'c' && "toolCallId"@[0] == 't');
    let p = e.payload;
    assert(p.len() >= 2);
    assert(p[0].0 == "toolCallId"@ && p[1].0 == "content"@);
    if let Some(failed) = is_error {
        assert(p.len() == 3 && p[2] == ("isError"@, JsonView::Bool(failed)));
        crate::json::lemma_entry_at(p, 2);
    } else {
        crate::json::lemma_entry_absent(p, "isError"@);
    }
    crate::json::lemma_entry_at(p, 0);
    crate::json::lemma_entry_at(p, 1);
}

/// What a search of tools found is stored with it, and is an error exactly when
/// the search says so.
pub proof fn search_results_are_stored_whole(
    key: ItemKey,
    id: Option<Seq<char>>,
    call_id: Option<Seq<char>>,
    status: Seq<char>,
    execution: Seq<char>,
    tools: Seq<JsonView>,
    passed: Option<JsonView>,
    provenance: RawItemProvenance,
    identity: Option<ModelIdentityView>,
)
    ensures
        ({
            let events = item_events(
                key,
                ResponseItemView::ToolSearchOutput {
                    id,
                    call_id,
                    status,
                    execution,
                    tools,
                    internal_chat_message_metadata_passthrough: passed,
                },
                provenance,
                identity,
            );
            &&& events.len() == 1
            &&& holds_result(
                events[0],
                match call_id {
                    Some(c) => c,
                    None => "synthetic:"@ + key.digest,
                },
                json_text(list_wire::<Json>(tools)),
                Some(status == "failed"@ || status == "error"@),
            )
        }),
{
    let of = match call_id {
        Some(c) => c,
        None => "synthetic:"@ + key.digest,
    };
    lemma_result_payload(key, of, json_text(list_wire::<Json>(tools)));
}

// ---------------------------------------------------------------------------
// Calls
// ---------------------------------------------------------------------------

/// The event holds call `call_id` of tool `name`.
pub open spec fn holds_call(
    e: EventView,
    call_id: Seq<char>,
    name: Seq<char>,
    arguments: Entries,
) -> bool {
    stored_as(
        e,
        "tool_call"@,
        "assistant"@,
        seq![
            ("toolCallId"@, JsonView::Text(call_id)),
            ("toolName"@, JsonView::Text(name)),
            ("arguments"@, JsonView::Object(arguments)),
        ],
    )
}

/// A call of a function or of a custom tool is stored under its own identity and
/// name, and with the wire string of its arguments as it was.
pub proof fn named_calls_are_stored_whole(
    key: ItemKey,
    id: Option<Seq<char>>,
    name: Seq<char>,
    namespace: Option<Seq<char>>,
    wire: Seq<char>,
    encrypted: Option<Seq<Seq<char>>>,
    call_id: Seq<char>,
    status: Option<Seq<char>>,
    passed: Option<JsonView>,
    provenance: RawItemProvenance,
    identity: Option<ModelIdentityView>,
)
    ensures
        ({
            let function = item_events(
                key,
                ResponseItemView::FunctionCall {
                    id,
                    name,
                    namespace,
                    arguments: wire,
                    encrypted_function_args: encrypted,
                    call_id,
                    internal_chat_message_metadata_passthrough: passed,
                },
                provenance,
                identity,
            );
            let custom = item_events(
                key,
                ResponseItemView::CustomToolCall {
                    id,
                    status,
                    call_id,
                    name,
                    namespace,
                    input: wire,
                    internal_chat_message_metadata_passthrough: passed,
                },
                provenance,
                identity,
            );
            &&& function.len() == 1
            &&& custom.len() == 1
            &&& exists|arguments: Entries| #[trigger]
                holds_call(function[0], call_id, name, arguments) && entry(
                    arguments,
                    "__hostRaw"@,
                ) == Some(JsonView::Text(wire)) && (encrypted matches Some(list) ==> entry(
                    arguments,
                    "__hostEncryptedFunctionArgs"@,
                ) == Some(
                    JsonView::List(list.map_values(|s: Seq<char>| JsonView::Text(s))),
                ))
            &&& exists|arguments: Entries| #[trigger]
                holds_call(custom[0], call_id, name, arguments) && entry(
                    arguments,
                    "__hostRaw"@,
                ) == Some(JsonView::Text(wire))
        }),
{
    let read = crate::json::json_read(wire);
    crate::mapping::wire_arguments_are_kept(wire, read, encrypted);
    crate::mapping::wire_arguments_are_kept(wire, read, None);
    let function = item_events(
        key,
        ResponseItemView::FunctionCall {
            id,
            name,
            namespace,
            arguments: wire,
            encrypted_function_args: encrypted,
            call_id,
            internal_chat_message_metadata_passthrough: passed,
        },
        provenance,
        identity,
    );
    let custom = item_events(
        key,
        ResponseItemView::CustomToolCall {
            id,
            status,
            call_id,
            name,
            namespace,
            input: wire,
            internal_chat_message_metadata_passthrough: passed,
        },
        provenance,
        identity,
    );
    assert(holds_call(
        function[0],
        call_id,
        name,
        crate::mapping::function_arguments(wire, read, encrypted),
    ));
    assert(holds_call(custom[0], call_id, name, crate::mapping::arguments_of(wire, read)));
    if let Some(list) = encrypted {
        assert(list.map_values(|x: Seq<char>| <String as crate::wire::Wire>::wire(x))
            =~= list.map_values(|s: Seq<char>| JsonView::Text(s)));
    }
}

/// What a wire string says is stored beside it: the entries of the object that it
/// is, or else the value that it is; where it is no JSON, the string itself.
pub proof fn wire_strings_are_read(
    wire: Seq<char>,
    read: Option<JsonView>,
    name: Seq<char>,
)
    requires
        name != "__hostRaw"@,
    ensures
        read matches Some(JsonView::Object(e)) ==> entry(
            crate::mapping::arguments_of(wire, read),
            name,
        ) == entry(e, name),
        read matches Some(v) && !(v is Object) ==> entry(
            crate::mapping::arguments_of(wire, read),
            "value"@,
        ) == read,
        read is None ==> entry(crate::mapping::arguments_of(wire, read), "raw"@) == Some(
            JsonView::Text(wire),
        ),
{
    reveal_strlit("__hostRaw");
    reveal_strlit("value");
    reveal_strlit("raw");
    assert("value"@.len() != "__hostRaw"@.len() && "raw"@.len() != "__hostRaw"@.len());
    let raw = JsonView::Text(wire);
    match read {
        Some(JsonView::Object(e)) => {
            crate::json::entry_after_write(e, "__hostRaw"@, raw, name);
        },
        Some(other) => {
            let e = seq![("value"@, other)];
            crate::json::lemma_entry_at(e, 0);
            crate::json::entry_after_write(e, "__hostRaw"@, raw, "value"@);
        },
        None => {
            let e = seq![("raw"@, raw)];
            crate::json::lemma_entry_at(e, 0);
            crate::json::entry_after_write(e, "__hostRaw"@, raw, "raw"@);
        },
    }
}

/// A shell call is stored as a call of the shell, from which its action can be read
/// back. One without an identity of its own gets one from its digest.
pub proof fn shell_calls_are_stored_whole(
    key: ItemKey,
    id: Option<Seq<char>>,
    call_id: Option<Seq<char>>,
    status: crate::protocol::LocalShellStatus,
    action: LocalShellActionView,
    passed: Option<JsonView>,
    provenance: RawItemProvenance,
    identity: Option<ModelIdentityView>,
)
    ensures
        ({
            let events = item_events(
                key,
                ResponseItemView::LocalShellCall {
                    id,
                    call_id,
                    status,
                    action,
                    internal_chat_message_metadata_passthrough: passed,
                },
                provenance,
                identity,
            );
            &&& events.len() == 1
            &&& exists|e: Entries| #[trigger]
                holds_call(events[0], own_or_made(call_id, key.digest), "local_shell"@, e) && crate::unwire::shell_action_of(e) == action
        }),
{
    let events = item_events(
        key,
        ResponseItemView::LocalShellCall {
                    id,
                    call_id,
                    status,
                    action,
                    internal_chat_message_metadata_passthrough: passed,
                },
        provenance,
        identity,
    );
    let e = crate::mapping::local_shell_arguments_of(action);
    crate::unwire::shell_action_reads_back(action);
    assert(holds_call(events[0], own_or_made(call_id, key.digest), "local_shell"@, e));
}

/// A search of tools is stored as a call of that search, with what it was asked as it
/// was written.
pub proof fn tool_searches_are_stored_whole(
    key: ItemKey,
    id: Option<Seq<char>>,
    call_id: Option<Seq<char>>,
    status: Option<Seq<char>>,
    execution: Seq<char>,
    arguments: JsonView,
    passed: Option<JsonView>,
    provenance: RawItemProvenance,
    identity: Option<ModelIdentityView>,
)
    ensures
        ({
            let events = item_events(
                key,
                ResponseItemView::ToolSearchCall {
                    id,
                    call_id,
                    status,
                    execution,
                    arguments,
                    internal_chat_message_metadata_passthrough: passed,
                },
                provenance,
                identity,
            );
            &&& events.len() == 1
            &&& exists|e: Entries| #[trigger]
                holds_call(events[0], own_or_made(call_id, key.digest), "tool_search"@, e) && entry(
                    e,
                    "__hostRaw"@,
                ) == Some(JsonView::Text(json_text(arguments)))
        }),
{
    let events = item_events(
        key,
        ResponseItemView::ToolSearchCall {
                    id,
                    call_id,
                    status,
                    execution,
                    arguments,
                    internal_chat_message_metadata_passthrough: passed,
                },
        provenance,
        identity,
    );
    let raw = JsonView::Text(json_text(arguments));
    let given = crate::mapping::value_arguments(arguments);
    let e = crate::json::with_entry(given, "__hostRaw"@, raw);
    crate::json::entry_after_write(given, "__hostRaw"@, raw, "__hostRaw"@);
    assert(holds_call(events[0], own_or_made(call_id, key.digest), "tool_search"@, e));
}

/// A web search is stored as a call of that search, under its identity, and its
/// action can be read back.
pub proof fn web_searches_are_stored_whole(
    key: ItemKey,
    id: Option<Seq<char>>,
    status: Option<Seq<char>>,
    action: Option<WebSearchActionView>,
    passed: Option<JsonView>,
    provenance: RawItemProvenance,
    identity: Option<ModelIdentityView>,
)
    ensures
        ({
            let events = item_events(
                key,
                ResponseItemView::WebSearchCall {
                    id,
                    status,
                    action,
                    internal_chat_message_metadata_passthrough: passed,
                },
                provenance,
                identity,
            );
            &&& events.len() == 1
            &&& exists|e: Entries| #[trigger]
                holds_call(events[0], own_or_made(id, key.digest), "web_search"@, e) && (action is Some
                    ==> crate::unwire::search_action_of(e) == action) && (action is None ==> e.len()
                    == 0)
        }),
{
    let events = item_events(
        key,
        ResponseItemView::WebSearchCall {
                    id,
                    status,
                    action,
                    internal_chat_message_metadata_passthrough: passed,
                },
        provenance,
        identity,
    );
    let e = crate::mapping::web_search_arguments_of(action);
    if let Some(a) = action {
        crate::unwire::search_action_reads_back(a);
    }
    assert(holds_call(events[0], own_or_made(id, key.digest), "web_search"@, e));
}

/// What a search of tools was asked is stored as it was: the entries of the
/// object, or the value under a name.
pub proof fn searched_arguments_are_kept(arguments: JsonView)
    ensures
        arguments matches JsonView::Object(e) ==> crate::mapping::value_arguments(arguments) == e,
        !(arguments is Object) ==> crate::mapping::value_arguments(arguments) == seq![
            ("value"@, arguments),
        ],
{
}

/// An image that was generated is stored as a call and its result, of one and the
/// same identity: what was asked for, what came out, and whether it failed.
pub proof fn generated_images_are_stored_whole(
    key: ItemKey,
    id: Option<Seq<char>>,
    status: Seq<char>,
    prompt: Option<Seq<char>>,
    result: Seq<char>,
    passed: Option<JsonView>,
    provenance: RawItemProvenance,
    identity: Option<ModelIdentityView>,
)
    ensures
        ({
            let events = item_events(
                key,
                ResponseItemView::ImageGenerationCall {
                    id,
                    status,
                    revised_prompt: prompt,
                    result,
                    internal_chat_message_metadata_passthrough: passed,
                },
                provenance,
                identity,
            );
            let of = match id {
                Some(c) => c,
                None => "synthetic:"@ + key.digest,
            };
            &&& events.len() == 2
            &&& holds_call(
                events[0],
                of,
                "image_generation"@,
                match prompt {
                    Some(p) => seq![("revisedPrompt"@, JsonView::Text(p))],
                    None => Seq::empty(),
                },
            )
            &&& holds_result(
                events[1],
                of,
                json_text(
                    JsonView::Object(
                        seq![
                            ("status"@, JsonView::Text(status)),
                            ("result"@, JsonView::Text(result)),
                            (
                                "revisedPrompt"@,
                                match prompt {
                                    Some(p) => JsonView::Text(p),
                                    None => JsonView::Null,
                                },
                            ),
                        ],
                    ),
                ),
                Some(status == "failed"@ || status == "error"@),
            )
        }),
{
    let of = match id {
        Some(c) => c,
        None => "synthetic:"@ + key.digest,
    };
    let stored = crate::mapping::image_result(status, result, prompt);
    assert(stored->Object_0 =~= seq![
        ("status"@, JsonView::Text(status)),
        ("result"@, JsonView::Text(result)),
        (
            "revisedPrompt"@,
            match prompt {
                Some(p) => JsonView::Text(p),
                None => JsonView::Null,
            },
        ),
    ]);
    lemma_result_payload(key, of, json_text(stored));
}

/// What is no message, reasoning, call or result is noted as far as it says
/// something: tools that were added, and what a compaction was sealed as.
pub proof fn other_items_are_noted(
    key: ItemKey,
    id: Option<Seq<char>>,
    role: Seq<char>,
    tools: Seq<JsonView>,
    sealed: Seq<char>,
    perhaps: Option<Seq<char>>,
    passed: Option<JsonView>,
    provenance: RawItemProvenance,
    identity: Option<ModelIdentityView>,
)
    ensures
        ({
            let added = item_events(
                key,
                ResponseItemView::AdditionalTools { id, role, tools },
                provenance,
                identity,
            );
            let compaction = item_events(
                key,
                ResponseItemView::Compaction {
                    id,
                    encrypted_content: sealed,
                    internal_chat_message_metadata_passthrough: passed,
                },
                provenance,
                identity,
            );
            let context = item_events(
                key,
                ResponseItemView::ContextCompaction {
                    id,
                    encrypted_content: perhaps,
                    internal_chat_message_metadata_passthrough: passed,
                },
                provenance,
                identity,
            );
            &&& added.len() == 1 && noted_as(
                added[0],
                "additional_tools "@ + json_text(list_wire::<Json>(tools)),
            )
            &&& compaction.len() == 1 && noted_as(compaction[0], sealed)
            &&& perhaps is Some && perhaps->0.len() > 0 ==> context.len() == 1 && noted_as(
                context[0],
                perhaps->0,
            )
            &&& perhaps is None || perhaps->0.len() == 0 ==> context.len() == 0
            &&& item_events(key, ResponseItemView::CompactionTrigger, provenance, identity).len()
                == 0
            &&& item_events(key, ResponseItemView::Other, provenance, identity).len() == 0
        }),
{
}

// ---------------------------------------------------------------------------
// Keys
// ---------------------------------------------------------------------------

/// The key of an event tells the thread, the item and the kind of the event. An
/// item with an identity is known by it; one without by its digest and by how
/// often that came before.
pub proof fn keys_tell_the_item(
    thread_id: Seq<char>,
    item: ResponseItemView,
    count: u64,
    kind: Seq<char>,
    part: Seq<char>,
)
    ensures
        ({
            let k = item_key(thread_id, item, count);
            let digest = digest_of(item);
            let head = match crate::protocol::item_id(item) {
                Some(id) => if id.len() > 0 {
                    "codex:"@ + key_escaped(thread_id) + ":id:"@ + key_escaped(id) + ":"@ + digest
                } else {
                    "codex:"@ + key_escaped(thread_id) + ":anon:"@ + digest + ":"@ + decimal(
                        count as nat,
                    )
                },
                None => "codex:"@ + key_escaped(thread_id) + ":anon:"@ + digest + ":"@ + decimal(
                    count as nat,
                ),
            };
            &&& k.key(kind, None) == head + ":"@ + kind
            &&& k.key(kind, Some(part)) == head + ":"@ + kind + ":"@ + part
        }),
{
    let k = item_key(thread_id, item, count);
    let digest = digest_of(item);
    let head = match crate::protocol::item_id(item) {
        Some(id) => if id.len() > 0 {
            "codex:"@ + key_escaped(thread_id) + ":id:"@ + key_escaped(id) + ":"@ + digest
        } else {
            "codex:"@ + key_escaped(thread_id) + ":anon:"@ + digest + ":"@ + decimal(count as nat)
        },
        None => "codex:"@ + key_escaped(thread_id) + ":anon:"@ + digest + ":"@ + decimal(
            count as nat,
        ),
    };
    assert(k.key(kind, None) =~= head + ":"@ + kind);
    assert(k.key(kind, Some(part)) =~= head + ":"@ + kind + ":"@ + part);
}

/// Every event bears the key of its own kind; calls and results that of their
/// call besides, and what a compaction sealed that of what it is.
pub proof fn events_bear_their_own_keys(
    key: ItemKey,
    item: ResponseItemView,
    provenance: RawItemProvenance,
    identity: Option<ModelIdentityView>,
    i: int,
)
    requires
        0 <= i < item_events(key, item, provenance, identity).len(),
    ensures
        ({
            let e = item_events(key, item, provenance, identity)[i];
            let part = if e.event_kind == "tool_call"@ || e.event_kind == "tool_result"@ {
                match e.payload[0].1 {
                    JsonView::Text(call_id) => Some(call_id),
                    _ => None,
                }
            } else if item is Compaction {
                Some("compaction"@)
            } else if item is ContextCompaction {
                Some("context_compaction"@)
            } else {
                None
            };
            e.idempotency_key == Some(key.key(e.event_kind, part))
        }),
{
    reveal_strlit("tool_call");
    reveal_strlit("tool_result");
    reveal_strlit("runtime_note");
    reveal_strlit("user_prompt");
    reveal_strlit("assistant_text");
    reveal_strlit("assistant_thinking");
    assert("tool_call"@.len() == 9 && "tool_result"@.len() == 11 && "runtime_note"@.len() == 12);
    assert("user_prompt"@.len() == 11 && "user_prompt"@[0] == 'u' && "tool_result"@[0] == 't');
    assert("assistant_text"@.len() == 14 && "assistant_thinking"@.len() == 18);
}

// ---------------------------------------------------------------------------
// What goes with an event
// ---------------------------------------------------------------------------

/// The event with one entry more, or with that entry anew.
pub open spec fn only_entry_added(
    before: EventView,
    after: EventView,
    name: Seq<char>,
    value: JsonView,
) -> bool {
    &&& after.event_kind == before.event_kind
    &&& after.idempotency_key == before.idempotency_key
    &&& after.actor == before.actor
    &&& after.harness == before.harness
    &&& after.extra == before.extra
    &&& entry(after.payload, name) == Some(value)
    &&& forall|other: Seq<char>|
        other != name ==> #[trigger] entry(after.payload, other) == entry(before.payload, other)
}

proof fn lemma_only_entry(event: EventView, name: Seq<char>, value: JsonView)
    ensures
        only_entry_added(
            event,
            crate::mapping::with_payload_entry(event, name, value),
            name,
            value,
        ),
{
    let after = crate::mapping::with_payload_entry(event, name, value);
    crate::json::entry_after_write(event.payload, name, value, name);
    assert forall|other: Seq<char>| other != name implies #[trigger] entry(after.payload, other)
        == entry(event.payload, other) by {
        crate::json::entry_after_write(event.payload, name, value, other);
    }
}

/// The usage of a model call goes with the text of the assistant and with nothing
/// else; the number of the step goes with text, thoughts, calls and results of the
/// assistant and with nothing else; the mark of a prompt in the middle of a run
/// goes with a prompt of the user and with nothing else.
pub proof fn what_goes_with_an_event(event: EventView, usage: Entries, step: i64)
    ensures
        event.event_kind == "assistant_text"@ ==> only_entry_added(
            event,
            with_provider_usage(event, usage),
            "providerUsage"@,
            JsonView::Object(usage),
        ),
        event.event_kind != "assistant_text"@ ==> with_provider_usage(event, usage) == event,
        event.event_kind == "assistant_text"@ || event.event_kind == "assistant_thinking"@
            || event.event_kind == "tool_call"@ || event.event_kind == "tool_result"@
            ==> only_entry_added(
            event,
            with_step_index(event, step),
            "stepIndex"@,
            JsonView::Int(step as int),
        ),
        event.event_kind != "assistant_text"@ && event.event_kind != "assistant_thinking"@
            && event.event_kind != "tool_call"@ && event.event_kind != "tool_result"@
            ==> with_step_index(event, step) == event,
        event.event_kind == "user_prompt"@ ==> only_entry_added(
            event,
            with_steer(event),
            "steer"@,
            JsonView::Bool(true),
        ),
        event.event_kind != "user_prompt"@ ==> with_steer(event) == event,
{
    lemma_only_entry(event, "providerUsage"@, JsonView::Object(usage));
    lemma_only_entry(event, "stepIndex"@, JsonView::Int(step as int));
    lemma_only_entry(event, "steer"@, JsonView::Bool(true));
}

/// Every figure of a usage is told under its own name; the budget where there is
/// one.
pub proof fn every_figure_is_told(usage: TokenUsageView)
    ensures
        usage_entries(usage) == seq![
            ("input_tokens"@, JsonView::Int(usage.input_tokens as int)),
            ("cached_input_tokens"@, JsonView::Int(usage.cached_input_tokens as int)),
            ("cache_write_input_tokens"@, JsonView::Int(usage.cache_write_input_tokens as int)),
            ("output_tokens"@, JsonView::Int(usage.output_tokens as int)),
            ("reasoning_output_tokens"@, JsonView::Int(usage.reasoning_output_tokens as int)),
            ("total_tokens"@, JsonView::Int(usage.total_tokens as int)),
        ] + (match usage.codex_rollout_budget_units {
            Some(n) => seq![("codex_rollout_budget_units"@, JsonView::Int(n as int))],
            None => Seq::empty(),
        }),
{
    assert(usage_entries(usage) =~= seq![
        ("input_tokens"@, JsonView::Int(usage.input_tokens as int)),
        ("cached_input_tokens"@, JsonView::Int(usage.cached_input_tokens as int)),
        ("cache_write_input_tokens"@, JsonView::Int(usage.cache_write_input_tokens as int)),
        ("output_tokens"@, JsonView::Int(usage.output_tokens as int)),
        ("reasoning_output_tokens"@, JsonView::Int(usage.reasoning_output_tokens as int)),
        ("total_tokens"@, JsonView::Int(usage.total_tokens as int)),
    ] + (match usage.codex_rollout_budget_units {
        Some(n) => seq![("codex_rollout_budget_units"@, JsonView::Int(n as int))],
        None => Seq::empty(),
    }));
}

/// One named text where there is one, though it be empty.
pub open spec fn present_text(name: Seq<char>, value: Option<Seq<char>>) -> Entries {
    match value {
        Some(s) => seq![(name, JsonView::Text(s))],
        None => Seq::empty(),
    }
}

/// The end of a turn is stored with all the facts that are known of it, under a
/// key of the turn and of why it ended.
pub proof fn turn_ends_are_stored_whole(
    thread_id: Seq<char>,
    turn_id: Seq<char>,
    reason: Seq<char>,
    facts: TurnEndFactsView,
)
    ensures
        ({
            let e = turn_end_event(thread_id, turn_id, reason, facts);
            &&& stored_as(
                e,
                "turn_end"@,
                "assistant"@,
                present_text("outcome"@, facts.outcome) + present_text(
                    "outcomeReason"@,
                    facts.outcome_reason,
                ) + present_text("startedAt"@, facts.started_at) + present_text(
                    "endedAt"@,
                    facts.ended_at,
                ),
            )
            &&& e.idempotency_key == Some(
                "codex:"@ + key_escaped(thread_id) + ":turn_end:"@ + key_escaped(turn_id) + ":"@
                    + reason,
            )
        }),
{
    let e = turn_end_event(thread_id, turn_id, reason, facts);
    assert(e.payload =~= present_text("outcome"@, facts.outcome) + present_text(
        "outcomeReason"@,
        facts.outcome_reason,
    ) + present_text("startedAt"@, facts.started_at) + present_text("endedAt"@, facts.ended_at));
}

/// A note of the host says what it is given, under the key that it is given.
pub proof fn notes_say_what_they_are_given(thread_id: Seq<char>, said: Seq<char>, suffix: Seq<char>)
    ensures
        noted_as(runtime_note_event(thread_id, said, suffix), said),
        runtime_note_event(thread_id, said, suffix).idempotency_key == Some(
            "codex:"@ + key_escaped(thread_id) + ":runtime_note:host:"@ + key_escaped(suffix),
        ),
{
}

/// A change of model and a change of level are each stored exactly when there was
/// one, with what it was and what it is, the model first.
pub proof fn changes_are_stored(
    thread_id: Seq<char>,
    old_model: Seq<char>,
    new_model: Seq<char>,
    old_level: Seq<char>,
    new_level: Seq<char>,
)
    ensures
        ({
            let events = change_events(thread_id, old_model, new_model, old_level, new_level);
            let models: nat = if old_model != new_model {
                1
            } else {
                0
            };
            let levels: nat = if old_level != new_level {
                1
            } else {
                0
            };
            &&& events.len() == models + levels
            &&& old_model != new_model ==> stored_as(
                events[0],
                "model_change"@,
                "system"@,
                seq![
                    ("previousModel"@, JsonView::Text(old_model)),
                    ("newModel"@, JsonView::Text(new_model)),
                ],
            )
            &&& old_level != new_level ==> stored_as(
                events[models as int],
                "thinking_level_change"@,
                "system"@,
                seq![
                    ("previousLevel"@, JsonView::Text(old_level)),
                    ("newLevel"@, JsonView::Text(new_level)),
                ],
            )
        }),
{
}

} // verus!
