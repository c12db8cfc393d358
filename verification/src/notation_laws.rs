//! What the notation of an item holds of it.

use vstd::prelude::*;
use vstd::string::*;

use crate::json::{entry, Entries, Json, JsonView};
use crate::protocol::{
    AgentMessageInputContent, AgentMessageInputContentView, ContentItem, ContentItemView, FunctionCallOutputBodyView,
    FunctionCallOutputContentItem, FunctionCallOutputContentItemView, FunctionCallOutputPayload,
    FunctionCallOutputPayloadView, ImageDetail, LocalShellAction, LocalShellActionView,
    LocalShellStatus, ReasoningItemContent, ReasoningItemContentView,
    ReasoningItemReasoningSummary, ReasoningItemReasoningSummaryView, ResponseItemView,
    WebSearchAction, WebSearchActionView,
};
use crate::unwire::lemma_entry_push;
use crate::wire::{
    agent_message_input_content_entries, and_opt_json, and_opt_list, and_opt_text, content_item_entries,
    function_call_output_content_item_entries, list_wire, reasoning_item_content_entries,
    reasoning_item_reasoning_summary_entries, response_item_entries, tagged,
    web_search_action_entries, Wire,
};

verus! {

// ---------------------------------------------------------------------------
// Values
// ---------------------------------------------------------------------------

/// A text where there is one.
pub open spec fn text_if(s: Option<Seq<char>>) -> Option<JsonView> {
    match s {
        Some(t) => Some(JsonView::Text(t)),
        None => None,
    }
}

/// A text, or nothing in so many words.
pub open spec fn text_else_null(s: Option<Seq<char>>) -> JsonView {
    match s {
        Some(t) => JsonView::Text(t),
        None => JsonView::Null,
    }
}

/// The notations of some values, one for each, in their order.
pub open spec fn list_of<T: Wire>(v: Seq<T::V>) -> JsonView {
    JsonView::List(Seq::new(v.len(), |i: int| T::wire(v[i])))
}

broadcast proof fn lemma_pushed(e: Entries, name: Seq<char>, value: JsonView, key: Seq<char>)
    ensures
        #[trigger] entry(e.push((name, value)), key) == (match entry(e, key) {
            Some(v) => Some(v),
            None => if name == key {
                Some(value)
            } else {
                None
            },
        }),
{
    lemma_entry_push(e, name, value, key);
}

broadcast proof fn lemma_text_added(
    e: Entries,
    name: Seq<char>,
    value: Option<Seq<char>>,
    key: Seq<char>,
)
    ensures
        #[trigger] entry(and_opt_text(e, name, value), key) == (match entry(e, key) {
            Some(v) => Some(v),
            None => if name == key {
                text_if(value)
            } else {
                None
            },
        }),
{
    if let Some(s) = value {
        lemma_entry_push(e, name, JsonView::Text(s), key);
    }
}

broadcast proof fn lemma_json_added(
    e: Entries,
    name: Seq<char>,
    value: Option<JsonView>,
    key: Seq<char>,
)
    ensures
        #[trigger] entry(and_opt_json(e, name, value), key) == (match entry(e, key) {
            Some(v) => Some(v),
            None => if name == key {
                value
            } else {
                None
            },
        }),
{
    if let Some(j) = value {
        lemma_entry_push(e, name, j, key);
    }
}

broadcast proof fn lemma_list_added<T: Wire>(
    e: Entries,
    name: Seq<char>,
    value: Option<Seq<T::V>>,
    key: Seq<char>,
)
    ensures
        #[trigger] entry(and_opt_list::<T>(e, name, value), key) == (match entry(e, key) {
            Some(v) => Some(v),
            None => if name == key && value is Some {
                Some(list_of::<T>(value->0))
            } else {
                None
            },
        }),
{
    if let Some(v) = value {
        lemma_list::<T>(v);
        lemma_entry_push(e, name, list_wire::<T>(v), key);
    }
}

broadcast proof fn lemma_list<T: Wire>(v: Seq<T::V>)
    ensures
        #[trigger] list_wire::<T>(v) == list_of::<T>(v),
{
    assert(v.map_values(|x: T::V| T::wire(x)) =~= Seq::new(v.len(), |i: int| T::wire(v[i])));
}

broadcast proof fn lemma_tagged(tag: Seq<char>, key: Seq<char>)
    ensures
        #[trigger] entry(tagged(tag), key) == (if key == "type"@ {
            Some(JsonView::Text(tag))
        } else {
            None
        }),
{
    assert(tagged(tag).drop_first() =~= Seq::<(Seq<char>, JsonView)>::empty());
    assert(entry(Seq::<(Seq<char>, JsonView)>::empty(), key) is None);
}

broadcast group group_entries {
    lemma_pushed,
    lemma_text_added,
    lemma_json_added,
    lemma_list_added,
    lemma_list,
    lemma_tagged,
}

// ---------------------------------------------------------------------------
// Items
// ---------------------------------------------------------------------------

/// The notation of a message tells its kind and all that it holds, each under its own
/// name, and nothing that it does not hold.
pub proof fn messages_are_noted_whole(item: ResponseItemView)
    ensures
        item matches ResponseItemView::Message {
            id,
            role,
            content,
            phase,
            internal_chat_message_metadata_passthrough,
        } ==> {
            let e = response_item_entries(item);
            &&& entry(e, "type"@) == Some(JsonView::Text("message"@))
            &&& entry(e, "id"@) == text_if(id)
            &&& entry(e, "role"@) == Some(JsonView::Text(role))
            &&& entry(e, "content"@) == Some(list_of::<ContentItem>(content))
            &&& entry(e, "phase"@) == text_if(phase)
            &&& entry(e, "internal_chat_message_metadata_passthrough"@) == internal_chat_message_metadata_passthrough
            &&& forall|k: int| 0 <= k < e.len() ==> {
                ||| (#[trigger] e[k]).0 == "type"@
                ||| e[k].0 == "id"@
                ||| e[k].0 == "role"@
                ||| e[k].0 == "content"@
                ||| e[k].0 == "phase"@
                ||| e[k].0 == "internal_chat_message_metadata_passthrough"@
            }
        },
{
    broadcast use group_entries;

    reveal_strlit("type");
    reveal_strlit("id");
    reveal_strlit("role");
    reveal_strlit("content");
    reveal_strlit("phase");
    reveal_strlit("internal_chat_message_metadata_passthrough");
    assert("type"@.len() == 4 && "id"@.len() == 2 && "role"@.len() == 4 && "content"@.len() == 7 && "phase"@.len() == 5 && "internal_chat_message_metadata_passthrough"@.len() == 42);
    assert("type"@[0] != "role"@[0]);
}

/// The notation of a message between agents tells its kind and all that it holds, each under its own
/// name, and nothing that it does not hold.
pub proof fn agent_messages_are_noted_whole(item: ResponseItemView)
    ensures
        item matches ResponseItemView::AgentMessage {
            id,
            author,
            recipient,
            content,
            internal_chat_message_metadata_passthrough,
        } ==> {
            let e = response_item_entries(item);
            &&& entry(e, "type"@) == Some(JsonView::Text("agent_message"@))
            &&& entry(e, "id"@) == text_if(id)
            &&& entry(e, "author"@) == Some(JsonView::Text(author))
            &&& entry(e, "recipient"@) == Some(JsonView::Text(recipient))
            &&& entry(e, "content"@) == Some(list_of::<AgentMessageInputContent>(content))
            &&& entry(e, "internal_chat_message_metadata_passthrough"@) == internal_chat_message_metadata_passthrough
            &&& forall|k: int| 0 <= k < e.len() ==> {
                ||| (#[trigger] e[k]).0 == "type"@
                ||| e[k].0 == "id"@
                ||| e[k].0 == "author"@
                ||| e[k].0 == "recipient"@
                ||| e[k].0 == "content"@
                ||| e[k].0 == "internal_chat_message_metadata_passthrough"@
            }
        },
{
    broadcast use group_entries;

    reveal_strlit("type");
    reveal_strlit("id");
    reveal_strlit("author");
    reveal_strlit("recipient");
    reveal_strlit("content");
    reveal_strlit("internal_chat_message_metadata_passthrough");
    assert("type"@.len() == 4 && "id"@.len() == 2 && "author"@.len() == 6 && "recipient"@.len() == 9 && "content"@.len() == 7 && "internal_chat_message_metadata_passthrough"@.len() == 42);
}

/// The notation of reasoning tells its kind and all that it holds, each under its own
/// name, and nothing that it does not hold.
pub proof fn reasoning_are_noted_whole(item: ResponseItemView)
    ensures
        item matches ResponseItemView::Reasoning {
            id,
            summary,
            content,
            encrypted_content,
            internal_chat_message_metadata_passthrough,
        } ==> {
            let e = response_item_entries(item);
            &&& entry(e, "type"@) == Some(JsonView::Text("reasoning"@))
            &&& entry(e, "id"@) == text_if(id)
            &&& entry(e, "summary"@) == Some(list_of::<ReasoningItemReasoningSummary>(summary))
            &&& entry(e, "content"@) == (match content {
                Some(v) => Some(list_of::<ReasoningItemContent>(v)),
                None => None,
            })
            &&& entry(e, "encrypted_content"@) == Some(text_else_null(encrypted_content))
            &&& entry(e, "internal_chat_message_metadata_passthrough"@) == internal_chat_message_metadata_passthrough
            &&& forall|k: int| 0 <= k < e.len() ==> {
                ||| (#[trigger] e[k]).0 == "type"@
                ||| e[k].0 == "id"@
                ||| e[k].0 == "summary"@
                ||| e[k].0 == "content"@
                ||| e[k].0 == "encrypted_content"@
                ||| e[k].0 == "internal_chat_message_metadata_passthrough"@
            }
        },
{
    broadcast use group_entries;

    reveal_strlit("type");
    reveal_strlit("id");
    reveal_strlit("summary");
    reveal_strlit("content");
    reveal_strlit("encrypted_content");
    reveal_strlit("internal_chat_message_metadata_passthrough");
    assert("type"@.len() == 4 && "id"@.len() == 2 && "summary"@.len() == 7 && "content"@.len() == 7 && "encrypted_content"@.len() == 17 && "internal_chat_message_metadata_passthrough"@.len() == 42);
    assert("summary"@[0] != "content"@[0]);
}

/// The notation of a shell call tells its kind and all that it holds, each under its own
/// name, and nothing that it does not hold.
pub proof fn shell_calls_are_noted_whole(item: ResponseItemView)
    ensures
        item matches ResponseItemView::LocalShellCall {
            id,
            call_id,
            status,
            action,
            internal_chat_message_metadata_passthrough,
        } ==> {
            let e = response_item_entries(item);
            &&& entry(e, "type"@) == Some(JsonView::Text("local_shell_call"@))
            &&& entry(e, "id"@) == text_if(id)
            &&& entry(e, "call_id"@) == Some(text_else_null(call_id))
            &&& entry(e, "status"@) == Some(LocalShellStatus::wire(status))
            &&& entry(e, "action"@) == Some(LocalShellAction::wire(action))
            &&& entry(e, "internal_chat_message_metadata_passthrough"@) == internal_chat_message_metadata_passthrough
            &&& forall|k: int| 0 <= k < e.len() ==> {
                ||| (#[trigger] e[k]).0 == "type"@
                ||| e[k].0 == "id"@
                ||| e[k].0 == "call_id"@
                ||| e[k].0 == "status"@
                ||| e[k].0 == "action"@
                ||| e[k].0 == "internal_chat_message_metadata_passthrough"@
            }
        },
{
    broadcast use group_entries;

    reveal_strlit("type");
    reveal_strlit("id");
    reveal_strlit("call_id");
    reveal_strlit("status");
    reveal_strlit("action");
    reveal_strlit("internal_chat_message_metadata_passthrough");
    assert("type"@.len() == 4 && "id"@.len() == 2 && "call_id"@.len() == 7 && "status"@.len() == 6 && "action"@.len() == 6 && "internal_chat_message_metadata_passthrough"@.len() == 42);
    assert("status"@[0] != "action"@[0]);
}

/// The notation of a function call tells its kind and all that it holds, each under its own
/// name, and nothing that it does not hold.
pub proof fn function_calls_are_noted_whole(item: ResponseItemView)
    ensures
        item matches ResponseItemView::FunctionCall {
            id,
            name,
            namespace,
            arguments,
            encrypted_function_args,
            call_id,
            internal_chat_message_metadata_passthrough,
        } ==> {
            let e = response_item_entries(item);
            &&& entry(e, "type"@) == Some(JsonView::Text("function_call"@))
            &&& entry(e, "id"@) == text_if(id)
            &&& entry(e, "name"@) == Some(JsonView::Text(name))
            &&& entry(e, "namespace"@) == text_if(namespace)
            &&& entry(e, "arguments"@) == Some(JsonView::Text(arguments))
            &&& entry(e, "encrypted_function_args"@) == (match encrypted_function_args {
                Some(v) => Some(list_of::<String>(v)),
                None => None,
            })
            &&& entry(e, "call_id"@) == Some(JsonView::Text(call_id))
            &&& entry(e, "internal_chat_message_metadata_passthrough"@) == internal_chat_message_metadata_passthrough
            &&& forall|k: int| 0 <= k < e.len() ==> {
                ||| (#[trigger] e[k]).0 == "type"@
                ||| e[k].0 == "id"@
                ||| e[k].0 == "name"@
                ||| e[k].0 == "namespace"@
                ||| e[k].0 == "arguments"@
                ||| e[k].0 == "encrypted_function_args"@
                ||| e[k].0 == "call_id"@
                ||| e[k].0 == "internal_chat_message_metadata_passthrough"@
            }
        },
{
    broadcast use group_entries;

    reveal_strlit("type");
    reveal_strlit("id");
    reveal_strlit("name");
    reveal_strlit("namespace");
    reveal_strlit("arguments");
    reveal_strlit("encrypted_function_args");
    reveal_strlit("call_id");
    reveal_strlit("internal_chat_message_metadata_passthrough");
    assert("type"@.len() == 4 && "id"@.len() == 2 && "name"@.len() == 4 && "namespace"@.len() == 9 && "arguments"@.len() == 9 && "encrypted_function_args"@.len() == 23 && "call_id"@.len() == 7 && "internal_chat_message_metadata_passthrough"@.len() == 42);
    assert("type"@[0] != "name"@[0]);
    assert("namespace"@[0] != "arguments"@[0]);
}

/// The notation of a search of tools tells its kind and all that it holds, each under its own
/// name, and nothing that it does not hold.
pub proof fn tool_searches_are_noted_whole(item: ResponseItemView)
    ensures
        item matches ResponseItemView::ToolSearchCall {
            id,
            call_id,
            status,
            execution,
            arguments,
            internal_chat_message_metadata_passthrough,
        } ==> {
            let e = response_item_entries(item);
            &&& entry(e, "type"@) == Some(JsonView::Text("tool_search_call"@))
            &&& entry(e, "id"@) == text_if(id)
            &&& entry(e, "call_id"@) == Some(text_else_null(call_id))
            &&& entry(e, "status"@) == text_if(status)
            &&& entry(e, "execution"@) == Some(JsonView::Text(execution))
            &&& entry(e, "arguments"@) == Some(arguments)
            &&& entry(e, "internal_chat_message_metadata_passthrough"@) == internal_chat_message_metadata_passthrough
            &&& forall|k: int| 0 <= k < e.len() ==> {
                ||| (#[trigger] e[k]).0 == "type"@
                ||| e[k].0 == "id"@
                ||| e[k].0 == "call_id"@
                ||| e[k].0 == "status"@
                ||| e[k].0 == "execution"@
                ||| e[k].0 == "arguments"@
                ||| e[k].0 == "internal_chat_message_metadata_passthrough"@
            }
        },
{
    broadcast use group_entries;

    reveal_strlit("type");
    reveal_strlit("id");
    reveal_strlit("call_id");
    reveal_strlit("status");
    reveal_strlit("execution");
    reveal_strlit("arguments");
    reveal_strlit("internal_chat_message_metadata_passthrough");
    assert("type"@.len() == 4 && "id"@.len() == 2 && "call_id"@.len() == 7 && "status"@.len() == 6 && "execution"@.len() == 9 && "arguments"@.len() == 9 && "internal_chat_message_metadata_passthrough"@.len() == 42);
    assert("execution"@[0] != "arguments"@[0]);
}

/// The notation of an output tells its kind and all that it holds, each under its own
/// name, and nothing that it does not hold.
pub proof fn outputs_are_noted_whole(item: ResponseItemView)
    ensures
        item matches ResponseItemView::FunctionCallOutput {
            id,
            call_id,
            name,
            namespace,
            output,
            internal_chat_message_metadata_passthrough,
        } ==> {
            let e = response_item_entries(item);
            &&& entry(e, "type"@) == Some(JsonView::Text("function_call_output"@))
            &&& entry(e, "id"@) == text_if(id)
            &&& entry(e, "call_id"@) == text_if(call_id)
            &&& entry(e, "name"@) == text_if(name)
            &&& entry(e, "namespace"@) == text_if(namespace)
            &&& entry(e, "output"@) == Some(FunctionCallOutputPayload::wire(output))
            &&& entry(e, "internal_chat_message_metadata_passthrough"@) == internal_chat_message_metadata_passthrough
            &&& forall|k: int| 0 <= k < e.len() ==> {
                ||| (#[trigger] e[k]).0 == "type"@
                ||| e[k].0 == "id"@
                ||| e[k].0 == "call_id"@
                ||| e[k].0 == "name"@
                ||| e[k].0 == "namespace"@
                ||| e[k].0 == "output"@
                ||| e[k].0 == "internal_chat_message_metadata_passthrough"@
            }
        },
{
    broadcast use group_entries;

    reveal_strlit("type");
    reveal_strlit("id");
    reveal_strlit("call_id");
    reveal_strlit("name");
    reveal_strlit("namespace");
    reveal_strlit("output");
    reveal_strlit("internal_chat_message_metadata_passthrough");
    assert("type"@.len() == 4 && "id"@.len() == 2 && "call_id"@.len() == 7 && "name"@.len() == 4 && "namespace"@.len() == 9 && "output"@.len() == 6 && "internal_chat_message_metadata_passthrough"@.len() == 42);
    assert("type"@[0] != "name"@[0]);
}

/// The notation of a custom call tells its kind and all that it holds, each under its own
/// name, and nothing that it does not hold.
pub proof fn custom_calls_are_noted_whole(item: ResponseItemView)
    ensures
        item matches ResponseItemView::CustomToolCall {
            id,
            status,
            call_id,
            name,
            namespace,
            input,
            internal_chat_message_metadata_passthrough,
        } ==> {
            let e = response_item_entries(item);
            &&& entry(e, "type"@) == Some(JsonView::Text("custom_tool_call"@))
            &&& entry(e, "id"@) == text_if(id)
            &&& entry(e, "status"@) == text_if(status)
            &&& entry(e, "call_id"@) == Some(JsonView::Text(call_id))
            &&& entry(e, "name"@) == Some(JsonView::Text(name))
            &&& entry(e, "namespace"@) == text_if(namespace)
            &&& entry(e, "input"@) == Some(JsonView::Text(input))
            &&& entry(e, "internal_chat_message_metadata_passthrough"@) == internal_chat_message_metadata_passthrough
            &&& forall|k: int| 0 <= k < e.len() ==> {
                ||| (#[trigger] e[k]).0 == "type"@
                ||| e[k].0 == "id"@
                ||| e[k].0 == "status"@
                ||| e[k].0 == "call_id"@
                ||| e[k].0 == "name"@
                ||| e[k].0 == "namespace"@
                ||| e[k].0 == "input"@
                ||| e[k].0 == "internal_chat_message_metadata_passthrough"@
            }
        },
{
    broadcast use group_entries;

    reveal_strlit("type");
    reveal_strlit("id");
    reveal_strlit("status");
    reveal_strlit("call_id");
    reveal_strlit("name");
    reveal_strlit("namespace");
    reveal_strlit("input");
    reveal_strlit("internal_chat_message_metadata_passthrough");
    assert("type"@.len() == 4 && "id"@.len() == 2 && "status"@.len() == 6 && "call_id"@.len() == 7 && "name"@.len() == 4 && "namespace"@.len() == 9 && "input"@.len() == 5 && "internal_chat_message_metadata_passthrough"@.len() == 42);
    assert("type"@[0] != "name"@[0]);
}

/// The notation of the output of a custom call tells its kind and all that it holds, each under its own
/// name, and nothing that it does not hold.
pub proof fn custom_outputs_are_noted_whole(item: ResponseItemView)
    ensures
        item matches ResponseItemView::CustomToolCallOutput {
            id,
            call_id,
            name,
            output,
            internal_chat_message_metadata_passthrough,
        } ==> {
            let e = response_item_entries(item);
            &&& entry(e, "type"@) == Some(JsonView::Text("custom_tool_call_output"@))
            &&& entry(e, "id"@) == text_if(id)
            &&& entry(e, "call_id"@) == Some(JsonView::Text(call_id))
            &&& entry(e, "name"@) == text_if(name)
            &&& entry(e, "output"@) == Some(FunctionCallOutputPayload::wire(output))
            &&& entry(e, "internal_chat_message_metadata_passthrough"@) == internal_chat_message_metadata_passthrough
            &&& forall|k: int| 0 <= k < e.len() ==> {
                ||| (#[trigger] e[k]).0 == "type"@
                ||| e[k].0 == "id"@
                ||| e[k].0 == "call_id"@
                ||| e[k].0 == "name"@
                ||| e[k].0 == "output"@
                ||| e[k].0 == "internal_chat_message_metadata_passthrough"@
            }
        },
{
    broadcast use group_entries;

    reveal_strlit("type");
    reveal_strlit("id");
    reveal_strlit("call_id");
    reveal_strlit("name");
    reveal_strlit("output");
    reveal_strlit("internal_chat_message_metadata_passthrough");
    assert("type"@.len() == 4 && "id"@.len() == 2 && "call_id"@.len() == 7 && "name"@.len() == 4 && "output"@.len() == 6 && "internal_chat_message_metadata_passthrough"@.len() == 42);
    assert("type"@[0] != "name"@[0]);
}

/// The notation of the result of a search of tools tells its kind and all that it holds, each under its own
/// name, and nothing that it does not hold.
pub proof fn found_tools_are_noted_whole(item: ResponseItemView)
    ensures
        item matches ResponseItemView::ToolSearchOutput {
            id,
            call_id,
            status,
            execution,
            tools,
            internal_chat_message_metadata_passthrough,
        } ==> {
            let e = response_item_entries(item);
            &&& entry(e, "type"@) == Some(JsonView::Text("tool_search_output"@))
            &&& entry(e, "id"@) == text_if(id)
            &&& entry(e, "call_id"@) == Some(text_else_null(call_id))
            &&& entry(e, "status"@) == Some(JsonView::Text(status))
            &&& entry(e, "execution"@) == Some(JsonView::Text(execution))
            &&& entry(e, "tools"@) == Some(list_of::<Json>(tools))
            &&& entry(e, "internal_chat_message_metadata_passthrough"@) == internal_chat_message_metadata_passthrough
            &&& forall|k: int| 0 <= k < e.len() ==> {
                ||| (#[trigger] e[k]).0 == "type"@
                ||| e[k].0 == "id"@
                ||| e[k].0 == "call_id"@
                ||| e[k].0 == "status"@
                ||| e[k].0 == "execution"@
                ||| e[k].0 == "tools"@
                ||| e[k].0 == "internal_chat_message_metadata_passthrough"@
            }
        },
{
    broadcast use group_entries;

    reveal_strlit("type");
    reveal_strlit("id");
    reveal_strlit("call_id");
    reveal_strlit("status");
    reveal_strlit("execution");
    reveal_strlit("tools");
    reveal_strlit("internal_chat_message_metadata_passthrough");
    assert("type"@.len() == 4 && "id"@.len() == 2 && "call_id"@.len() == 7 && "status"@.len() == 6 && "execution"@.len() == 9 && "tools"@.len() == 5 && "internal_chat_message_metadata_passthrough"@.len() == 42);
}

/// The notation of a web search tells its kind and all that it holds, each under its own
/// name, and nothing that it does not hold.
pub proof fn web_searches_are_noted_whole(item: ResponseItemView)
    ensures
        item matches ResponseItemView::WebSearchCall {
            id,
            status,
            action,
            internal_chat_message_metadata_passthrough,
        } ==> {
            let e = response_item_entries(item);
            &&& entry(e, "type"@) == Some(JsonView::Text("web_search_call"@))
            &&& entry(e, "id"@) == text_if(id)
            &&& entry(e, "status"@) == text_if(status)
            &&& entry(e, "action"@) == (match action {
                Some(a) => Some(WebSearchAction::wire(a)),
                None => None,
            })
            &&& entry(e, "internal_chat_message_metadata_passthrough"@) == internal_chat_message_metadata_passthrough
            &&& forall|k: int| 0 <= k < e.len() ==> {
                ||| (#[trigger] e[k]).0 == "type"@
                ||| e[k].0 == "id"@
                ||| e[k].0 == "status"@
                ||| e[k].0 == "action"@
                ||| e[k].0 == "internal_chat_message_metadata_passthrough"@
            }
        },
{
    broadcast use group_entries;

    reveal_strlit("type");
    reveal_strlit("id");
    reveal_strlit("status");
    reveal_strlit("action");
    reveal_strlit("internal_chat_message_metadata_passthrough");
    assert("type"@.len() == 4 && "id"@.len() == 2 && "status"@.len() == 6 && "action"@.len() == 6 && "internal_chat_message_metadata_passthrough"@.len() == 42);
    assert("status"@[0] != "action"@[0]);
}

/// The notation of a generated image tells its kind and all that it holds, each under its own
/// name, and nothing that it does not hold.
pub proof fn images_are_noted_whole(item: ResponseItemView)
    ensures
        item matches ResponseItemView::ImageGenerationCall {
            id,
            status,
            revised_prompt,
            result,
            internal_chat_message_metadata_passthrough,
        } ==> {
            let e = response_item_entries(item);
            &&& entry(e, "type"@) == Some(JsonView::Text("image_generation_call"@))
            &&& entry(e, "id"@) == text_if(id)
            &&& entry(e, "status"@) == Some(JsonView::Text(status))
            &&& entry(e, "revised_prompt"@) == text_if(revised_prompt)
            &&& entry(e, "result"@) == Some(JsonView::Text(result))
            &&& entry(e, "internal_chat_message_metadata_passthrough"@) == internal_chat_message_metadata_passthrough
            &&& forall|k: int| 0 <= k < e.len() ==> {
                ||| (#[trigger] e[k]).0 == "type"@
                ||| e[k].0 == "id"@
                ||| e[k].0 == "status"@
                ||| e[k].0 == "revised_prompt"@
                ||| e[k].0 == "result"@
                ||| e[k].0 == "internal_chat_message_metadata_passthrough"@
            }
        },
{
    broadcast use group_entries;

    reveal_strlit("type");
    reveal_strlit("id");
    reveal_strlit("status");
    reveal_strlit("revised_prompt");
    reveal_strlit("result");
    reveal_strlit("internal_chat_message_metadata_passthrough");
    assert("type"@.len() == 4 && "id"@.len() == 2 && "status"@.len() == 6 && "revised_prompt"@.len() == 14 && "result"@.len() == 6 && "internal_chat_message_metadata_passthrough"@.len() == 42);
    assert("status"@[0] != "result"@[0]);
}

/// The notation of tools tells its kind and all that it holds, each under its own
/// name, and nothing that it does not hold.
pub proof fn additional_tools_are_noted_whole(item: ResponseItemView)
    ensures
        item matches ResponseItemView::AdditionalTools {
            id,
            role,
            tools,
        } ==> {
            let e = response_item_entries(item);
            &&& entry(e, "type"@) == Some(JsonView::Text("additional_tools"@))
            &&& entry(e, "id"@) == text_if(id)
            &&& entry(e, "role"@) == Some(JsonView::Text(role))
            &&& entry(e, "tools"@) == Some(list_of::<Json>(tools))
            &&& forall|k: int| 0 <= k < e.len() ==> {
                ||| (#[trigger] e[k]).0 == "type"@
                ||| e[k].0 == "id"@
                ||| e[k].0 == "role"@
                ||| e[k].0 == "tools"@
            }
        },
{
    broadcast use group_entries;

    reveal_strlit("type");
    reveal_strlit("id");
    reveal_strlit("role");
    reveal_strlit("tools");
    assert("type"@.len() == 4 && "id"@.len() == 2 && "role"@.len() == 4 && "tools"@.len() == 5);
    assert("type"@[0] != "role"@[0]);
}

/// The notation of a compaction tells its kind and all that it holds, each under its own
/// name, and nothing that it does not hold.
pub proof fn compactions_are_noted_whole(item: ResponseItemView)
    ensures
        item matches ResponseItemView::Compaction {
            id,
            encrypted_content,
            internal_chat_message_metadata_passthrough,
        } ==> {
            let e = response_item_entries(item);
            &&& entry(e, "type"@) == Some(JsonView::Text("compaction"@))
            &&& entry(e, "id"@) == text_if(id)
            &&& entry(e, "encrypted_content"@) == Some(JsonView::Text(encrypted_content))
            &&& entry(e, "internal_chat_message_metadata_passthrough"@) == internal_chat_message_metadata_passthrough
            &&& forall|k: int| 0 <= k < e.len() ==> {
                ||| (#[trigger] e[k]).0 == "type"@
                ||| e[k].0 == "id"@
                ||| e[k].0 == "encrypted_content"@
                ||| e[k].0 == "internal_chat_message_metadata_passthrough"@
            }
        },
{
    broadcast use group_entries;

    reveal_strlit("type");
    reveal_strlit("id");
    reveal_strlit("encrypted_content");
    reveal_strlit("internal_chat_message_metadata_passthrough");
    assert("type"@.len() == 4 && "id"@.len() == 2 && "encrypted_content"@.len() == 17 && "internal_chat_message_metadata_passthrough"@.len() == 42);
}

/// The notation of a compaction of the context tells its kind and all that it holds, each under its own
/// name, and nothing that it does not hold.
pub proof fn context_compactions_are_noted_whole(item: ResponseItemView)
    ensures
        item matches ResponseItemView::ContextCompaction {
            id,
            encrypted_content,
            internal_chat_message_metadata_passthrough,
        } ==> {
            let e = response_item_entries(item);
            &&& entry(e, "type"@) == Some(JsonView::Text("context_compaction"@))
            &&& entry(e, "id"@) == text_if(id)
            &&& entry(e, "encrypted_content"@) == text_if(encrypted_content)
            &&& entry(e, "internal_chat_message_metadata_passthrough"@) == internal_chat_message_metadata_passthrough
            &&& forall|k: int| 0 <= k < e.len() ==> {
                ||| (#[trigger] e[k]).0 == "type"@
                ||| e[k].0 == "id"@
                ||| e[k].0 == "encrypted_content"@
                ||| e[k].0 == "internal_chat_message_metadata_passthrough"@
            }
        },
{
    broadcast use group_entries;

    reveal_strlit("type");
    reveal_strlit("id");
    reveal_strlit("encrypted_content");
    reveal_strlit("internal_chat_message_metadata_passthrough");
    assert("type"@.len() == 4 && "id"@.len() == 2 && "encrypted_content"@.len() == 17 && "internal_chat_message_metadata_passthrough"@.len() == 42);
}

/// Items that hold nothing are told by their kind alone.
pub proof fn bare_items_are_noted(item: ResponseItemView)
    ensures
        item is CompactionTrigger ==> response_item_entries(item) == seq![
            ("type"@, JsonView::Text("compaction_trigger"@)),
        ],
        item is Other ==> response_item_entries(item) == seq![
            ("type"@, JsonView::Text("other"@)),
        ],
{
}

// ---------------------------------------------------------------------------
// Parts
// ---------------------------------------------------------------------------

/// A part of a message is noted with its kind and what it holds.
pub proof fn parts_are_noted_whole(part: ContentItemView)
    ensures
        ({
            let e = content_item_entries(part);
            match part {
                ContentItemView::InputText { text } => entry(e, "type"@) == Some(
                    JsonView::Text("input_text"@),
                ) && entry(e, "text"@) == Some(JsonView::Text(text)),
                ContentItemView::OutputText { text } => entry(e, "type"@) == Some(
                    JsonView::Text("output_text"@),
                ) && entry(e, "text"@) == Some(JsonView::Text(text)),
                ContentItemView::InputImage { image_url, detail } => entry(e, "type"@) == Some(
                    JsonView::Text("input_image"@),
                ) && entry(e, "image_url"@) == Some(JsonView::Text(image_url)) && entry(
                    e,
                    "detail"@,
                ) == (match detail {
                    Some(d) => Some(ImageDetail::wire(d)),
                    None => None,
                }),
                ContentItemView::InputAudio { audio_url } => entry(e, "type"@) == Some(
                    JsonView::Text("input_audio"@),
                ) && entry(e, "audio_url"@) == Some(JsonView::Text(audio_url)),
            }
        }),
{
    broadcast use group_entries;

    reveal_strlit("type");
    reveal_strlit("text");
    reveal_strlit("image_url");
    reveal_strlit("audio_url");
    reveal_strlit("detail");
    assert("type"@.len() == 4 && "text"@.len() == 4 && "type"@[1] != "text"@[1]);
    assert("image_url"@.len() == 9 && "audio_url"@.len() == 9 && "detail"@.len() == 6);
}

/// A part of an output is noted with its kind and what it holds.
pub proof fn output_parts_are_noted_whole(part: FunctionCallOutputContentItemView)
    ensures
        ({
            let e = function_call_output_content_item_entries(part);
            match part {
                FunctionCallOutputContentItemView::InputText { text } => entry(e, "type"@) == Some(
                    JsonView::Text("input_text"@),
                ) && entry(e, "text"@) == Some(JsonView::Text(text)),
                FunctionCallOutputContentItemView::InputImage { image_url, detail } => entry(
                    e,
                    "type"@,
                ) == Some(JsonView::Text("input_image"@)) && entry(e, "image_url"@) == Some(
                    JsonView::Text(image_url),
                ) && entry(e, "detail"@) == (match detail {
                    Some(d) => Some(ImageDetail::wire(d)),
                    None => None,
                }),
                FunctionCallOutputContentItemView::InputAudio { audio_url } => entry(e, "type"@)
                    == Some(JsonView::Text("input_audio"@)) && entry(e, "audio_url"@) == Some(
                    JsonView::Text(audio_url),
                ),
                FunctionCallOutputContentItemView::EncryptedContent { encrypted_content } => entry(
                    e,
                    "type"@,
                ) == Some(JsonView::Text("encrypted_content"@)) && entry(
                    e,
                    "encrypted_content"@,
                ) == Some(JsonView::Text(encrypted_content)),
            }
        }),
{
    broadcast use group_entries;

    reveal_strlit("type");
    reveal_strlit("text");
    reveal_strlit("image_url");
    reveal_strlit("audio_url");
    reveal_strlit("detail");
    reveal_strlit("encrypted_content");
    assert("type"@.len() == 4 && "text"@.len() == 4 && "type"@[1] != "text"@[1]);
    assert("image_url"@.len() == 9 && "audio_url"@.len() == 9 && "detail"@.len() == 6
        && "encrypted_content"@.len() == 17);
}

/// An output is noted as its text, or part by part.
pub proof fn payloads_are_noted_whole(payload: FunctionCallOutputPayloadView)
    ensures
        payload.body matches FunctionCallOutputBodyView::Text(s) ==>
            FunctionCallOutputPayload::wire(payload) == JsonView::Text(s),
        payload.body matches FunctionCallOutputBodyView::ContentItems(parts) ==>
            FunctionCallOutputPayload::wire(payload) == list_of::<FunctionCallOutputContentItem>(
            parts,
        ),
{
    broadcast use group_entries;

}

/// A shell command is noted with its words, its limit, its directory, its
/// environment and its user.
pub proof fn shell_actions_are_noted_whole(action: LocalShellActionView)
    ensures
        action matches LocalShellActionView::Exec(x) && LocalShellAction::wire(action) matches
            JsonView::Object(e) && {
            &&& entry(e, "type"@) == Some(JsonView::Text("exec"@))
            &&& entry(e, "command"@) == Some(list_of::<String>(x.command))
            &&& entry(e, "timeout_ms"@) == Some(
                match x.timeout_ms {
                    Some(n) => JsonView::Int(n as int),
                    None => JsonView::Null,
                },
            )
            &&& entry(e, "working_directory"@) == Some(text_else_null(x.working_directory))
            &&& entry(e, "env"@) == Some(
                match x.env {
                    Some(v) => JsonView::Object(
                        Seq::new(v.len(), |i: int| (v[i].name, JsonView::Text(v[i].value))),
                    ),
                    None => JsonView::Null,
                },
            )
            &&& entry(e, "user"@) == Some(text_else_null(x.user))
        },
{
    broadcast use group_entries;

    reveal_strlit("type");
    reveal_strlit("command");
    reveal_strlit("timeout_ms");
    reveal_strlit("working_directory");
    reveal_strlit("env");
    reveal_strlit("user");
    assert("type"@.len() == 4 && "command"@.len() == 7 && "timeout_ms"@.len() == 10
        && "working_directory"@.len() == 17 && "env"@.len() == 3 && "user"@.len() == 4
        && "type"@[0] != "user"@[0]);
    if let LocalShellActionView::Exec(x) = action {
        if let Some(v) = x.env {
            assert(crate::wire::env_entries(v) =~= Seq::new(
                v.len(),
                |i: int| (v[i].name, JsonView::Text(v[i].value)),
            ));
        }
    }
}

/// A part of a message between agents is noted with its kind and what it holds.
pub proof fn agent_parts_are_noted_whole(part: AgentMessageInputContentView)
    ensures
        ({
            let e = agent_message_input_content_entries(part);
            match part {
                AgentMessageInputContentView::InputText { text } => entry(e, "type"@) == Some(
                    JsonView::Text("input_text"@),
                ) && entry(e, "text"@) == Some(JsonView::Text(text)),
                AgentMessageInputContentView::EncryptedContent { encrypted_content } => entry(
                    e,
                    "type"@,
                ) == Some(JsonView::Text("encrypted_content"@)) && entry(
                    e,
                    "encrypted_content"@,
                ) == Some(JsonView::Text(encrypted_content)),
            }
        }),
{
    broadcast use group_entries;

    reveal_strlit("type");
    reveal_strlit("text");
    reveal_strlit("encrypted_content");
    assert("type"@.len() == 4 && "text"@.len() == 4 && "type"@[1] != "text"@[1]);
    assert("encrypted_content"@.len() == 17);
}

/// A part of reasoning, and of its summary, is noted with its kind and its text.
pub proof fn thoughts_are_noted_whole(
    summary: ReasoningItemReasoningSummaryView,
    thought: ReasoningItemContentView,
)
    ensures
        ({
            let e = reasoning_item_reasoning_summary_entries(summary);
            summary matches ReasoningItemReasoningSummaryView::SummaryText { text } && entry(
                e,
                "type"@,
            ) == Some(JsonView::Text("summary_text"@)) && entry(e, "text"@) == Some(
                JsonView::Text(text),
            )
        }),
        ({
            let e = reasoning_item_content_entries(thought);
            match thought {
                ReasoningItemContentView::ReasoningText { text } => entry(e, "type"@) == Some(
                    JsonView::Text("reasoning_text"@),
                ) && entry(e, "text"@) == Some(JsonView::Text(text)),
                ReasoningItemContentView::Text { text } => entry(e, "type"@) == Some(
                    JsonView::Text("text"@),
                ) && entry(e, "text"@) == Some(JsonView::Text(text)),
            }
        }),
{
    broadcast use group_entries;

    reveal_strlit("type");
    reveal_strlit("text");
    assert("type"@.len() == 4 && "text"@.len() == 4 && "type"@[1] != "text"@[1]);
}

/// A web search is noted with its kind and all that it asks for.
pub proof fn search_actions_are_noted_whole(action: WebSearchActionView)
    ensures
        ({
            let e = web_search_action_entries(action);
            match action {
                WebSearchActionView::Search { query, queries } => entry(e, "type"@) == Some(
                    JsonView::Text("search"@),
                ) && entry(e, "query"@) == text_if(query) && entry(e, "queries"@) == (
                match queries {
                    Some(v) => Some(list_of::<String>(v)),
                    None => None,
                }),
                WebSearchActionView::OpenPage { url } => entry(e, "type"@) == Some(
                    JsonView::Text("open_page"@),
                ) && entry(e, "url"@) == text_if(url),
                WebSearchActionView::FindInPage { url, pattern } => entry(e, "type"@) == Some(
                    JsonView::Text("find_in_page"@),
                ) && entry(e, "url"@) == text_if(url) && entry(e, "pattern"@) == text_if(pattern),
                WebSearchActionView::Other => e == seq![("type"@, JsonView::Text("other"@))],
            }
        }),
{
    broadcast use group_entries;

    reveal_strlit("type");
    reveal_strlit("query");
    reveal_strlit("queries");
    reveal_strlit("url");
    reveal_strlit("pattern");
    assert("type"@.len() == 4 && "query"@.len() == 5 && "queries"@.len() == 7 && "url"@.len() == 3
        && "pattern"@.len() == 7 && "pattern"@[0] != "queries"@[0]);
}

/// How closely an image is to be looked at, and how far a shell call came, are
/// noted in words.
pub proof fn details_and_states_are_noted()
    ensures
        ImageDetail::wire(ImageDetail::Auto) == JsonView::Text("auto"@),
        ImageDetail::wire(ImageDetail::Low) == JsonView::Text("low"@),
        ImageDetail::wire(ImageDetail::High) == JsonView::Text("high"@),
        ImageDetail::wire(ImageDetail::Original) == JsonView::Text("original"@),
        LocalShellStatus::wire(LocalShellStatus::Completed) == JsonView::Text("completed"@),
        LocalShellStatus::wire(LocalShellStatus::InProgress) == JsonView::Text("in_progress"@),
        LocalShellStatus::wire(LocalShellStatus::Incomplete) == JsonView::Text("incomplete"@),
{
}

} // verus!
