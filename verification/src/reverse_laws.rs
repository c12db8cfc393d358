//! What a rebuilt item keeps of what the store held.

use vstd::prelude::*;
use vstd::string::*;

use crate::host_ids::{is_of_kind, kind_prefix};
use crate::json::{member, Entries, JsonView};
use crate::mapping::web_search_arguments_of;
use crate::protocol::{
    item_id, ContentItemView, FunctionCallOutputBodyView, FunctionCallOutputPayloadView,
    LocalShellStatus, ReasoningItemReasoningSummaryView, ResponseItemView, WebSearchActionView,
};
use crate::reverse::{
    completed_image, item_lines, rebuilt_call, rebuilt_result, unanswered_image,
    RecoveredToolCallKind,
};
use crate::rollout::{EventMsgView, RolloutItemView};
use crate::text::begins_with;
use crate::unwire::search_action_reads_back;

verus! {

// ---------------------------------------------------------------------------
// Identities
// ---------------------------------------------------------------------------

/// An identity that is worn: one that the host gave.
pub open spec fn worn(id: Option<Seq<char>>) -> Option<Seq<char>> {
    if id is Some && id->0.len() > 0 && !begins_with(id->0, "synthetic:"@) {
        id
    } else {
        None
    }
}

/// The identity is that of an item of a kind: the kind alone, or followed by an
/// underscore and anything.
pub open spec fn marks(id: Seq<char>, kind: Seq<char>) -> bool {
    id == kind || (id.len() > kind.len() && id.take(kind.len() as int) == kind
        && id[kind.len() as int] == '_')
}

/// The host knows items of this kind.
pub open spec fn is_kind(kind: Seq<char>) -> bool {
    ||| kind == "ctco"@
    ||| kind == "ctc"@
    ||| kind == "fco"@
    ||| kind == "fc"@
    ||| kind == "lsh"@
    ||| kind == "tsc"@
    ||| kind == "tso"@
    ||| kind == "ws"@
    ||| kind == "ig"@
    ||| kind == "msg"@
    ||| kind == "rs"@
    ||| kind == "amsg"@
    ||| kind == "at"@
    ||| kind == "cmp"@
}

proof fn lemma_marks(id: Seq<char>, kind: Seq<char>)
    ensures
        marks(id, kind) == is_of_kind(id, kind),
        marks(id, kind) ==> id.len() >= kind.len() && (forall|i: int|
            0 <= i < kind.len() ==> #[trigger] id[i] == kind[i]) && (id.len() == kind.len()
            || id[kind.len() as int] == '_'),
{
    reveal_strlit("_");
    let marked = kind + "_"@;
    assert("_"@.len() == 1 && "_"@[0] == '_');
    if marks(id, kind) && id != kind {
        assert(id.take(marked.len() as int) =~= marked) by {
            assert forall|i: int| 0 <= i < marked.len() implies id.take(marked.len() as int)[i]
                == marked[i] by {
                if i < kind.len() {
                    assert(id.take(kind.len() as int)[i] == kind[i]);
                }
            }
        }
        assert forall|i: int| 0 <= i < kind.len() implies #[trigger] id[i] == kind[i] by {
            assert(id.take(kind.len() as int)[i] == kind[i]);
        }
    }
    if is_of_kind(id, kind) && id != kind {
        assert(id.take(kind.len() as int) =~= kind) by {
            assert forall|i: int| 0 <= i < kind.len() implies id.take(kind.len() as int)[i]
                == kind[i] by {
                assert(id.take(marked.len() as int)[i] == marked[i]);
            }
        }
        assert(id.take(marked.len() as int)[kind.len() as int] == '_');
    }
}

/// What kind of item an identity belongs to is told by what stands before its
/// first underscore.
pub proof fn kinds_are_told_by_their_marks(id: Seq<char>, kind: Seq<char>)
    ensures
        is_kind(kind) ==> (kind_prefix(id) == Some(kind) <==> marks(id, kind)),
        kind_prefix(id) == Some(kind) ==> is_kind(kind),
{
    lemma_marks(id, "ctco"@);
    lemma_marks(id, "ctc"@);
    lemma_marks(id, "fco"@);
    lemma_marks(id, "fc"@);
    lemma_marks(id, "lsh"@);
    lemma_marks(id, "tsc"@);
    lemma_marks(id, "tso"@);
    lemma_marks(id, "ws"@);
    lemma_marks(id, "ig"@);
    lemma_marks(id, "msg"@);
    lemma_marks(id, "rs"@);
    lemma_marks(id, "amsg"@);
    lemma_marks(id, "at"@);
    lemma_marks(id, "cmp"@);
    lemma_one_kind(id, kind, kind_prefix(id));
}

/// No identity belongs to two kinds.
proof fn lemma_one_kind(id: Seq<char>, kind: Seq<char>, other: Option<Seq<char>>)
    requires
        other is Some ==> is_kind(other->0) && marks(id, other->0),
        other is None ==> (is_kind(kind) ==> !marks(id, kind)),
    ensures
        is_kind(kind) ==> (other == Some(kind) <==> marks(id, kind)),
{
    if other is Some && is_kind(kind) && marks(id, kind) {
        let a = kind;
        let b = other->0;
        lemma_marks(id, a);
        lemma_marks(id, b);
        lemma_no_underscore(a);
        lemma_no_underscore(b);
        assert(a.len() == b.len());
        assert(a =~= b);
    }
}

proof fn lemma_no_underscore(kind: Seq<char>)
    requires
        is_kind(kind),
    ensures
        forall|i: int| 0 <= i < kind.len() ==> #[trigger] kind[i] != '_',
{
    reveal_strlit("ctco");
    reveal_strlit("ctc");
    reveal_strlit("fco");
    reveal_strlit("fc");
    reveal_strlit("lsh");
    reveal_strlit("tsc");
    reveal_strlit("tso");
    reveal_strlit("ws");
    reveal_strlit("ig");
    reveal_strlit("msg");
    reveal_strlit("rs");
    reveal_strlit("amsg");
    reveal_strlit("at");
    reveal_strlit("cmp");
}

// ---------------------------------------------------------------------------
// Results
// ---------------------------------------------------------------------------

/// What an output holds.
pub open spec fn output_of(item: ResponseItemView) -> Option<FunctionCallOutputPayloadView> {
    match item {
        ResponseItemView::FunctionCallOutput { output, .. } => Some(output),
        ResponseItemView::CustomToolCallOutput { output, .. } => Some(output),
        _ => None,
    }
}

/// A result is rebuilt with the text that the store held, as a success exactly
/// when the store says that it was no error, and as a failure exactly when the
/// store says that it was one.
pub proof fn results_keep_their_outcome(
    call_id: Seq<char>,
    name: Option<Seq<char>>,
    content: Seq<char>,
    is_error: Option<bool>,
    id: Option<Seq<char>>,
    kind: Option<RecoveredToolCallKind>,
    read: Option<JsonView>,
)
    requires
        name != Some("tool_search"@),
    ensures
        ({
            let item = rebuilt_result(call_id, name, content, is_error, id, kind, read).item;
            &&& output_of(item) is Some
            &&& output_of(item)->0.body == FunctionCallOutputBodyView::Text(content)
            &&& output_of(item)->0.success is Some <==> is_error is Some
            &&& output_of(item)->0.success == Some(true) <==> is_error == Some(false)
            &&& output_of(item)->0.success == Some(false) <==> is_error == Some(true)
        }),
{
    reveal_strlit("tool_search");
    assert("tool_search"@.len() == 11);
}

/// A result answers its own call, as a custom output where its identity marks
/// one, as a function output where it marks that, and else as the call was.
pub proof fn results_answer_their_call(
    call_id: Seq<char>,
    name: Option<Seq<char>>,
    content: Seq<char>,
    is_error: Option<bool>,
    id: Option<Seq<char>>,
    kind: Option<RecoveredToolCallKind>,
    read: Option<JsonView>,
)
    requires
        name != Some("tool_search"@),
        call_id.len() > 0,
    ensures
        ({
            let item = rebuilt_result(call_id, name, content, is_error, id, kind, read).item;
            let of_custom = worn(id) is Some && marks(worn(id)->0, "ctco"@);
            let of_function = worn(id) is Some && marks(worn(id)->0, "fco"@);
            &&& item is CustomToolCallOutput <==> of_custom || (!of_function && kind == Some(
                RecoveredToolCallKind::Custom,
            ))
            &&& item is FunctionCallOutput <==> !(item is CustomToolCallOutput)
            &&& item matches ResponseItemView::CustomToolCallOutput { call_id: c, name: n, .. }
                ==> c == call_id && n == (if name == Some(Seq::<char>::empty()) {
                None
            } else {
                name
            })
            &&& item matches ResponseItemView::FunctionCallOutput { call_id: c, .. } ==> c == Some(
                call_id,
            )
            &&& item_id(item) == (if of_custom || of_function {
                worn(id)
            } else {
                None
            })
        }),
{
    reveal_strlit("tool_search");
    assert("tool_search"@.len() == 11);
    if worn(id) is Some {
        kinds_are_told_by_their_marks(worn(id)->0, "ctco"@);
        kinds_are_told_by_their_marks(worn(id)->0, "fco"@);
    }
    if name is Some && name->0.len() == 0 {
        assert(name->0 =~= Seq::<char>::empty());
    }
}

/// The result of a tool search is rebuilt with the tools that were found; it
/// failed exactly when the store says that it was an error.
pub proof fn found_tools_are_rebuilt(
    call_id: Seq<char>,
    content: Seq<char>,
    is_error: Option<bool>,
    id: Option<Seq<char>>,
    kind: Option<RecoveredToolCallKind>,
    tools: Seq<JsonView>,
)
    requires
        call_id.len() > 0,
    ensures
        rebuilt_result(
            call_id,
            Some("tool_search"@),
            content,
            is_error,
            id,
            kind,
            Some(JsonView::List(tools)),
        ).item == (ResponseItemView::ToolSearchOutput {
            id: if worn(id) is Some && marks(worn(id)->0, "tso"@) {
                worn(id)
            } else {
                None
            },
            call_id: Some(call_id),
            status: match is_error {
                Some(true) => "failed"@,
                _ => "completed"@,
            },
            execution: Seq::empty(),
            tools,
            internal_chat_message_metadata_passthrough: None,
        }),
{
    if worn(id) is Some {
        kinds_are_told_by_their_marks(worn(id)->0, "tso"@);
    }
}

// ---------------------------------------------------------------------------
// Calls
// ---------------------------------------------------------------------------

/// The call that an item is.
pub open spec fn call_of(item: ResponseItemView) -> Option<Seq<char>> {
    match item {
        ResponseItemView::FunctionCall { call_id, .. } => Some(call_id),
        ResponseItemView::CustomToolCall { call_id, .. } => Some(call_id),
        ResponseItemView::LocalShellCall { call_id, .. } => call_id,
        ResponseItemView::ToolSearchCall { call_id, .. } => call_id,
        _ => None,
    }
}

/// What kind of item a call is rebuilt as is told by the tool it calls, and
/// among ordinary tools by its identity. It is the call that was stored, under
/// the name that was stored.
pub proof fn calls_are_rebuilt_as_they_were(
    tool: Seq<char>,
    call_id: Seq<char>,
    arguments: Entries,
    id: Option<Seq<char>>,
    read: Option<JsonView>,
)
    requires
        call_id.len() > 0,
    ensures
        ({
            let c = rebuilt_call(tool, call_id, arguments, id, read);
            let own_tool = tool == "local_shell"@ || tool == "web_search"@ || tool
                == "tool_search"@;
            let of_custom = worn(id) is Some && marks(worn(id)->0, "ctc"@);
            &&& tool == "local_shell"@ <==> c.item is LocalShellCall
            &&& tool == "web_search"@ <==> c.item is WebSearchCall
            &&& tool == "tool_search"@ <==> c.item is ToolSearchCall
            &&& !own_tool && of_custom <==> c.item is CustomToolCall
            &&& !own_tool && !of_custom <==> c.item is FunctionCall
            &&& !(c.item is WebSearchCall) ==> call_of(c.item) == Some(call_id)
            &&& c.item matches ResponseItemView::FunctionCall { name, .. } ==> name == tool
            &&& c.item matches ResponseItemView::CustomToolCall { name, .. } ==> name == tool
            &&& c.item matches ResponseItemView::LocalShellCall { status, .. } ==> status
                == LocalShellStatus::Completed
            &&& c.item matches ResponseItemView::WebSearchCall { status, .. } ==> status == Some(
                "completed"@,
            )
            &&& c.item matches ResponseItemView::ToolSearchCall { status, .. } ==> status == Some(
                "completed"@,
            )
            &&& c.kind == (match c.item {
                ResponseItemView::FunctionCall { .. } => RecoveredToolCallKind::Function,
                ResponseItemView::CustomToolCall { .. } => RecoveredToolCallKind::Custom,
                ResponseItemView::LocalShellCall { .. } => RecoveredToolCallKind::LocalShell,
                _ => RecoveredToolCallKind::Other,
            })
        }),
{
    reveal_strlit("local_shell");
    reveal_strlit("web_search");
    reveal_strlit("tool_search");
    assert("local_shell"@[0] == 'l' && "web_search"@[0] == 'w' && "tool_search"@[0] == 't');
    if worn(id) is Some {
        kinds_are_told_by_their_marks(worn(id)->0, "ctc"@);
    }
}

/// A web search is rebuilt with what was searched, under its identity, or where
/// the store holds none under the name of its call.
pub proof fn web_searches_are_rebuilt(
    call_id: Seq<char>,
    action: WebSearchActionView,
    id: Option<Seq<char>>,
    read: Option<JsonView>,
)
    requires
        call_id.len() > 0,
        !begins_with(call_id, "synthetic:"@),
    ensures
        rebuilt_call(
            "web_search"@,
            call_id,
            web_search_arguments_of(Some(action)),
            id,
            read,
        ).item == (ResponseItemView::WebSearchCall {
            id: if worn(id) is None {
                Some(call_id)
            } else if marks(worn(id)->0, "ws"@) {
                worn(id)
            } else {
                None
            },
            status: Some("completed"@),
            action: Some(action),
            internal_chat_message_metadata_passthrough: None,
        }),
{
    reveal_strlit("web_search");
    reveal_strlit("local_shell");
    assert("web_search"@[0] == 'w' && "local_shell"@[0] == 'l');
    search_action_reads_back(action);
    if worn(id) is Some {
        kinds_are_told_by_their_marks(worn(id)->0, "ws"@);
    }
}

/// What a search of tools was asked is rebuilt as the kept wire string reads.
pub proof fn tool_searches_are_rebuilt(
    call_id: Seq<char>,
    arguments: Entries,
    id: Option<Seq<char>>,
    asked: JsonView,
)
    requires
        call_id.len() > 0,
    ensures
        rebuilt_call("tool_search"@, call_id, arguments, id, Some(asked)).item == (
        ResponseItemView::ToolSearchCall {
            id: if worn(id) is Some && marks(worn(id)->0, "tsc"@) {
                worn(id)
            } else {
                None
            },
            call_id: Some(call_id),
            status: Some("completed"@),
            execution: Seq::empty(),
            arguments: asked,
            internal_chat_message_metadata_passthrough: None,
        }),
{
    reveal_strlit("web_search");
    reveal_strlit("local_shell");
    reveal_strlit("tool_search");
    assert("web_search"@[0] == 'w' && "local_shell"@[0] == 'l' && "tool_search"@[0] == 't');
    if worn(id) is Some {
        kinds_are_told_by_their_marks(worn(id)->0, "tsc"@);
    }
}

// ---------------------------------------------------------------------------
// Images
// ---------------------------------------------------------------------------

/// A text that an object holds under a name.
pub open spec fn text_under(v: JsonView, name: Seq<char>) -> Option<Seq<char>> {
    match member(v, name) {
        Some(JsonView::Text(s)) => Some(s),
        _ => None,
    }
}

/// An image is one item under the name of its call. What its result says of the
/// status, the prompt and the image goes first; a result that says nothing of
/// them leaves the stored outcome and the prompt of the call; a result that is no
/// value is itself the image.
pub proof fn images_are_rebuilt(
    call_id: Seq<char>,
    content: Seq<char>,
    prompt: Option<Seq<char>>,
    is_error: Option<bool>,
    read: Option<JsonView>,
)
    ensures
        completed_image(call_id, content, prompt, is_error, read) matches
            ResponseItemView::ImageGenerationCall { id, status, revised_prompt, result, .. } && {
            let outcome = match is_error {
                Some(true) => "failed"@,
                _ => "completed"@,
            };
            &&& id == worn(Some(call_id))
            &&& read is None ==> status == outcome && revised_prompt == prompt && result == content
            &&& read matches Some(v) ==> {
                &&& text_under(v, "status"@) is Some ==> status == text_under(v, "status"@)->0
                &&& text_under(v, "status"@) is None ==> status == outcome
                &&& text_under(v, "revisedPrompt"@) is Some ==> revised_prompt == text_under(
                    v,
                    "revisedPrompt"@,
                )
                &&& text_under(v, "revisedPrompt"@) is None ==> revised_prompt == prompt
                &&& text_under(v, "result"@) is Some ==> result == text_under(v, "result"@)->0
                &&& text_under(v, "result"@) is None ==> result.len() == 0
            }
        },
{
}

/// An image call that no result answered is told with its prompt and nothing more.
pub proof fn unanswered_images_are_rebuilt(call_id: Seq<char>, prompt: Option<Seq<char>>)
    ensures
        unanswered_image(call_id, prompt) == (ResponseItemView::ImageGenerationCall {
            id: worn(Some(call_id)),
            status: "unknown"@,
            revised_prompt: prompt,
            result: Seq::empty(),
            internal_chat_message_metadata_passthrough: None,
        }),
{
}

// ---------------------------------------------------------------------------
// What shows an item
// ---------------------------------------------------------------------------

/// The line of an event.
pub open spec fn shown(e: EventMsgView) -> RolloutItemView {
    RolloutItemView::EventMsg(e)
}

/// What is searched: the query, or the page.
pub open spec fn is_searched(action: WebSearchActionView, what: Seq<char>) -> bool {
    match action {
        WebSearchActionView::Search { query, .. } => query == Some(what) || (query is None
            && what.len() == 0),
        WebSearchActionView::OpenPage { url } => url == Some(what) || (url is None && what.len()
            == 0),
        WebSearchActionView::FindInPage { url, .. } => url == Some(what) || (url is None
            && what.len() == 0),
        WebSearchActionView::Other => what.len() == 0,
    }
}

/// A search is followed by an event that tells the call, what was searched and
/// the action; one without an action by none.
pub proof fn searches_are_shown(
    id: Option<Seq<char>>,
    status: Option<Seq<char>>,
    action: Option<WebSearchActionView>,
    passed: Option<JsonView>,
)
    ensures
        ({
            let item = ResponseItemView::WebSearchCall {
                id,
                status,
                action,
                internal_chat_message_metadata_passthrough: passed,
            };
            let lines = item_lines(item);
            &&& lines[0] == RolloutItemView::ResponseItem(item)
            &&& action is None ==> lines.len() == 1
            &&& action is Some ==> lines.len() == 2 && (lines[1] matches RolloutItemView::EventMsg(
                EventMsgView::WebSearchEnd { call_id, query, action: a },
            ) && (id is Some ==> call_id == id->0) && (id is None ==> call_id.len() == 0)
                && is_searched(action->0, query) && a == action->0)
        }),
{
}

/// A generated image is followed by an event that tells all of it.
pub proof fn images_are_shown(
    id: Option<Seq<char>>,
    status: Seq<char>,
    revised_prompt: Option<Seq<char>>,
    result: Seq<char>,
    passed: Option<JsonView>,
)
    ensures
        ({
            let item = ResponseItemView::ImageGenerationCall {
                id,
                status,
                revised_prompt,
                result,
                internal_chat_message_metadata_passthrough: passed,
            };
            item_lines(item) == seq![
                RolloutItemView::ResponseItem(item),
                shown(
                    EventMsgView::ImageGenerationEnd {
                        call_id: if id is Some {
                            id->0
                        } else {
                            Seq::empty()
                        },
                        status,
                        revised_prompt,
                        result,
                    },
                ),
            ]
        }),
{
}

/// Calls and outputs of other tools are shown by no event.
pub proof fn other_calls_are_not_shown(item: ResponseItemView)
    requires
        !(item is Message),
        !(item is Reasoning),
        !(item is WebSearchCall),
        !(item is ImageGenerationCall),
    ensures
        item_lines(item) == seq![RolloutItemView::ResponseItem(item)],
{
}

/// The text of a part.
pub open spec fn says(part: ContentItemView) -> Seq<char> {
    match part {
        ContentItemView::InputText { text } => text,
        ContentItemView::OutputText { text } => text,
        ContentItemView::InputImage { image_url, .. } => image_url,
        ContentItemView::InputAudio { audio_url } => audio_url,
    }
}

/// A message of the user or the assistant that has words is followed by an
/// event of its own with its words; one of anybody else by none.
pub proof fn messages_are_shown(
    id: Option<Seq<char>>,
    role: Seq<char>,
    content: Seq<ContentItemView>,
    phase: Option<Seq<char>>,
    passed: Option<JsonView>,
)
    ensures
        ({
            let item = ResponseItemView::Message {
                id,
                role,
                content,
                phase,
                internal_chat_message_metadata_passthrough: passed,
            };
            let words = in_lines(content.map_values(|c: ContentItemView| says(c)));
            item_lines(item) == (if words.len() > 0 && role == "user"@ {
                seq![
                    RolloutItemView::ResponseItem(item),
                    shown(EventMsgView::UserMessage { message: words }),
                ]
            } else if words.len() > 0 && role == "assistant"@ {
                seq![
                    RolloutItemView::ResponseItem(item),
                    shown(EventMsgView::AgentMessage { message: words }),
                ]
            } else {
                seq![RolloutItemView::ResponseItem(item)]
            })
        }),
{
    reveal_strlit("user");
    reveal_strlit("assistant");
    assert("user"@.len() != "assistant"@.len());
    let texts = content.map_values(|c: ContentItemView| says(c));
    assert(texts =~= content.map_values(|c: ContentItemView| crate::rollback::part_text(c)));
    joined_texts_stand_in_lines(texts);
}

/// Texts, one line after the other.
pub open spec fn in_lines(texts: Seq<Seq<char>>) -> Seq<char> {
    if texts.len() == 0 {
        Seq::empty()
    } else {
        texts[0] + texts.skip(1).map_values(|t: Seq<char>| seq!['\n'] + t).flatten()
    }
}

/// Texts joined by a line break are each of them, line after line.
pub proof fn joined_texts_stand_in_lines(texts: Seq<Seq<char>>)
    ensures
        crate::text::joined(texts, "\n"@) == in_lines(texts),
    decreases texts.len(),
{
    reveal_strlit("\n");
    let f = |t: Seq<char>| seq!['\n'] + t;
    assert("\n"@ =~= seq!['\n']);
    if texts.len() == 0 {
    } else if texts.len() == 1 {
        let rest = texts.skip(1).map_values(f);
        assert(rest.len() == 0);
        assert(texts[0] + rest.flatten() =~= texts[0]);
    } else {
        let less = texts.drop_last();
        joined_texts_stand_in_lines(less);
        let rest = texts.skip(1).map_values(f);
        assert(rest.drop_last() =~= less.skip(1).map_values(f));
        assert(rest =~= rest.drop_last().push(rest.last()));
        rest.drop_last().lemma_flatten_push(rest.last());
        assert(in_lines(texts) =~= in_lines(less) + "\n"@ + texts.last());
    }
}

/// A thought is followed by an event with the words of its summary, where it has
/// words.
pub proof fn thoughts_are_shown(
    id: Option<Seq<char>>,
    summary: Seq<ReasoningItemReasoningSummaryView>,
    content: Option<Seq<crate::protocol::ReasoningItemContentView>>,
    encrypted: Option<Seq<char>>,
    passed: Option<JsonView>,
)
    ensures
        ({
            let item = ResponseItemView::Reasoning {
                id,
                summary,
                content,
                encrypted_content: encrypted,
                internal_chat_message_metadata_passthrough: passed,
            };
            let words = summary.map_values(|s: ReasoningItemReasoningSummaryView| s->text).flatten();
            item_lines(item) == (if words.len() > 0 {
                seq![
                    RolloutItemView::ResponseItem(item),
                    shown(EventMsgView::AgentReasoning { text: words }),
                ]
            } else {
                seq![RolloutItemView::ResponseItem(item)]
            })
        }),
{
    let texts = summary.map_values(|s: ReasoningItemReasoningSummaryView| s->text);
    assert(texts =~= summary.map_values(
        |s: ReasoningItemReasoningSummaryView|
            match s {
                ReasoningItemReasoningSummaryView::SummaryText { text } => text,
            },
    ));
    lemma_run_on(texts);
}

proof fn lemma_run_on(texts: Seq<Seq<char>>)
    ensures
        crate::text::joined(texts, ""@) == texts.flatten(),
    decreases texts.len(),
{
    reveal_strlit("");
    assert(""@ =~= Seq::<char>::empty());
    if texts.len() == 0 {
        assert(crate::text::joined(texts, ""@) =~= texts.flatten());
    } else {
        let less = texts.drop_last();
        assert(texts =~= less.push(texts.last()));
        less.lemma_flatten_push(texts.last());
        lemma_run_on(less);
        if texts.len() == 1 {
            assert(less.len() == 0);
            assert(less.flatten() =~= Seq::<char>::empty());
        }
        assert(crate::text::joined(texts, ""@) =~= texts.flatten());
    }
}

} // verus!
