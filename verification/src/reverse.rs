//! Native conversation items rebuilt from what the store kept of them.
//!
//! This is the way back from [`crate::mapping`]. What kind of item a tool call
//! was is told by the identity that its key holds, never by its text.

use vstd::prelude::*;
use vstd::string::*;

use crate::host_ids::{
    filled, host_id_kind_prefix, is_blank, kind_prefix, non_empty_opt, sanitize_id, sanitized,
};
use crate::json::{
    entry, get_text, get_text_member, json_read, json_text, lemma_list_view, lemma_object_view,
    open_entry, opened_entry, read_json, text_entry, text_member, Entries, Json, JsonView,
};
use crate::mapping::{
    arguments_of, function_arguments, local_shell_arguments_of, wire_arguments_are_kept,
};
use crate::protocol::{
    item_id, ContentItem, ContentItemView, FunctionCallOutputBody, FunctionCallOutputBodyView,
    FunctionCallOutputPayload, FunctionCallOutputPayloadView, LocalShellActionView,
    LocalShellStatus, ReasoningItemReasoningSummary, ReasoningItemReasoningSummaryView,
    ResponseItem, ResponseItemView, WebSearchAction, WebSearchActionView,
};
use crate::rollback::{content_text, content_text_of};
use crate::rollout::{EventMsg, EventMsgView, RolloutItem, RolloutItemView};
use crate::text::{join, joined, text, text_eq};
use crate::unwire::{
    copy_without_entry, read_search_action, read_shell_action, search_action_of, shell_action_of,
    shell_action_reads_back, without_entry,
};
use crate::wire::list_wire;

verus! {

// ---------------------------------------------------------------------------
// Messages
// ---------------------------------------------------------------------------

/// What the user said, as a conversation item.
pub open spec fn user_message(s: Seq<char>) -> ResponseItemView {
    ResponseItemView::Message {
        id: None,
        role: "user"@,
        content: seq![ContentItemView::InputText { text: s }],
        phase: None,
        internal_chat_message_metadata_passthrough: None,
    }
}

/// What the user said, as a conversation item.
pub fn user_text_message(s: &str) -> (r: ResponseItem)
    ensures
        r@ == user_message(s@),
{
    let part = ContentItem::InputText { text: text(s) };
    let ghost view = part@;
    let mut content: Vec<ContentItem> = Vec::new();
    content.push(part);
    assert(content.deep_view() =~= seq![view]);
    ResponseItem::Message {
        id: None,
        role: text("user"),
        content,
        phase: None,
        internal_chat_message_metadata_passthrough: None,
    }
}

/// What the assistant said, as a conversation item with an identity.
pub open spec fn assistant_message(id: Option<Seq<char>>, s: Seq<char>) -> ResponseItemView {
    ResponseItemView::Message {
        id,
        role: "assistant"@,
        content: seq![ContentItemView::OutputText { text: s }],
        phase: None,
        internal_chat_message_metadata_passthrough: None,
    }
}

/// What the assistant said, as a conversation item with an identity.
pub fn assistant_text_message(id: Option<String>, s: &str) -> (r: ResponseItem)
    ensures
        r@ == assistant_message(id.deep_view(), s@),
{
    let part = ContentItem::OutputText { text: text(s) };
    let ghost view = part@;
    let mut content: Vec<ContentItem> = Vec::new();
    content.push(part);
    assert(content.deep_view() =~= seq![view]);
    ResponseItem::Message {
        id,
        role: text("assistant"),
        content,
        phase: None,
        internal_chat_message_metadata_passthrough: None,
    }
}

// ---------------------------------------------------------------------------
// Display twins
// ---------------------------------------------------------------------------

/// The text of a reasoning summary.
pub open spec fn summary_text(summary: Seq<ReasoningItemReasoningSummaryView>) -> Seq<char> {
    joined(
        summary.map_values(
            |s: ReasoningItemReasoningSummaryView|
                match s {
                    ReasoningItemReasoningSummaryView::SummaryText { text } => text,
                },
        ),
        ""@,
    )
}

fn summary_text_of(summary: &Vec<ReasoningItemReasoningSummary>) -> (r: String)
    ensures
        r@ == summary_text(summary.deep_view()),
{
    let mut parts: Vec<String> = Vec::new();
    let mut i: usize = 0;
    while i < summary.len()
        invariant
            i <= summary.len(),
            parts.len() == i,
            forall|k: int|
                0 <= k < i ==> (#[trigger] parts@[k])@ == (match summary@[k]@ {
                    ReasoningItemReasoningSummaryView::SummaryText { text } => text,
                }),
        decreases summary.len() - i,
    {
        match &summary[i] {
            ReasoningItemReasoningSummary::SummaryText { text } => {
                parts.push(text.clone());
            },
        }
        i = i + 1;
    }
    assert(parts.deep_view() =~= summary.deep_view().map_values(
        |s: ReasoningItemReasoningSummaryView|
            match s {
                ReasoningItemReasoningSummaryView::SummaryText { text } => text,
            },
    ));
    join(&parts, "")
}

/// A text that may be absent; empty then.
pub open spec fn or_empty(s: Option<Seq<char>>) -> Seq<char> {
    match s {
        Some(t) => t,
        None => Seq::empty(),
    }
}

/// A text that may be absent; empty then.
pub fn text_or_empty(s: &Option<String>) -> (r: String)
    ensures
        r@ == or_empty(s.deep_view()),
{
    match s {
        Some(t) => t.clone(),
        None => String::new(),
    }
}

/// What a web search was about.
pub open spec fn search_query(action: WebSearchActionView) -> Seq<char> {
    match action {
        WebSearchActionView::Search { query, .. } => or_empty(query),
        WebSearchActionView::OpenPage { url } => or_empty(url),
        WebSearchActionView::FindInPage { url, .. } => or_empty(url),
        WebSearchActionView::Other => Seq::empty(),
    }
}

/// The event that shows an item, where there is one.
pub open spec fn display_twin(item: ResponseItemView) -> Option<EventMsgView> {
    match item {
        ResponseItemView::Message { role, content, .. } => {
            let s = content_text_of(content);
            if s.len() == 0 {
                None
            } else if role == "user"@ {
                Some(EventMsgView::UserMessage { message: s })
            } else if role == "assistant"@ {
                Some(EventMsgView::AgentMessage { message: s })
            } else {
                None
            }
        },
        ResponseItemView::Reasoning { summary, .. } => if summary_text(summary).len() == 0 {
            None
        } else {
            Some(EventMsgView::AgentReasoning { text: summary_text(summary) })
        },
        ResponseItemView::WebSearchCall { id, action, .. } => match action {
            Some(a) => Some(
                EventMsgView::WebSearchEnd {
                    call_id: or_empty(id),
                    query: search_query(a),
                    action: a,
                },
            ),
            None => None,
        },
        ResponseItemView::ImageGenerationCall { id, status, revised_prompt, result, .. } => Some(
            EventMsgView::ImageGenerationEnd {
                call_id: or_empty(id),
                status,
                revised_prompt,
                result,
            },
        ),
        _ => None,
    }
}

/// The event that shows an item, where there is one.
pub fn emit_display_twins(item: &ResponseItem) -> (r: Option<EventMsg>)
    ensures
        r.deep_view() == display_twin(item@),
{
    match item {
        ResponseItem::Message { role, content, .. } => {
            let s = content_text(content);
            if is_blank(s.as_str()) {
                None
            } else if text_eq(role.as_str(), "user") {
                Some(EventMsg::UserMessage { message: s })
            } else if text_eq(role.as_str(), "assistant") {
                Some(EventMsg::AgentMessage { message: s })
            } else {
                None
            }
        },
        ResponseItem::Reasoning { summary, .. } => {
            let s = summary_text_of(summary);
            if is_blank(s.as_str()) {
                None
            } else {
                Some(EventMsg::AgentReasoning { text: s })
            }
        },
        ResponseItem::WebSearchCall { id, action, .. } => match action {
            Some(a) => {
                let query = match a {
                    WebSearchAction::Search { query, .. } => text_or_empty(query),
                    WebSearchAction::OpenPage { url } => text_or_empty(url),
                    WebSearchAction::FindInPage { url, .. } => text_or_empty(url),
                    WebSearchAction::Other => String::new(),
                };
                assert(query@ =~= search_query(a@));
                Some(
                    EventMsg::WebSearchEnd { call_id: text_or_empty(id), query, action: a.clone() },
                )
            },
            None => None,
        },
        ResponseItem::ImageGenerationCall { id, status, revised_prompt, result, .. } => Some(
            EventMsg::ImageGenerationEnd {
                call_id: text_or_empty(id),
                status: status.clone(),
                revised_prompt: revised_prompt.clone(),
                result: result.clone(),
            },
        ),
        _ => None,
    }
}

/// The lines of an item: the item, then the event that shows it.
pub open spec fn item_lines(item: ResponseItemView) -> Seq<RolloutItemView> {
    match display_twin(item) {
        Some(e) => seq![RolloutItemView::ResponseItem(item), RolloutItemView::EventMsg(e)],
        None => seq![RolloutItemView::ResponseItem(item)],
    }
}

/// Adds one line.
pub fn push_line(out: &mut Vec<RolloutItem>, item: RolloutItem)
    ensures
        final(out).deep_view() == old(out).deep_view().push(item@),
{
    let ghost before = out.deep_view();
    let ghost view = item@;
    out.push(item);
    assert(out.deep_view() =~= before.push(view));
}

/// Adds an item and the event that shows it.
pub fn push_response_with_twins(item: ResponseItem, out: &mut Vec<RolloutItem>)
    ensures
        final(out).deep_view() == old(out).deep_view() + item_lines(item@),
{
    let ghost before = out.deep_view();
    let ghost view = item@;
    let twin = emit_display_twins(&item);
    push_line(out, RolloutItem::ResponseItem(item));
    if let Some(e) = twin {
        push_line(out, RolloutItem::EventMsg(e));
    }
    assert(out.deep_view() =~= before + item_lines(view));
}

// ---------------------------------------------------------------------------
// Tool calls
// ---------------------------------------------------------------------------

/// What kind of item a tool call was.
#[derive(Debug, Clone, Copy, PartialEq, Eq, Structural)]
pub enum RecoveredToolCallKind {
    Function,
    Custom,
    LocalShell,
    Other,
}

impl DeepView for RecoveredToolCallKind {
    type V = RecoveredToolCallKind;

    open spec fn deep_view(&self) -> RecoveredToolCallKind {
        *self
    }
}

/// An identity that was recovered, and what kind of item it marks.
pub open spec fn recovered_id(id_hint: Option<Seq<char>>) -> Option<Seq<char>> {
    match id_hint {
        Some(id) => sanitized(id),
        None => None,
    }
}

fn recover_id(id_hint: &Option<String>) -> (r: Option<String>)
    ensures
        r.deep_view() == recovered_id(id_hint.deep_view()),
{
    match id_hint {
        Some(id) => sanitize_id(id.as_str()),
        None => None,
    }
}

/// The kind of item that a recovered identity marks.
pub open spec fn recovered_prefix(id: Option<Seq<char>>) -> Option<Seq<char>> {
    match id {
        Some(s) => kind_prefix(s),
        None => None,
    }
}

fn prefix_of(id: &Option<String>) -> (r: Option<&'static str>)
    ensures
        r.deep_view() == recovered_prefix(id.deep_view()),
{
    match id {
        Some(s) => host_id_kind_prefix(s.as_str()),
        None => None,
    }
}

/// The identity fits an item of the kind that `own` marks: there is none, or it
/// marks that kind. One that marks no known kind fits nothing.
pub open spec fn id_fits(id: Option<Seq<char>>, own: Seq<char>) -> bool {
    id is None || recovered_prefix(id) == Some(own)
}

fn fits(id: &Option<String>, own: &str) -> (r: bool)
    ensures
        r == id_fits(id.deep_view(), own@),
{
    match id {
        Some(_) => match prefix_of(id) {
            Some(p) => text_eq(p, own),
            None => false,
        },
        None => true,
    }
}

/// What is said of an identity that does not fit.
pub open spec fn misfit_note(before: Seq<char>, prefix: Option<Seq<char>>, after: Seq<char>) -> Seq<
    char,
> {
    match prefix {
        Some(p) => before + "\""@ + p + "\""@ + after,
        None => before + "unknown"@ + after,
    }
}

fn push_misfit(notes: &mut Vec<String>, before: &str, prefix: Option<&'static str>, after: &str)
    ensures
        final(notes).deep_view() == old(notes).deep_view().push(
            misfit_note(before@, prefix.deep_view(), after@),
        ),
{
    let ghost so_far = notes.deep_view();
    let mut s = text(before);
    match prefix {
        Some(p) => {
            s.append("\"");
            s.append(p);
            s.append("\"");
        },
        None => {
            s.append("unknown");
        },
    }
    s.append(after);
    let ghost said = s@;
    notes.push(s);
    assert(notes.deep_view() =~= so_far.push(said));
}

/// The wire string of a call: as it was kept, else its arguments.
pub open spec fn raw_input_of(arguments: Entries) -> Seq<char> {
    match text_entry(arguments, "__hostRaw"@) {
        Some(s) => s,
        None => json_text(
            JsonView::Object(
                without_entry(
                    without_entry(arguments, "__hostRaw"@),
                    "__hostEncryptedFunctionArgs"@,
                ),
            ),
        ),
    }
}

fn host_raw_input(arguments: &Vec<(String, Json)>) -> (r: String)
    ensures
        r@ == raw_input_of(arguments.deep_view()),
{
    broadcast use lemma_object_view;

    match get_text(arguments, "__hostRaw") {
        Some(s) => s.clone(),
        None => {
            let a = copy_without_entry(arguments, "__hostRaw");
            Json::Object(copy_without_entry(&a, "__hostEncryptedFunctionArgs")).to_text()
        },
    }
}

/// The strings of a list.
pub open spec fn texts_in(v: Seq<JsonView>) -> Seq<Seq<char>>
    decreases v.len(),
{
    if v.len() == 0 {
        Seq::empty()
    } else {
        match v.last() {
            JsonView::Text(s) => texts_in(v.drop_last()).push(s),
            _ => texts_in(v.drop_last()),
        }
    }
}

/// The encrypted arguments that were kept with a call.
pub open spec fn encrypted_args_of(arguments: Entries) -> Option<Seq<Seq<char>>> {
    match opened_entry(arguments, "__hostEncryptedFunctionArgs"@) {
        Some(JsonView::List(v)) => Some(texts_in(v)),
        _ => None,
    }
}

fn host_encrypted_function_args(arguments: &Vec<(String, Json)>) -> (r: Option<Vec<String>>)
    ensures
        r.deep_view() == encrypted_args_of(arguments.deep_view()),
{
    broadcast use lemma_list_view;

    match open_entry(arguments, "__hostEncryptedFunctionArgs") {
        Some(Json::List(v)) => {
            let ghost view = v.deep_view();
            let mut out: Vec<String> = Vec::new();
            assert(out.deep_view() =~= Seq::<Seq<char>>::empty());
            let mut i: usize = 0;
            while i < v.len()
                invariant
                    i <= v.len(),
                    view == v.deep_view(),
                    out.deep_view() == texts_in(view.take(i as int)),
                decreases v.len() - i,
            {
                let ghost before = out.deep_view();
                assert(view[i as int] == v@[i as int]@);
                assert(view.take(i + 1).drop_last() =~= view.take(i as int));
                if let Json::Text(s) = &v[i] {
                    out.push(s.clone());
                    assert(out.deep_view() =~= before.push(s@));
                }
                i = i + 1;
            }
            assert(view.take(i as int) =~= view);
            Some(out)
        },
        _ => None,
    }
}

/// The arguments of a tool search, given what its wire string reads as.
pub open spec fn tool_search_arguments_of(arguments: Entries, read: Option<JsonView>) -> JsonView {
    match read {
        Some(j) => j,
        None => JsonView::Object(without_entry(arguments, "__hostRaw"@)),
    }
}

/// The arguments of a tool search, given what its wire string reads as.
pub fn tool_search_arguments(arguments: &Vec<(String, Json)>, read: Option<Json>) -> (r: Json)
    ensures
        r@ == tool_search_arguments_of(arguments.deep_view(), read.deep_view()),
{
    broadcast use lemma_object_view;

    match read {
        Some(j) => j,
        None => Json::Object(copy_without_entry(arguments, "__hostRaw")),
    }
}

/// What the wire string that was kept with a call reads as.
pub open spec fn kept_read(arguments: Entries) -> Option<JsonView> {
    match text_entry(arguments, "__hostRaw"@) {
        Some(s) => json_read(s),
        None => None,
    }
}

fn read_kept(arguments: &Vec<(String, Json)>) -> (r: Option<Json>)
    ensures
        r.deep_view() == kept_read(arguments.deep_view()),
{
    match get_text(arguments, "__hostRaw") {
        Some(s) => read_json(s.as_str()),
        None => None,
    }
}

/// A rebuilt call: the item, its kind, and what is to be said of it.
#[verifier::ext_equal]
pub struct RebuiltCall {
    pub item: ResponseItemView,
    pub kind: RecoveredToolCallKind,
    pub notes: Seq<Seq<char>>,
}

/// The identity for an item of the kind that `own` marks.
pub open spec fn fitting_id(
    id: Option<Seq<char>>,
    own: Seq<char>,
) -> Option<Seq<char>> {
    if id_fits(id, own) {
        id
    } else {
        None
    }
}

/// Nothing where the identity fits, else one note.
pub open spec fn misfit_notes(
    id: Option<Seq<char>>,
    own: Seq<char>,
    before: Seq<char>,
    after: Seq<char>,
) -> Seq<Seq<char>> {
    if id_fits(id, own) {
        Seq::empty()
    } else {
        seq![misfit_note(before, recovered_prefix(id), after)]
    }
}

fn keep_fitting_id(
    id: Option<String>,
    own: &str,
    before: &str,
    after: &str,
    notes: &mut Vec<String>,
) -> (r: Option<String>)
    ensures
        r.deep_view() == fitting_id(id.deep_view(), own@),
        final(notes).deep_view() == old(notes).deep_view() + misfit_notes(
            id.deep_view(),
            own@,
            before@,
            after@,
        ),
{
    let ghost so_far = notes.deep_view();
    if fits(&id, own) {
        assert(so_far + Seq::<Seq<char>>::empty() =~= so_far);
        id
    } else {
        let prefix = prefix_of(&id);
        push_misfit(notes, before, prefix, after);
        assert(notes.deep_view() =~= so_far + seq![
            misfit_note(before@, prefix.deep_view(), after@),
        ]);
        None
    }
}

/// The call that the store kept, as the item that it was.
pub open spec fn rebuilt_call(
    tool_name: Seq<char>,
    tool_call_id: Seq<char>,
    arguments: Entries,
    id_hint: Option<Seq<char>>,
    read: Option<JsonView>,
) -> RebuiltCall {
    let id = recovered_id(id_hint);
    let prefix = recovered_prefix(id);
    if tool_name == "local_shell"@ {
        RebuiltCall {
            item: ResponseItemView::LocalShellCall {
                id: fitting_id(id, "lsh"@),
                call_id: filled(tool_call_id),
                status: LocalShellStatus::Completed,
                action: shell_action_of(arguments),
                internal_chat_message_metadata_passthrough: None,
            },
            kind: RecoveredToolCallKind::LocalShell,
            notes: misfit_notes(
                id,
                "lsh"@,
                "tool_call local_shell id prefix "@,
                " unrepresentable with LocalShellCall; clearing id"@,
            ),
        }
    } else if tool_name == "web_search"@ {
        RebuiltCall {
            item: ResponseItemView::WebSearchCall {
                id: if !id_fits(id, "ws"@) {
                    None
                } else if id is Some {
                    id
                } else {
                    sanitized(tool_call_id)
                },
                status: Some("completed"@),
                action: search_action_of(arguments),
                internal_chat_message_metadata_passthrough: None,
            },
            kind: RecoveredToolCallKind::Other,
            notes: misfit_notes(
                id,
                "ws"@,
                "tool_call web_search id prefix "@,
                " unrepresentable with WebSearchCall; clearing id"@,
            ),
        }
    } else if tool_name == "tool_search"@ {
        RebuiltCall {
            item: ResponseItemView::ToolSearchCall {
                id: fitting_id(id, "tsc"@),
                call_id: filled(tool_call_id),
                status: Some("completed"@),
                execution: Seq::empty(),
                arguments: tool_search_arguments_of(arguments, read),
                internal_chat_message_metadata_passthrough: None,
            },
            kind: RecoveredToolCallKind::Other,
            notes: misfit_notes(
                id,
                "tsc"@,
                "tool_call tool_search id prefix "@,
                " unrepresentable with ToolSearchCall; clearing id"@,
            ),
        }
    } else if prefix == Some("ctc"@) {
        RebuiltCall {
            item: ResponseItemView::CustomToolCall {
                id,
                status: None,
                call_id: tool_call_id,
                name: tool_name,
                namespace: None,
                input: raw_input_of(arguments),
                internal_chat_message_metadata_passthrough: None,
            },
            kind: RecoveredToolCallKind::Custom,
            notes: Seq::empty(),
        }
    } else {
        RebuiltCall {
            item: ResponseItemView::FunctionCall {
                id: fitting_id(id, "fc"@),
                name: tool_name,
                namespace: None,
                arguments: raw_input_of(arguments),
                encrypted_function_args: encrypted_args_of(arguments),
                call_id: tool_call_id,
                internal_chat_message_metadata_passthrough: None,
            },
            kind: RecoveredToolCallKind::Function,
            notes: misfit_notes(
                id,
                "fc"@,
                "tool_call id prefix "@,
                " unrepresentable as FunctionCall/CustomToolCall; id=None"@,
            ),
        }
    }
}

/// The call that the store kept, as the item that it was, given what the wire
/// string that was kept with it reads as.
pub fn reverse_tool_call_from_read(
    tool_name: &str,
    tool_call_id: &str,
    arguments: &Vec<(String, Json)>,
    id_hint: &Option<String>,
    read: Option<Json>,
    notes: &mut Vec<String>,
) -> (r: (ResponseItem, RecoveredToolCallKind))
    ensures
        ({
            let c = rebuilt_call(
                tool_name@,
                tool_call_id@,
                arguments.deep_view(),
                id_hint.deep_view(),
                read.deep_view(),
            );
            &&& r.0@ == c.item
            &&& r.1 == c.kind
            &&& final(notes).deep_view() == old(notes).deep_view() + c.notes
        }),
{
    let id = recover_id(id_hint);
    if text_eq(tool_name, "local_shell") {
        let id = keep_fitting_id(
            id,
            "lsh",
            "tool_call local_shell id prefix ",
            " unrepresentable with LocalShellCall; clearing id",
            notes,
        );
        let item = ResponseItem::LocalShellCall {
            id,
            call_id: non_empty_opt(tool_call_id),
            status: LocalShellStatus::Completed,
            action: read_shell_action(arguments),
            internal_chat_message_metadata_passthrough: None,
        };
        return (item, RecoveredToolCallKind::LocalShell);
    }
    if text_eq(tool_name, "web_search") {
        let fitting = fits(&id, "ws");
        let kept = keep_fitting_id(
            id,
            "ws",
            "tool_call web_search id prefix ",
            " unrepresentable with WebSearchCall; clearing id",
            notes,
        );
        let id = if fitting && kept.is_none() {
            sanitize_id(tool_call_id)
        } else {
            kept
        };
        let item = ResponseItem::WebSearchCall {
            id,
            status: Some(text("completed")),
            action: read_search_action(arguments),
            internal_chat_message_metadata_passthrough: None,
        };
        return (item, RecoveredToolCallKind::Other);
    }
    if text_eq(tool_name, "tool_search") {
        let id = keep_fitting_id(
            id,
            "tsc",
            "tool_call tool_search id prefix ",
            " unrepresentable with ToolSearchCall; clearing id",
            notes,
        );
        let execution = String::new();
        assert(execution@ =~= Seq::<char>::empty());
        let item = ResponseItem::ToolSearchCall {
            id,
            call_id: non_empty_opt(tool_call_id),
            status: Some(text("completed")),
            execution,
            arguments: tool_search_arguments(arguments, read),
            internal_chat_message_metadata_passthrough: None,
        };
        return (item, RecoveredToolCallKind::Other);
    }
    let custom = match prefix_of(&id) {
        Some(p) => text_eq(p, "ctc"),
        None => false,
    };
    if custom {
        let item = ResponseItem::CustomToolCall {
            id,
            status: None,
            call_id: text(tool_call_id),
            name: text(tool_name),
            namespace: None,
            input: host_raw_input(arguments),
            internal_chat_message_metadata_passthrough: None,
        };
        assert(notes.deep_view() + Seq::<Seq<char>>::empty() =~= notes.deep_view());
        return (item, RecoveredToolCallKind::Custom);
    }
    let id = keep_fitting_id(
        id,
        "fc",
        "tool_call id prefix ",
        " unrepresentable as FunctionCall/CustomToolCall; id=None",
        notes,
    );
    let item = ResponseItem::FunctionCall {
        id,
        name: text(tool_name),
        namespace: None,
        arguments: host_raw_input(arguments),
        encrypted_function_args: host_encrypted_function_args(arguments),
        call_id: text(tool_call_id),
        internal_chat_message_metadata_passthrough: None,
    };
    (item, RecoveredToolCallKind::Function)
}

/// The call that the store kept, as the item that it was.
pub fn reverse_tool_call(
    tool_name: &str,
    tool_call_id: &str,
    arguments: &Vec<(String, Json)>,
    id_hint: &Option<String>,
    notes: &mut Vec<String>,
) -> (r: (ResponseItem, RecoveredToolCallKind))
    ensures
        ({
            let c = rebuilt_call(
                tool_name@,
                tool_call_id@,
                arguments.deep_view(),
                id_hint.deep_view(),
                kept_read(arguments.deep_view()),
            );
            &&& r.0@ == c.item
            &&& r.1 == c.kind
            &&& final(notes).deep_view() == old(notes).deep_view() + c.notes
        }),
{
    let read = read_kept(arguments);
    reverse_tool_call_from_read(tool_name, tool_call_id, arguments, id_hint, read, notes)
}

// ---------------------------------------------------------------------------
// Tool results
// ---------------------------------------------------------------------------

/// The tools that a search found, given what its result reads as.
pub open spec fn found_tools(read: Option<JsonView>) -> Seq<JsonView> {
    match read {
        Some(JsonView::List(v)) => v,
        _ => Seq::empty(),
    }
}

fn tools_from_read(read: Option<Json>) -> (r: Vec<Json>)
    ensures
        r.deep_view() == found_tools(read.deep_view()),
{
    broadcast use lemma_list_view;

    match read {
        Some(Json::List(v)) => v,
        _ => {
            let none: Vec<Json> = Vec::new();
            assert(none.deep_view() =~= Seq::<JsonView>::empty());
            none
        },
    }
}

/// Whether a call succeeded, as a word.
pub open spec fn result_status(is_error: Option<bool>) -> Seq<char> {
    if is_error == Some(true) {
        "failed"@
    } else {
        "completed"@
    }
}

fn result_status_word(is_error: Option<bool>) -> (r: &'static str)
    ensures
        r@ == result_status(is_error),
{
    if let Some(true) = is_error {
        "failed"
    } else {
        "completed"
    }
}

/// A rebuilt result: the item, and what is to be said of it.
#[verifier::ext_equal]
pub struct RebuiltResult {
    pub item: ResponseItemView,
    pub notes: Seq<Seq<char>>,
}

/// The prefix marks one of the two kinds of outputs.
pub open spec fn is_output_prefix(prefix: Option<Seq<char>>) -> bool {
    prefix == Some("ctco"@) || prefix == Some("fco"@)
}

/// The result that the store kept, as the item that it was.
pub open spec fn rebuilt_result(
    tool_call_id: Seq<char>,
    tool_name: Option<Seq<char>>,
    content: Seq<char>,
    is_error: Option<bool>,
    id_hint: Option<Seq<char>>,
    call_kind: Option<RecoveredToolCallKind>,
    read: Option<JsonView>,
) -> RebuiltResult {
    let name = or_empty(tool_name);
    let id = recovered_id(id_hint);
    let prefix = recovered_prefix(id);
    if name == "tool_search"@ {
        RebuiltResult {
            item: ResponseItemView::ToolSearchOutput {
                id: fitting_id(id, "tso"@),
                call_id: filled(tool_call_id),
                status: result_status(is_error),
                execution: Seq::empty(),
                tools: found_tools(read),
                internal_chat_message_metadata_passthrough: None,
            },
            notes: misfit_notes(
                id,
                "tso"@,
                "tool_result tool_search id prefix "@,
                " unrepresentable with ToolSearchOutput; clearing id"@,
            ),
        }
    } else {
        let output = FunctionCallOutputPayloadView {
            body: FunctionCallOutputBodyView::Text(content),
            success: match is_error {
                Some(e) => Some(!e),
                None => None,
            },
        };
        let own_id = if is_output_prefix(prefix) {
            id
        } else {
            None
        };
        let custom = if is_output_prefix(prefix) {
            prefix == Some("ctco"@)
        } else {
            call_kind == Some(RecoveredToolCallKind::Custom)
        };
        RebuiltResult {
            item: if custom {
                ResponseItemView::CustomToolCallOutput {
                    id: own_id,
                    call_id: tool_call_id,
                    name: filled(name),
                    output,
                    internal_chat_message_metadata_passthrough: None,
                }
            } else {
                ResponseItemView::FunctionCallOutput {
                    id: own_id,
                    call_id: filled(tool_call_id),
                    name: None,
                    namespace: None,
                    output,
                    internal_chat_message_metadata_passthrough: None,
                }
            },
            notes: if id is None || is_output_prefix(prefix) {
                Seq::empty()
            } else {
                seq![
                    misfit_note(
                        "tool_result id prefix "@,
                        prefix,
                        " unrepresentable as fco/ctco; id=None, kind from call pairing"@,
                    ),
                ]
            },
        }
    }
}

/// The result that the store kept, as the item that it was, given what its
/// content reads as.
pub fn reverse_tool_result_from_read(
    tool_call_id: &str,
    tool_name: &Option<String>,
    content: &str,
    is_error: Option<bool>,
    id_hint: &Option<String>,
    call_kind: Option<RecoveredToolCallKind>,
    read: Option<Json>,
    notes: &mut Vec<String>,
) -> (r: ResponseItem)
    ensures
        ({
            let c = rebuilt_result(
                tool_call_id@,
                tool_name.deep_view(),
                content@,
                is_error,
                id_hint.deep_view(),
                call_kind,
                read.deep_view(),
            );
            &&& r@ == c.item
            &&& final(notes).deep_view() == old(notes).deep_view() + c.notes
        }),
{
    let ghost so_far = notes.deep_view();
    let name = text_or_empty(tool_name);
    let id = recover_id(id_hint);
    if text_eq(name.as_str(), "tool_search") {
        let id = keep_fitting_id(
            id,
            "tso",
            "tool_result tool_search id prefix ",
            " unrepresentable with ToolSearchOutput; clearing id",
            notes,
        );
        let execution = String::new();
        assert(execution@ =~= Seq::<char>::empty());
        return ResponseItem::ToolSearchOutput {
            id,
            call_id: non_empty_opt(tool_call_id),
            status: text(result_status_word(is_error)),
            execution,
            tools: tools_from_read(read),
            internal_chat_message_metadata_passthrough: None,
        };
    }
    let success = match is_error {
        Some(e) => Some(!e),
        None => None,
    };
    let output = FunctionCallOutputPayload {
        body: FunctionCallOutputBody::Text(text(content)),
        success,
    };
    let prefix = prefix_of(&id);
    let by_pairing = match call_kind {
        Some(RecoveredToolCallKind::Custom) => true,
        _ => false,
    };
    let (custom, own) = match prefix {
        Some(p) => if text_eq(p, "ctco") {
            (true, true)
        } else if text_eq(p, "fco") {
            (false, true)
        } else {
            (by_pairing, false)
        },
        None => (by_pairing, false),
    };
    if id.is_some() && !own {
        push_misfit(
            notes,
            "tool_result id prefix ",
            prefix,
            " unrepresentable as fco/ctco; id=None, kind from call pairing",
        );
    }
    proof {
        reveal_strlit("ctco");
        reveal_strlit("fco");
        assert("ctco"@.len() == 4 && "fco"@.len() == 3);
    }
    let ghost c = rebuilt_result(
        tool_call_id@,
        tool_name.deep_view(),
        content@,
        is_error,
        id_hint.deep_view(),
        call_kind,
        read.deep_view(),
    );
    assert(notes.deep_view() =~= so_far + c.notes);
    let own_id = if own {
        id
    } else {
        None
    };
    if custom {
        ResponseItem::CustomToolCallOutput {
            id: own_id,
            call_id: text(tool_call_id),
            name: non_empty_opt(name.as_str()),
            output,
            internal_chat_message_metadata_passthrough: None,
        }
    } else {
        ResponseItem::FunctionCallOutput {
            id: own_id,
            call_id: non_empty_opt(tool_call_id),
            name: None,
            namespace: None,
            output,
            internal_chat_message_metadata_passthrough: None,
        }
    }
}

/// The result that the store kept, as the item that it was.
pub fn reverse_tool_result(
    tool_call_id: &str,
    tool_name: &Option<String>,
    content: &str,
    is_error: Option<bool>,
    id_hint: &Option<String>,
    call_kind: Option<RecoveredToolCallKind>,
    notes: &mut Vec<String>,
) -> (r: ResponseItem)
    ensures
        ({
            let c = rebuilt_result(
                tool_call_id@,
                tool_name.deep_view(),
                content@,
                is_error,
                id_hint.deep_view(),
                call_kind,
                json_read(content@),
            );
            &&& r@ == c.item
            &&& final(notes).deep_view() == old(notes).deep_view() + c.notes
        }),
{
    let read = read_json(content);
    reverse_tool_result_from_read(
        tool_call_id,
        tool_name,
        content,
        is_error,
        id_hint,
        call_kind,
        read,
        notes,
    )
}

// ---------------------------------------------------------------------------
// Images
// ---------------------------------------------------------------------------

/// A generated image, given what the result reads as.
pub open spec fn completed_image(
    tool_call_id: Seq<char>,
    content: Seq<char>,
    prompt: Option<Seq<char>>,
    is_error: Option<bool>,
    read: Option<JsonView>,
) -> ResponseItemView {
    match read {
        Some(v) => ResponseItemView::ImageGenerationCall {
            id: sanitized(tool_call_id),
            status: match text_member(v, "status"@) {
                Some(s) => s,
                None => result_status(is_error),
            },
            revised_prompt: match text_member(v, "revisedPrompt"@) {
                Some(s) => Some(s),
                None => prompt,
            },
            result: or_empty(text_member(v, "result"@)),
            internal_chat_message_metadata_passthrough: None,
        },
        None => ResponseItemView::ImageGenerationCall {
            id: sanitized(tool_call_id),
            status: result_status(is_error),
            revised_prompt: prompt,
            result: content,
            internal_chat_message_metadata_passthrough: None,
        },
    }
}

/// A generated image, given what the result reads as.
pub fn complete_image_from_read(
    tool_call_id: &str,
    content: &str,
    prompt: Option<String>,
    is_error: Option<bool>,
    read: &Option<Json>,
) -> (r: ResponseItem)
    ensures
        r@ == completed_image(
            tool_call_id@,
            content@,
            prompt.deep_view(),
            is_error,
            read.deep_view(),
        ),
{
    match read {
        Some(v) => {
            let status = match get_text_member(v, "status") {
                Some(s) => s.clone(),
                None => text(result_status_word(is_error)),
            };
            let revised_prompt = match get_text_member(v, "revisedPrompt") {
                Some(s) => Some(s.clone()),
                None => prompt,
            };
            let result = match get_text_member(v, "result") {
                Some(s) => s.clone(),
                None => String::new(),
            };
            assert(result@ =~= or_empty(text_member(v@, "result"@)));
            ResponseItem::ImageGenerationCall {
                id: sanitize_id(tool_call_id),
                status,
                revised_prompt,
                result,
                internal_chat_message_metadata_passthrough: None,
            }
        },
        None => ResponseItem::ImageGenerationCall {
            id: sanitize_id(tool_call_id),
            status: text(result_status_word(is_error)),
            revised_prompt: prompt,
            result: text(content),
            internal_chat_message_metadata_passthrough: None,
        },
    }
}

/// A generated image: the call and its result in one item.
pub fn complete_image_generation(
    tool_call_id: &str,
    content: &str,
    prompt: Option<String>,
    is_error: Option<bool>,
) -> (r: ResponseItem)
    ensures
        r@ == completed_image(
            tool_call_id@,
            content@,
            prompt.deep_view(),
            is_error,
            json_read(content@),
        ),
{
    let read = read_json(content);
    complete_image_from_read(tool_call_id, content, prompt, is_error, &read)
}

/// An image call that no result answered.
pub open spec fn unanswered_image(
    call_id: Seq<char>,
    prompt: Option<Seq<char>>,
) -> ResponseItemView {
    ResponseItemView::ImageGenerationCall {
        id: sanitized(call_id),
        status: "unknown"@,
        revised_prompt: prompt,
        result: Seq::empty(),
        internal_chat_message_metadata_passthrough: None,
    }
}

/// An image call that no result answered.
pub fn unanswered_image_item(call_id: &str, prompt: Option<String>) -> (r: ResponseItem)
    ensures
        r@ == unanswered_image(call_id@, prompt.deep_view()),
{
    let result = String::new();
    assert(result@ =~= Seq::<char>::empty());
    ResponseItem::ImageGenerationCall {
        id: sanitize_id(call_id),
        status: text("unknown"),
        revised_prompt: prompt,
        result,
        internal_chat_message_metadata_passthrough: None,
    }
}

// ---------------------------------------------------------------------------
// Laws
// ---------------------------------------------------------------------------

/// The tool is one whose calls are ordinary function calls or custom calls.
pub open spec fn is_generic_tool(name: Seq<char>) -> bool {
    name != "local_shell"@ && name != "web_search"@ && name != "tool_search"@ && name
        != "image_generation"@
}

proof fn lemma_texts_in_wire(list: Seq<Seq<char>>)
    ensures
        texts_in(list_wire::<String>(list)->List_0) == list,
    decreases list.len(),
{
    let w = list_wire::<String>(list)->List_0;
    if list.len() > 0 {
        lemma_texts_in_wire(list.drop_last());
        assert(w.drop_last() =~= list_wire::<String>(list.drop_last())->List_0);
        assert(list.drop_last().push(list.last()) =~= list);
    } else {
        assert(list =~= Seq::<Seq<char>>::empty());
    }
}

/// A function call that was stored is rebuilt with its name, its call, its wire
/// arguments and its encrypted arguments. (An argument object that itself has a
/// list under the name of the encrypted arguments is left out.)
pub proof fn function_call_is_rebuilt(
    name: Seq<char>,
    call_id: Seq<char>,
    raw: Seq<char>,
    read: Option<JsonView>,
    encrypted: Option<Seq<Seq<char>>>,
    id: Option<Seq<char>>,
    kept: Option<JsonView>,
)
    requires
        is_generic_tool(name),
        id_fits(recovered_id(id), "fc"@),
        encrypted is None ==> entry(arguments_of(raw, read), "__hostEncryptedFunctionArgs"@)
            is None,
    ensures
        rebuilt_call(name, call_id, function_arguments(raw, read, encrypted), id, kept) == (
        RebuiltCall {
            item: ResponseItemView::FunctionCall {
                id: recovered_id(id),
                name,
                namespace: None,
                arguments: raw,
                encrypted_function_args: encrypted,
                call_id,
                internal_chat_message_metadata_passthrough: None,
            },
            kind: RecoveredToolCallKind::Function,
            notes: Seq::empty(),
        }),
{
    reveal_strlit("fc");
    reveal_strlit("ctc");
    assert("fc"@.len() == 2 && "ctc"@.len() == 3);
    wire_arguments_are_kept(raw, read, encrypted);
    if let Some(list) = encrypted {
        lemma_texts_in_wire(list);
    }
}

/// A custom call that was stored is rebuilt with its name, its call and its input.
pub proof fn custom_call_is_rebuilt(
    name: Seq<char>,
    call_id: Seq<char>,
    input: Seq<char>,
    read: Option<JsonView>,
    id: Seq<char>,
    kept: Option<JsonView>,
)
    requires
        is_generic_tool(name),
        sanitized(id) is Some,
        kind_prefix(id) == Some("ctc"@),
    ensures
        rebuilt_call(name, call_id, arguments_of(input, read), Some(id), kept) == (RebuiltCall {
            item: ResponseItemView::CustomToolCall {
                id: Some(id),
                status: None,
                call_id,
                name,
                namespace: None,
                input,
                internal_chat_message_metadata_passthrough: None,
            },
            kind: RecoveredToolCallKind::Custom,
            notes: Seq::empty(),
        }),
{
    wire_arguments_are_kept(input, read, None);
}

/// A shell call that was stored is rebuilt with its action.
pub proof fn shell_call_is_rebuilt(
    call_id: Seq<char>,
    action: LocalShellActionView,
    id: Option<Seq<char>>,
    kept: Option<JsonView>,
)
    ensures
        rebuilt_call("local_shell"@, call_id, local_shell_arguments_of(action), id, kept).item
            matches ResponseItemView::LocalShellCall { action: rebuilt, call_id: c, .. } && rebuilt
            == action && c == filled(call_id),
{
    shell_action_reads_back(action);
}

/// A rebuilt function, custom, shell or tool search call wears an identity of
/// its own kind or none.
pub proof fn rebuilt_calls_wear_fitting_ids(
    tool_name: Seq<char>,
    tool_call_id: Seq<char>,
    arguments: Entries,
    id_hint: Option<Seq<char>>,
    read: Option<JsonView>,
)
    ensures
        match rebuilt_call(tool_name, tool_call_id, arguments, id_hint, read).item {
            ResponseItemView::FunctionCall { id, .. } => id_fits(id, "fc"@),
            ResponseItemView::CustomToolCall { id, .. } => recovered_prefix(id) == Some("ctc"@),
            ResponseItemView::LocalShellCall { id, .. } => id_fits(id, "lsh"@),
            ResponseItemView::ToolSearchCall { id, .. } => id_fits(id, "tsc"@),
            ResponseItemView::WebSearchCall { id, .. } => recovered_id(id_hint) is Some ==> id_fits(
                id,
                "ws"@,
            ),
            _ => true,
        },
{
}

/// A rebuilt output wears an identity of its own kind or none.
pub proof fn rebuilt_results_wear_fitting_ids(
    tool_call_id: Seq<char>,
    tool_name: Option<Seq<char>>,
    content: Seq<char>,
    is_error: Option<bool>,
    id_hint: Option<Seq<char>>,
    call_kind: Option<RecoveredToolCallKind>,
    read: Option<JsonView>,
)
    ensures
        match rebuilt_result(
            tool_call_id,
            tool_name,
            content,
            is_error,
            id_hint,
            call_kind,
            read,
        ).item {
            ResponseItemView::FunctionCallOutput { id, .. } => id_fits(id, "fco"@),
            ResponseItemView::CustomToolCallOutput { id, .. } => id_fits(id, "ctco"@),
            ResponseItemView::ToolSearchOutput { id, .. } => id_fits(id, "tso"@),
            _ => true,
        },
{
}

/// An identity that was recovered is worn with nothing said, or it is cleared
/// with one note. Where none was recovered nothing is said.
pub open spec fn is_worn_or_noted(
    id: Option<Seq<char>>,
    item: ResponseItemView,
    notes: Seq<Seq<char>>,
) -> bool {
    if id is None {
        notes.len() == 0
    } else {
        (item_id(item) == id && notes.len() == 0) || (item_id(item) is None && notes.len() == 1)
    }
}

/// An identity that a rebuilt call cannot wear is cleared, with one note.
pub proof fn cleared_call_ids_are_noted(
    tool_name: Seq<char>,
    tool_call_id: Seq<char>,
    arguments: Entries,
    id_hint: Option<Seq<char>>,
    read: Option<JsonView>,
)
    ensures
        ({
            let c = rebuilt_call(tool_name, tool_call_id, arguments, id_hint, read);
            is_worn_or_noted(recovered_id(id_hint), c.item, c.notes)
        }),
{
}

/// An identity that a rebuilt output cannot wear is cleared, with one note.
pub proof fn cleared_result_ids_are_noted(
    tool_call_id: Seq<char>,
    tool_name: Option<Seq<char>>,
    content: Seq<char>,
    is_error: Option<bool>,
    id_hint: Option<Seq<char>>,
    call_kind: Option<RecoveredToolCallKind>,
    read: Option<JsonView>,
)
    ensures
        ({
            let c = rebuilt_result(
                tool_call_id,
                tool_name,
                content,
                is_error,
                id_hint,
                call_kind,
                read,
            );
            is_worn_or_noted(recovered_id(id_hint), c.item, c.notes)
        }),
{
}

} // verus!
