//! Histories in bands: the oldest events in a few short notes, the newest turns
//! word for word.

use vstd::prelude::*;
use vstd::string::*;

use crate::json::json_text;
use crate::protocol::{ContentItem, ContentItemView, ResponseItem, ResponseItemView};
use crate::records::{
    event_kind_word, EventKind, EventPayload, EventPayloadView, EventRecord, EventRecordView,
};
use crate::reverse::{
    assistant_message, assistant_text_message, user_message, user_text_message,
};
use crate::text::{
    after_prefix, chars_of, decimal, decimal_text, first_from, join, joined, lemma_first_from,
    strip_prefix, substring, text, trim, trimmed,
};

verus! {

/// How many turns of the user stay word for word.
pub const DEFAULT_FULL_BAND_USER_TURNS: usize = 2;

/// One item of a report: which band it belongs to, who speaks, and how it begins.
#[derive(Debug, PartialEq, Eq)]
pub struct BandShapeItem {
    pub band: String,
    pub role: String,
    pub text_preview: String,
    pub char_len: usize,
}

/// What a [`BandShapeItem`] stands for.
#[verifier::ext_equal]
pub struct BandShapeItemView {
    pub band: Seq<char>,
    pub role: Seq<char>,
    pub text_preview: Seq<char>,
    pub char_len: usize,
}

impl View for BandShapeItem {
    type V = BandShapeItemView;

    open spec fn view(&self) -> BandShapeItemView {
        BandShapeItemView {
            band: self.band.deep_view(),
            role: self.role.deep_view(),
            text_preview: self.text_preview.deep_view(),
            char_len: self.char_len.deep_view(),
        }
    }
}

impl DeepView for BandShapeItem {
    type V = BandShapeItemView;

    open spec fn deep_view(&self) -> BandShapeItemView {
        self@
    }
}

impl Clone for BandShapeItem {
    fn clone(&self) -> (r: Self)
        ensures
            r@ == self@,
            r.deep_view() == self.deep_view(),
    {
        BandShapeItem {
            band: self.band.clone(),
            role: self.role.clone(),
            text_preview: self.text_preview.clone(),
            char_len: self.char_len,
        }
    }
}

/// What a history in bands looks like.
#[derive(Debug, PartialEq, Eq)]
pub struct BandShapeReport {
    pub source_event_count: usize,
    pub full_band_user_turns: usize,
    pub items: Vec<BandShapeItem>,
    pub notes: Vec<String>,
}

/// What a [`BandShapeReport`] stands for.
#[verifier::ext_equal]
pub struct BandShapeReportView {
    pub source_event_count: usize,
    pub full_band_user_turns: usize,
    pub items: Seq<BandShapeItemView>,
    pub notes: Seq<Seq<char>>,
}

impl View for BandShapeReport {
    type V = BandShapeReportView;

    open spec fn view(&self) -> BandShapeReportView {
        BandShapeReportView {
            source_event_count: self.source_event_count.deep_view(),
            full_band_user_turns: self.full_band_user_turns.deep_view(),
            items: self.items.deep_view(),
            notes: self.notes.deep_view(),
        }
    }
}

impl DeepView for BandShapeReport {
    type V = BandShapeReportView;

    open spec fn deep_view(&self) -> BandShapeReportView {
        self@
    }
}

impl Clone for BandShapeReport {
    fn clone(&self) -> (r: Self)
        ensures
            r@ == self@,
            r.deep_view() == self.deep_view(),
    {
        BandShapeReport {
            source_event_count: self.source_event_count,
            full_band_user_turns: self.full_band_user_turns,
            items: self.items.clone(),
            notes: self.notes.clone(),
        }
    }
}

// ---------------------------------------------------------------------------
// Text
// ---------------------------------------------------------------------------

/// The first `max` characters of a text, and a mark where there are more.
pub open spec fn truncated(s: Seq<char>, max: int) -> Seq<char> {
    if s.len() <= max {
        s
    } else {
        s.subrange(0, max) + "…"@
    }
}

/// The first `max` characters of a text, and a mark where there are more.
pub fn truncate(s: &str, max: usize) -> (r: String)
    ensures
        r@ == truncated(s@, max as int),
{
    let chars = chars_of(s);
    if chars.len() <= max {
        return text(s);
    }
    let mut t = substring(&chars, 0, max);
    t.append("…");
    t
}

// ---------------------------------------------------------------------------
// Lines
// ---------------------------------------------------------------------------

/// Who speaks in a line.
#[derive(Debug, Clone, Copy, PartialEq, Eq, Structural)]
pub enum TurnRole {
    User,
    Assistant,
    Tool,
    Note,
}

/// An event as a line of the history.
#[derive(Debug)]
pub struct TurnLine {
    pub role: TurnRole,
    pub kind: EventKind,
    pub text: String,
}

/// What a [`TurnLine`] stands for.
#[verifier::ext_equal]
pub struct TurnLineView {
    pub role: TurnRole,
    pub kind: EventKind,
    pub text: Seq<char>,
}

impl View for TurnLine {
    type V = TurnLineView;

    open spec fn view(&self) -> TurnLineView {
        TurnLineView { role: self.role, kind: self.kind, text: self.text@ }
    }
}

impl DeepView for TurnLine {
    type V = TurnLineView;

    open spec fn deep_view(&self) -> TurnLineView {
        self@
    }
}

/// Who speaks in an event of a kind.
pub open spec fn role_of(kind: EventKind) -> TurnRole {
    match kind {
        EventKind::UserPrompt => TurnRole::User,
        EventKind::AssistantText => TurnRole::Assistant,
        EventKind::AssistantThinking => TurnRole::Assistant,
        EventKind::ToolCall => TurnRole::Tool,
        EventKind::ToolResult => TurnRole::Tool,
        _ => TurnRole::Note,
    }
}

/// What an event says.
pub open spec fn text_of_event(e: EventRecordView) -> Seq<char> {
    match e.payload {
        EventPayloadView::Text { text } => text,
        EventPayloadView::ToolCall { tool_name, arguments } => "tool_call "@ + tool_name + " "@
            + json_text(arguments),
        EventPayloadView::ToolResult { content } => "tool_result "@ + content,
        EventPayloadView::Other => Seq::empty(),
    }
}

fn event_text(e: &EventRecord) -> (r: String)
    ensures
        r@ == text_of_event(e@),
{
    match &e.payload {
        EventPayload::Text { text } => text.clone(),
        EventPayload::ToolCall { tool_name, arguments } => {
            let mut s = text("tool_call ");
            s.append(tool_name.as_str());
            s.append(" ");
            s.append(arguments.to_text().as_str());
            s
        },
        EventPayload::ToolResult { content } => {
            let mut s = text("tool_result ");
            s.append(content.as_str());
            s
        },
        EventPayload::Other => {
            let s = String::new();
            assert(s@ =~= Seq::<char>::empty());
            s
        },
    }
}

/// The lines of the first `n` events; an event that says nothing gives none.
pub open spec fn lines_of(events: Seq<EventRecordView>, n: int) -> Seq<TurnLineView>
    decreases n,
{
    if n <= 0 {
        Seq::empty()
    } else {
        let before = lines_of(events, n - 1);
        let e = events[n - 1];
        if trimmed(text_of_event(e)).len() == 0 {
            before
        } else {
            before.push(
                TurnLineView { role: role_of(e.kind), kind: e.kind, text: text_of_event(e) },
            )
        }
    }
}

fn event_lines(events: &Vec<EventRecord>) -> (r: Vec<TurnLine>)
    ensures
        r.deep_view() == lines_of(events.deep_view(), events.len() as int),
{
    let ghost view = events.deep_view();
    let mut out: Vec<TurnLine> = Vec::new();
    assert(out.deep_view() =~= Seq::<TurnLineView>::empty());
    let mut i: usize = 0;
    while i < events.len()
        invariant
            i <= events.len(),
            view == events.deep_view(),
            out.deep_view() == lines_of(view, i as int),
        decreases events.len() - i,
    {
        let ghost before = out.deep_view();
        assert(view[i as int] == events@[i as int]@);
        let said = event_text(&events[i]);
        if trim(said.as_str()).as_str().unicode_len() > 0 {
            let kind = events[i].kind;
            let role = match kind {
                EventKind::UserPrompt => TurnRole::User,
                EventKind::AssistantText => TurnRole::Assistant,
                EventKind::AssistantThinking => TurnRole::Assistant,
                EventKind::ToolCall => TurnRole::Tool,
                EventKind::ToolResult => TurnRole::Tool,
                _ => TurnRole::Note,
            };
            let line = TurnLine { role, kind, text: said };
            let ghost line_view = line@;
            out.push(line);
            assert(out.deep_view() =~= before.push(line_view));
        }
        i = i + 1;
    }
    out
}

/// Where the user speaks, among the first `n` lines.
pub open spec fn user_positions(lines: Seq<TurnLineView>, n: int) -> Seq<int>
    decreases n,
{
    if n <= 0 {
        Seq::empty()
    } else if lines[n - 1].role == TurnRole::User {
        user_positions(lines, n - 1).push(n - 1)
    } else {
        user_positions(lines, n - 1)
    }
}

fn find_user_positions(lines: &Vec<TurnLine>) -> (r: Vec<usize>)
    ensures
        r@.map_values(|p: usize| p as int) == user_positions(
            lines.deep_view(),
            lines.len() as int,
        ),
        forall|k: int| 0 <= k < r.len() ==> #[trigger] r@[k] < lines.len(),
{
    let ghost view = lines.deep_view();
    let mut out: Vec<usize> = Vec::new();
    assert(out@.map_values(|p: usize| p as int) =~= Seq::<int>::empty());
    let mut i: usize = 0;
    while i < lines.len()
        invariant
            i <= lines.len(),
            view == lines.deep_view(),
            out@.map_values(|p: usize| p as int) == user_positions(view, i as int),
            forall|k: int| 0 <= k < out.len() ==> #[trigger] out@[k] < lines.len(),
        decreases lines.len() - i,
    {
        let ghost before = out@;
        assert(view[i as int] == lines@[i as int]@);
        if lines[i].role == TurnRole::User {
            out.push(i);
            assert(out@.map_values(|p: usize| p as int) =~= before.map_values(
                |p: usize| p as int,
            ).push(i as int));
        }
        i = i + 1;
    }
    out
}

// ---------------------------------------------------------------------------
// Notes and messages
// ---------------------------------------------------------------------------

/// A note of the host to the model.
pub open spec fn developer_message(s: Seq<char>) -> ResponseItemView {
    ResponseItemView::Message {
        id: None,
        role: "developer"@,
        content: seq![ContentItemView::InputText { text: s }],
        phase: None,
        internal_chat_message_metadata_passthrough: None,
    }
}

fn developer_note(s: &str) -> (r: ResponseItem)
    ensures
        r@ == developer_message(s@),
{
    let part = ContentItem::InputText { text: text(s) };
    let ghost view = part@;
    let mut content: Vec<ContentItem> = Vec::new();
    content.push(part);
    assert(content.deep_view() =~= seq![view]);
    ResponseItem::Message {
        id: None,
        role: text("developer"),
        content,
        phase: None,
        internal_chat_message_metadata_passthrough: None,
    }
}

/// A line in a summary.
pub open spec fn summary_line(line: TurnLineView) -> Seq<char> {
    "- ("@ + event_kind_word(line.kind) + ") "@ + truncated(trimmed(line.text), 120)
}

/// How many lines a summary spells out.
pub const SUMMARY_LINES: usize = 8;

/// The parts of a summary.
pub open spec fn summary_parts(lines: Seq<TurnLineView>) -> Seq<Seq<char>> {
    if lines.len() <= SUMMARY_LINES {
        lines.map_values(|l: TurnLineView| summary_line(l))
    } else {
        lines.take(SUMMARY_LINES as int).map_values(|l: TurnLineView| summary_line(l)).push(
            "- … "@ + decimal((lines.len() - SUMMARY_LINES) as nat) + " more lines"@,
        )
    }
}

/// The summary of a band.
pub open spec fn band_summary(band: Seq<char>, lines: Seq<TurnLineView>) -> Seq<char> {
    "[lhc-band:"@ + band + "] "@ + joined(summary_parts(lines), " "@)
}

fn summarize_band(band: &str, lines: &Vec<TurnLine>, from: usize, to: usize) -> (r: String)
    requires
        from <= to <= lines.len(),
    ensures
        r@ == band_summary(band@, lines.deep_view().subrange(from as int, to as int)),
{
    let ghost own = lines.deep_view().subrange(from as int, to as int);
    let n: usize = if to - from <= SUMMARY_LINES {
        to - from
    } else {
        SUMMARY_LINES
    };
    let ghost shown = own.take(n as int).map_values(|l: TurnLineView| summary_line(l));
    let mut parts: Vec<String> = Vec::new();
    let mut i: usize = 0;
    while i < n
        invariant
            i <= n,
            n <= to - from,
            from <= to <= lines.len(),
            own == lines.deep_view().subrange(from as int, to as int),
            parts.len() == i,
            forall|k: int| 0 <= k < i ==> (#[trigger] parts@[k])@ == summary_line(own[k]),
        decreases n - i,
    {
        let line = &lines[from + i];
        assert(own[i as int] == line@);
        let mut s = text("- (");
        s.append(line.kind.as_str());
        s.append(") ");
        s.append(truncate(trim(line.text.as_str()).as_str(), 120).as_str());
        parts.push(s);
        i = i + 1;
    }
    assert(parts.deep_view() =~= shown);
    if to - from > SUMMARY_LINES {
        let mut s = text("- … ");
        s.append(decimal_text((to - from - SUMMARY_LINES) as u128).as_str());
        s.append(" more lines");
        let ghost said = s@;
        parts.push(s);
        assert(parts.deep_view() =~= shown.push(said));
    } else {
        assert(own.take(n as int) =~= own);
    }
    let mut out = text("[lhc-band:");
    out.append(band);
    out.append("] ");
    out.append(join(&parts, " ").as_str());
    out
}

/// A line that stays word for word. A tool or a note is kept as a note of the host.
pub open spec fn full_item(line: TurnLineView) -> ResponseItemView {
    match line.role {
        TurnRole::User => user_message(line.text),
        TurnRole::Assistant => assistant_message(None, line.text),
        _ => developer_message(
            "[lhc-band:full:"@ + event_kind_word(line.kind) + "] "@ + truncated(line.text, 400),
        ),
    }
}

fn make_full_item(line: &TurnLine) -> (r: ResponseItem)
    ensures
        r@ == full_item(line@),
{
    match line.role {
        TurnRole::User => user_text_message(line.text.as_str()),
        TurnRole::Assistant => assistant_text_message(None, line.text.as_str()),
        _ => {
            let mut s = text("[lhc-band:full:");
            s.append(line.kind.as_str());
            s.append("] ");
            s.append(truncate(line.text.as_str(), 400).as_str());
            developer_note(s.as_str())
        },
    }
}

// ---------------------------------------------------------------------------
// Bands
// ---------------------------------------------------------------------------

/// Where the first of three bands over `n` lines ends.
pub open spec fn brief_end(n: int) -> int {
    if n / 3 >= 1 {
        n / 3
    } else if n >= 1 {
        1
    } else {
        n
    }
}

/// Where the second of three bands over `n` lines ends.
pub open spec fn detailed_end(n: int) -> int {
    if 2 * n / 3 >= brief_end(n) {
        2 * n / 3
    } else {
        brief_end(n)
    }
}

/// The notes on the lines before the full band: up to three, and none that is empty.
pub open spec fn head_items(lines: Seq<TurnLineView>, n: int) -> Seq<ResponseItemView> {
    let b = brief_end(n);
    let d = detailed_end(n);
    let brief = seq![developer_message(band_summary("brief"@, lines.subrange(0, b)))];
    let detailed = if d > b {
        seq![developer_message(band_summary("detailed"@, lines.subrange(b, d)))]
    } else {
        Seq::empty()
    };
    let smooth = if n > d {
        seq![developer_message(band_summary("smooth"@, lines.subrange(d, n)))]
    } else {
        Seq::empty()
    };
    brief + detailed + smooth
}

/// Where the full band begins: at one of the last turns of the user.
pub open spec fn full_start(lines: Seq<TurnLineView>, turns: int) -> int {
    let users = user_positions(lines, lines.len() as int);
    if users.len() <= turns {
        0
    } else {
        users[users.len() - turns]
    }
}

/// A history in bands, and what is to be said of it.
#[verifier::ext_equal]
pub struct Banded {
    pub items: Seq<ResponseItemView>,
    pub notes: Seq<Seq<char>>,
}

/// The history of some lines in bands.
pub open spec fn banded(lines: Seq<TurnLineView>, turns: int) -> Banded {
    let users = user_positions(lines, lines.len() as int);
    let start = full_start(lines, turns);
    let full = lines.skip(start).map_values(|l: TurnLineView| full_item(l));
    let few = if users.len() <= turns {
        seq![
            "only "@ + decimal(users.len()) + " user turns; entire transcript stays in full band"@,
        ]
    } else {
        Seq::empty()
    };
    if start > 0 {
        Banded {
            items: head_items(lines, start) + full,
            notes: few.push(
                "head_turns="@ + decimal(start as nat)
                    + " → brief/detailed/smooth developer notes; full_turns="@ + decimal(
                    (lines.len() - start) as nat,
                ),
            ),
        }
    } else {
        Banded { items: full, notes: few.push("no head; only full band"@) }
    }
}

fn push_item(items: &mut Vec<ResponseItem>, item: ResponseItem)
    ensures
        final(items).deep_view() == old(items).deep_view().push(item@),
{
    let ghost before = items.deep_view();
    let ghost view = item@;
    items.push(item);
    assert(items.deep_view() =~= before.push(view));
}

fn push_text(list: &mut Vec<String>, s: String)
    ensures
        final(list).deep_view() == old(list).deep_view().push(s@),
{
    let ghost before = list.deep_view();
    let ghost view = s@;
    list.push(s);
    assert(list.deep_view() =~= before.push(view));
}

fn push_head(lines: &Vec<TurnLine>, n: usize, items: &mut Vec<ResponseItem>)
    requires
        0 < n <= lines.len(),
    ensures
        final(items).deep_view() == old(items).deep_view() + head_items(
            lines.deep_view(),
            n as int,
        ),
{
    let ghost start = items.deep_view();
    let third: usize = n / 3;
    let b: usize = if third >= 1 {
        third
    } else {
        1
    };
    let exact: usize = 2 * third + (2 * (n % 3)) / 3;
    let d: usize = if exact >= b {
        exact
    } else {
        b
    };
    assert(exact == 2 * n / 3);
    push_item(items, developer_note(summarize_band("brief", lines, 0, b).as_str()));
    if d > b {
        push_item(items, developer_note(summarize_band("detailed", lines, b, d).as_str()));
    }
    if n > d {
        push_item(items, developer_note(summarize_band("smooth", lines, d, n).as_str()));
    }
    assert(items.deep_view() =~= start + head_items(lines.deep_view(), n as int));
}

/// The history of some events, and a report on it.
pub open spec fn banded_history(events: Seq<EventRecordView>, turns: usize) -> (
    Seq<ResponseItemView>,
    BandShapeReportView,
) {
    let lines = lines_of(events, events.len() as int);
    if lines.len() == 0 {
        let items = minimal_history();
        (
            items,
            report_on(
                items,
                0,
                turns,
                seq!["no mappable events; emitting synthetic minimal band fixture"@],
            ),
        )
    } else {
        let b = banded(lines, turns as int);
        (b.items, report_on(b.items, events.len() as usize, turns, b.notes))
    }
}

/// The full band has a turn of the user to begin at.
pub open spec fn has_full_band(events: Seq<EventRecordView>, turns: usize) -> bool {
    let lines = lines_of(events, events.len() as int);
    turns > 0 || user_positions(lines, lines.len() as int).len() == 0
}

/// The history of some events in bands, and a report on it: the last
/// `full_band_user_turns` turns of the user stay word for word, what is older
/// is summed up in up to three notes.
pub fn band_shaped_history_from_events(
    events: &Vec<EventRecord>,
    full_band_user_turns: usize,
) -> (r: (Vec<ResponseItem>, BandShapeReport))
    requires
        has_full_band(events.deep_view(), full_band_user_turns),
    ensures
        r.0.deep_view() == banded_history(events.deep_view(), full_band_user_turns).0,
        r.1@ == banded_history(events.deep_view(), full_band_user_turns).1,
{
    let lines = event_lines(events);
    let ghost view = lines.deep_view();
    let mut notes: Vec<String> = Vec::new();
    assert(notes.deep_view() =~= Seq::<Seq<char>>::empty());
    if lines.len() == 0 {
        push_text(&mut notes, text("no mappable events; emitting synthetic minimal band fixture"));
        let items = synthetic_minimal_band_history();
        let report = report_from_items(&items, 0, full_band_user_turns, notes);
        return (items, report);
    }
    let users = find_user_positions(&lines);
    let ghost positions = user_positions(view, lines.len() as int);
    assert(users@.map_values(|p: usize| p as int).len() == users.len());
    let start: usize = if users.len() <= full_band_user_turns {
        let mut s = text("only ");
        s.append(decimal_text(users.len() as u128).as_str());
        s.append(" user turns; entire transcript stays in full band");
        push_text(&mut notes, s);
        0
    } else {
        assert(positions[users.len() - full_band_user_turns] == users@[users.len()
            - full_band_user_turns]);
        users[users.len() - full_band_user_turns]
    };
    assert(start == full_start(view, full_band_user_turns as int));
    let mut items: Vec<ResponseItem> = Vec::new();
    assert(items.deep_view() =~= Seq::<ResponseItemView>::empty());
    if start > 0 {
        push_head(&lines, start, &mut items);
        let mut s = text("head_turns=");
        s.append(decimal_text(start as u128).as_str());
        s.append(" → brief/detailed/smooth developer notes; full_turns=");
        s.append(decimal_text((lines.len() - start) as u128).as_str());
        push_text(&mut notes, s);
    } else {
        push_text(&mut notes, text("no head; only full band"));
    }
    let ghost head = items.deep_view();
    let ghost full = view.skip(start as int).map_values(|l: TurnLineView| full_item(l));
    let mut i: usize = start;
    assert(head + full.take(0) =~= head);
    while i < lines.len()
        invariant
            start <= i <= lines.len(),
            view == lines.deep_view(),
            full == view.skip(start as int).map_values(|l: TurnLineView| full_item(l)),
            items.deep_view() == head + full.take(i - start),
        decreases lines.len() - i,
    {
        assert(view[i as int] == lines@[i as int]@);
        push_item(&mut items, make_full_item(&lines[i]));
        assert(full.take(i - start + 1) =~= full.take(i - start).push(full[i - start]));
        i = i + 1;
        assert(items.deep_view() =~= head + full.take(i - start));
    }
    assert(full.take(i - start) =~= full);
    let ghost b = banded(view, full_band_user_turns as int);
    assert(items.deep_view() =~= b.items);
    assert(notes.deep_view() =~= b.notes);
    let report = report_from_items(&items, events.len(), full_band_user_turns, notes);
    (items, report)
}

/// A small history with every band.
pub open spec fn minimal_history() -> Seq<ResponseItemView> {
    seq![
        developer_message(
            "[lhc-band:brief] Early work: explored repo layout and located compact ladder."@,
        ),
        developer_message(
            "[lhc-band:detailed] Mid work: wire RawItemContributor capture; idempotency keys settled."@,
        ),
        developer_message(
            "[lhc-band:smooth] Recent: certification round-trips green; pre-bridge census underway."@,
        ),
        user_message("Continue from the census — what should the LHC compact arm do first?"@),
        assistant_message(
            None,
            "Place the LHC arm above TokenBudget, write back via replace_compacted_history, and fail open to native arms."@,
        ),
        user_message("Ack. Ready for band-shape model eval when auth is approved."@),
    ]
}

/// A small history with every band.
pub fn synthetic_minimal_band_history() -> (r: Vec<ResponseItem>)
    ensures
        r.deep_view() == minimal_history(),
{
    let mut items: Vec<ResponseItem> = Vec::new();
    push_item(
        &mut items,
        developer_note(
            "[lhc-band:brief] Early work: explored repo layout and located compact ladder.",
        ),
    );
    push_item(
        &mut items,
        developer_note(
            "[lhc-band:detailed] Mid work: wire RawItemContributor capture; idempotency keys settled.",
        ),
    );
    push_item(
        &mut items,
        developer_note(
            "[lhc-band:smooth] Recent: certification round-trips green; pre-bridge census underway.",
        ),
    );
    push_item(
        &mut items,
        user_text_message("Continue from the census — what should the LHC compact arm do first?"),
    );
    push_item(
        &mut items,
        assistant_text_message(
            None,
            "Place the LHC arm above TokenBudget, write back via replace_compacted_history, and fail open to native arms.",
        ),
    );
    push_item(
        &mut items,
        user_text_message("Ack. Ready for band-shape model eval when auth is approved."),
    );
    assert(items.deep_view() =~= minimal_history());
    items
}

// ---------------------------------------------------------------------------
// Reports
// ---------------------------------------------------------------------------

/// The texts of a message.
pub open spec fn message_texts(content: Seq<ContentItemView>) -> Seq<Seq<char>>
    decreases content.len(),
{
    if content.len() == 0 {
        Seq::empty()
    } else {
        let before = message_texts(content.drop_last());
        match content.last() {
            ContentItemView::InputText { text } => before.push(text),
            ContentItemView::OutputText { text } => before.push(text),
            _ => before,
        }
    }
}

fn texts_of_message(content: &Vec<ContentItem>) -> (r: Vec<String>)
    ensures
        r.deep_view() == message_texts(content.deep_view()),
{
    let ghost view = content.deep_view();
    let mut out: Vec<String> = Vec::new();
    assert(out.deep_view() =~= Seq::<Seq<char>>::empty());
    let mut i: usize = 0;
    while i < content.len()
        invariant
            i <= content.len(),
            view == content.deep_view(),
            out.deep_view() == message_texts(view.take(i as int)),
        decreases content.len() - i,
    {
        assert(view[i as int] == content@[i as int]@);
        assert(view.take(i + 1).drop_last() =~= view.take(i as int));
        match &content[i] {
            ContentItem::InputText { text } => {
                push_text(&mut out, text.clone());
            },
            ContentItem::OutputText { text } => {
                push_text(&mut out, text.clone());
            },
            _ => {},
        }
        i = i + 1;
    }
    assert(view.take(i as int) =~= view);
    out
}

/// The band that a text is marked with; without a mark, the full band.
pub open spec fn band_of(s: Seq<char>) -> Seq<char> {
    match after_prefix(s, "[lhc-band:"@) {
        Some(rest) => rest.subrange(0, first_from(rest, ']', 0)),
        None => "full"@,
    }
}

fn find_band(s: &str) -> (r: String)
    ensures
        r@ == band_of(s@),
{
    match strip_prefix(s, "[lhc-band:") {
        Some(rest) => {
            let chars = chars_of(rest.as_str());
            proof {
                lemma_first_from(chars@, ']', 0);
            }
            let at: usize = crate::text::find_from(&chars, ']', 0);
            substring(&chars, 0, at)
        },
        None => text("full"),
    }
}

/// How many characters of each text a report shows.
pub const PREVIEW_CHARS: usize = 160;

/// The report on one item.
pub open spec fn report_item(item: ResponseItemView) -> BandShapeItemView {
    match item {
        ResponseItemView::Message { role, content, .. } => {
            let texts = message_texts(content);
            let s = joined(texts, "\n"@);
            BandShapeItemView {
                band: band_of(s),
                role,
                text_preview: joined(
                    texts.map_values(|t: Seq<char>| truncated(t, PREVIEW_CHARS as int)),
                    " "@,
                ),
                char_len: s.len() as usize,
            }
        },
        _ => BandShapeItemView {
            band: "other"@,
            role: "other"@,
            text_preview: Seq::empty(),
            char_len: 0,
        },
    }
}

fn report_one(item: &ResponseItem) -> (r: BandShapeItem)
    ensures
        r@ == report_item(item@),
{
    match item {
        ResponseItem::Message { role, content, .. } => {
            let texts = texts_of_message(content);
            let ghost view = texts.deep_view();
            let s = join(&texts, "\n");
            let mut previews: Vec<String> = Vec::new();
            let mut i: usize = 0;
            while i < texts.len()
                invariant
                    i <= texts.len(),
                    previews.len() == i,
                    view == texts.deep_view(),
                    forall|k: int|
                        0 <= k < i ==> (#[trigger] previews@[k])@ == truncated(
                            view[k],
                            PREVIEW_CHARS as int,
                        ),
                decreases texts.len() - i,
            {
                previews.push(truncate(texts[i].as_str(), PREVIEW_CHARS));
                i = i + 1;
            }
            assert(previews.deep_view() =~= view.map_values(
                |t: Seq<char>| truncated(t, PREVIEW_CHARS as int),
            ));
            BandShapeItem {
                band: find_band(s.as_str()),
                role: role.clone(),
                text_preview: join(&previews, " "),
                char_len: s.as_str().unicode_len(),
            }
        },
        _ => {
            let text_preview = String::new();
            assert(text_preview@ =~= Seq::<char>::empty());
            BandShapeItem {
                band: text("other"),
                role: text("other"),
                text_preview,
                char_len: 0,
            }
        },
    }
}

/// The report on a history.
pub open spec fn report_on(
    items: Seq<ResponseItemView>,
    source_event_count: usize,
    full_band_user_turns: usize,
    notes: Seq<Seq<char>>,
) -> BandShapeReportView {
    BandShapeReportView {
        source_event_count,
        full_band_user_turns,
        items: items.map_values(|i: ResponseItemView| report_item(i)),
        notes,
    }
}

/// The report on a history.
pub fn report_from_items(
    items: &Vec<ResponseItem>,
    source_event_count: usize,
    full_band_user_turns: usize,
    notes: Vec<String>,
) -> (r: BandShapeReport)
    ensures
        r@ == report_on(
            items.deep_view(),
            source_event_count,
            full_band_user_turns,
            notes.deep_view(),
        ),
{
    let mut out: Vec<BandShapeItem> = Vec::new();
    let mut i: usize = 0;
    while i < items.len()
        invariant
            i <= items.len(),
            out.len() == i,
            forall|k: int| 0 <= k < i ==> (#[trigger] out@[k])@ == report_item(items@[k]@),
        decreases items.len() - i,
    {
        out.push(report_one(&items[i]));
        i = i + 1;
    }
    assert(out.deep_view() =~= items.deep_view().map_values(
        |x: ResponseItemView| report_item(x),
    ));
    BandShapeReport { source_event_count, full_band_user_turns, items: out, notes }
}

// ---------------------------------------------------------------------------
// Laws
// ---------------------------------------------------------------------------

proof fn lemma_user_positions(lines: Seq<TurnLineView>, n: int)
    requires
        0 <= n <= lines.len(),
    ensures
        forall|k: int|
            0 <= k < user_positions(lines, n).len() ==> 0 <= #[trigger] user_positions(lines, n)[k]
                < n && lines[user_positions(lines, n)[k]].role == TurnRole::User,
    decreases n,
{
    if n > 0 {
        lemma_user_positions(lines, n - 1);
        let before = user_positions(lines, n - 1);
        let after = user_positions(lines, n);
        assert forall|k: int| 0 <= k < after.len() implies 0 <= #[trigger] after[k] < n
            && lines[after[k]].role == TurnRole::User by {
            if k < before.len() {
                assert(after[k] == before[k]);
            }
        }
    }
}

/// A line of the full band stands in the history word for word, at its place
/// from the end.
pub proof fn full_band_is_verbatim(lines: Seq<TurnLineView>, turns: int, i: int)
    requires
        turns > 0,
        full_start(lines, turns) <= i < lines.len(),
    ensures
        ({
            let items = banded(lines, turns).items;
            items.len() >= lines.len() - i && items[items.len() - (lines.len() - i)] == full_item(
                lines[i],
            )
        }),
{
    let start = full_start(lines, turns);
    lemma_user_positions(lines, lines.len() as int);
    let full = lines.skip(start).map_values(|l: TurnLineView| full_item(l));
    assert(full[i - start] == full_item(lines[i]));
}

/// The full band begins with a turn of the user, unless everything is in it.
pub proof fn full_band_begins_with_the_user(lines: Seq<TurnLineView>, turns: int)
    requires
        turns > 0,
        full_start(lines, turns) > 0,
    ensures
        full_start(lines, turns) < lines.len(),
        lines[full_start(lines, turns)].role == TurnRole::User,
{
    lemma_user_positions(lines, lines.len() as int);
}

/// Three bands cover the lines before the full band without a gap and without
/// an overlap.
pub proof fn bands_cover_the_head(n: int)
    requires
        n > 0,
    ensures
        0 < brief_end(n) <= detailed_end(n) <= n,
{
}

} // verus!
