//! What a history in bands keeps of the events behind it.

use vstd::prelude::*;
use vstd::string::*;

use crate::band_shape::{
    band_of, band_summary, banded, banded_history, full_item, full_start, head_items, lines_of,
    message_texts, report_on, summary_line, text_of_event, truncated, user_positions, TurnLineView,
    TurnRole,
};
use crate::json::json_text;
use crate::protocol::{ContentItemView, ResponseItemView};
use crate::records::{event_kind_word, EventKind, EventPayloadView, EventRecordView};
use crate::text::{decimal, trimmed};

verus! {

// ---------------------------------------------------------------------------
// Lines
// ---------------------------------------------------------------------------

/// What an event says.
pub open spec fn says(e: EventRecordView) -> Seq<char> {
    match e.payload {
        EventPayloadView::Text { text } => text,
        EventPayloadView::ToolCall { tool_name, arguments } => "tool_call "@ + tool_name + " "@
            + json_text(arguments),
        EventPayloadView::ToolResult { content } => "tool_result "@ + content,
        EventPayloadView::Other => Seq::empty(),
    }
}

/// Who speaks.
pub open spec fn speaker(kind: EventKind) -> TurnRole {
    if kind == EventKind::UserPrompt {
        TurnRole::User
    } else if kind == EventKind::AssistantText || kind == EventKind::AssistantThinking {
        TurnRole::Assistant
    } else if kind == EventKind::ToolCall || kind == EventKind::ToolResult {
        TurnRole::Tool
    } else {
        TurnRole::Note
    }
}

/// Every event that says something is a line, in its order, under its speaker and
/// with all that it says.
pub proof fn speaking_events_are_lines(events: Seq<EventRecordView>, n: int)
    requires
        0 <= n <= events.len(),
    ensures
        lines_of(events, n) == events.take(n).filter(
            |e: EventRecordView| trimmed(says(e)).len() > 0,
        ).map_values(
            |e: EventRecordView|
                TurnLineView { role: speaker(e.kind), kind: e.kind, text: says(e) },
        ),
    decreases n,
{
    reveal(Seq::filter);
    let p = |e: EventRecordView| trimmed(says(e)).len() > 0;
    let f = |e: EventRecordView|
        TurnLineView { role: speaker(e.kind), kind: e.kind, text: says(e) };
    if n == 0 {
        assert(events.take(0).filter(p).map_values(f) =~= Seq::<TurnLineView>::empty());
    } else {
        speaking_events_are_lines(events, n - 1);
        assert(events.take(n).drop_last() =~= events.take(n - 1));
        let before = events.take(n - 1).filter(p);
        let e = events[n - 1];
        assert(says(e) =~= text_of_event(e));
        if p(e) {
            assert(events.take(n).filter(p) =~= before.push(e));
            assert(before.push(e).map_values(f) =~= before.map_values(f).push(f(e)));
        } else {
            assert(events.take(n).filter(p) =~= before);
        }
    }
}

// ---------------------------------------------------------------------------
// Bands
// ---------------------------------------------------------------------------

/// How many of some lines are the user's.
pub open spec fn turns_of_the_user(lines: Seq<TurnLineView>) -> nat {
    lines.filter(|l: TurnLineView| l.role == TurnRole::User).len()
}

proof fn lemma_turns_counted(lines: Seq<TurnLineView>, n: int)
    requires
        0 <= n <= lines.len(),
    ensures
        user_positions(lines, n).len() == turns_of_the_user(lines.take(n)),
    decreases n,
{
    reveal(Seq::filter);
    if n > 0 {
        lemma_turns_counted(lines, n - 1);
        assert(lines.take(n).drop_last() =~= lines.take(n - 1));
    }
}

proof fn lemma_turns_from(lines: Seq<TurnLineView>, n: int, k: int)
    requires
        0 <= n <= lines.len(),
        0 <= k < user_positions(lines, n).len(),
    ensures
        0 <= user_positions(lines, n)[k] < n,
        turns_of_the_user(lines.subrange(user_positions(lines, n)[k], n)) == user_positions(
            lines,
            n,
        ).len() - k,
        lines[user_positions(lines, n)[k]].role == TurnRole::User,
    decreases n,
{
    reveal(Seq::filter);
    if n > 0 {
        let before = user_positions(lines, n - 1);
        let p = user_positions(lines, n)[k];
        if k < before.len() {
            lemma_turns_from(lines, n - 1, k);
            assert(lines.subrange(p, n).drop_last() =~= lines.subrange(p, n - 1));
        } else {
            assert(p == n - 1);
            let own = lines.subrange(p, n);
            assert(own.len() == 1);
            assert(own.drop_last().len() == 0);
            reveal_with_fuel(Seq::filter, 2);
        }
    }
}

/// A line that stays: the words of the user and the assistant as they are, the
/// rest as a note that names its kind.
pub open spec fn is_kept_as(line: TurnLineView, item: ResponseItemView) -> bool {
    let said = |role: Seq<char>, part: ContentItemView|
        item == (ResponseItemView::Message {
            id: None,
            role,
            content: seq![part],
            phase: None,
            internal_chat_message_metadata_passthrough: None,
        });
    match line.role {
        TurnRole::User => said("user"@, ContentItemView::InputText { text: line.text }),
        TurnRole::Assistant => said("assistant"@, ContentItemView::OutputText { text: line.text }),
        _ => said(
            "developer"@,
            ContentItemView::InputText {
                text: "[lhc-band:full:"@ + event_kind_word(line.kind) + "] "@ + (if line.text.len()
                    <= 400 {
                    line.text
                } else {
                    line.text.take(400) + "…"@
                }),
            },
        ),
    }
}

/// The last turns of the user, as many as asked, stay as they are with all that
/// stands between and behind them; all stay where there are no more.
pub proof fn last_turns_stay(lines: Seq<TurnLineView>, turns: int)
    requires
        turns > 0,
    ensures
        ({
            let start = full_start(lines, turns);
            let items = banded(lines, turns).items;
            let kept = lines.len() - start;
            &&& 0 <= start <= lines.len()
            &&& turns_of_the_user(lines) <= turns ==> start == 0
            &&& turns_of_the_user(lines) > turns ==> turns_of_the_user(lines.skip(start)) == turns
                && lines[start].role == TurnRole::User
            &&& items.len() >= kept
            &&& forall|k: int|
                0 <= k < kept ==> is_kept_as(
                    lines[start + k],
                    #[trigger] items[items.len() - kept + k],
                )
            &&& start == 0 ==> items.len() == lines.len()
        }),
{
    let n = lines.len() as int;
    let users = user_positions(lines, n);
    lemma_turns_counted(lines, n);
    assert(lines.take(n) =~= lines);
    let start = full_start(lines, turns);
    if users.len() > turns {
        lemma_turns_from(lines, n, users.len() - turns);
        assert(lines.subrange(start, n) =~= lines.skip(start));
    }
    let full = lines.skip(start).map_values(|l: TurnLineView| full_item(l));
    let items = banded(lines, turns).items;
    let kept = n - start;
    assert forall|k: int| 0 <= k < kept implies is_kept_as(
        lines[start + k],
        #[trigger] items[items.len() - kept + k],
    ) by {
        assert(items[items.len() - kept + k] == full[k]);
        let line = lines[start + k];
        assert(full[k] == full_item(line));
        if line.text.len() > 400 {
            assert(truncated(line.text, 400) =~= line.text.take(400) + "…"@);
        }
    }
}

/// A note of the host that sums up some lines.
pub open spec fn sums_up(
    item: ResponseItemView,
    band: Seq<char>,
    lines: Seq<TurnLineView>,
) -> bool {
    item == (ResponseItemView::Message {
        id: None,
        role: "developer"@,
        content: seq![ContentItemView::InputText { text: band_summary(band, lines) }],
        phase: None,
        internal_chat_message_metadata_passthrough: None,
    })
}

/// What is older is summed up in notes, none of its lines left out: the first
/// third in brief, the second in detail and the last in one more, and none for a
/// third without lines.
pub proof fn older_lines_are_summed_up(lines: Seq<TurnLineView>, n: int)
    requires
        0 < n <= lines.len(),
    ensures
        ({
            let notes = head_items(lines, n);
            let b = if n < 3 {
                1
            } else {
                n / 3
            };
            let d = if 2 * n / 3 < b {
                b
            } else {
                2 * n / 3
            };
            &&& notes.len() == 1 + (if d > b {
                1int
            } else {
                0
            }) + (if n > d {
                1int
            } else {
                0
            })
            &&& sums_up(notes[0], "brief"@, lines.subrange(0, b))
            &&& d > b ==> sums_up(notes[1], "detailed"@, lines.subrange(b, d))
            &&& n > d ==> sums_up(notes.last(), "smooth"@, lines.subrange(d, n))
        }),
{
}

/// A summary names its band and spells out its first lines, each with its kind and
/// the beginning of what it says; of more it tells the number.
pub proof fn summaries_spell_out_their_lines(band: Seq<char>, lines: Seq<TurnLineView>)
    ensures
        ({
            let told = if lines.len() <= 8 {
                lines.len() as int
            } else {
                8
            };
            let spelled = lines.take(told).map_values(
                |l: TurnLineView|
                    "- ("@ + event_kind_word(l.kind) + ") "@ + truncated(trimmed(l.text), 120),
            );
            let parts = if lines.len() <= 8 {
                spelled
            } else {
                spelled.push("- … "@ + decimal((lines.len() - 8) as nat) + " more lines"@)
            };
            band_summary(band, lines) == "[lhc-band:"@ + band + "] "@ + crate::text::joined(
                parts,
                " "@,
            )
        }),
{
    let f = |l: TurnLineView|
        "- ("@ + event_kind_word(l.kind) + ") "@ + truncated(trimmed(l.text), 120);
    let g = |l: TurnLineView| summary_line(l);
    if lines.len() <= 8 {
        assert(lines.take(lines.len() as int) =~= lines);
        assert(lines.map_values(g) =~= lines.map_values(f));
    } else {
        assert(lines.take(8).map_values(g) =~= lines.take(8).map_values(f));
    }
}

/// A text that is cut is cut behind so many characters, and says so.
pub proof fn cut_texts_say_so(s: Seq<char>, max: int)
    requires
        0 <= max,
    ensures
        s.len() <= max ==> truncated(s, max) == s,
        s.len() > max ==> truncated(s, max).take(max) == s.take(max) && truncated(s, max).skip(max)
            == "…"@,
{
    if s.len() > max {
        assert(truncated(s, max).take(max) =~= s.take(max));
        assert(truncated(s, max).skip(max) =~= "…"@);
    }
}

// ---------------------------------------------------------------------------
// Reports
// ---------------------------------------------------------------------------

/// A report tells of every item of a history, in their order: its speaker, its
/// band and how long it is.
pub proof fn reports_tell_of_every_item(
    items: Seq<ResponseItemView>,
    events: usize,
    turns: usize,
    notes: Seq<Seq<char>>,
    k: int,
    role: Seq<char>,
    text: Seq<char>,
)
    requires
        0 <= k < items.len(),
        items[k] == (ResponseItemView::Message {
            id: None,
            role,
            content: seq![ContentItemView::InputText { text }],
            phase: None,
            internal_chat_message_metadata_passthrough: None,
        }),
    ensures
        ({
            let r = report_on(items, events, turns, notes);
            &&& r.source_event_count == events
            &&& r.full_band_user_turns == turns
            &&& r.notes == notes
            &&& r.items.len() == items.len()
            &&& r.items[k].role == role
            &&& r.items[k].band == band_of(text)
            &&& r.items[k].text_preview == truncated(text, 160)
            &&& text.len() <= usize::MAX ==> r.items[k].char_len == text.len()
        }),
{
    reveal_with_fuel(message_texts, 2);
    reveal_with_fuel(crate::text::joined, 2);
    let content = seq![ContentItemView::InputText { text }];
    assert(content.drop_last().len() == 0);
    let texts = message_texts(content);
    assert(texts =~= seq![text]);
    let short = texts.map_values(|t: Seq<char>| truncated(t, 160));
    assert(short =~= seq![truncated(text, 160)]);
}

/// The band of a text is what its mark names; a text without a mark is in the full
/// band.
pub proof fn bands_are_told_by_their_mark(band: Seq<char>, rest: Seq<char>, other: Seq<char>)
    requires
        !band.contains(']'),
        !crate::text::begins_with(other, "[lhc-band:"@),
    ensures
        band_of("[lhc-band:"@ + band + "]"@ + rest) == band,
        band_of(other) == "full"@,
{
    reveal_strlit("]");
    let s = band + seq![']'] + rest;
    assert("]"@ =~= seq![']']);
    assert("[lhc-band:"@ + band + "]"@ + rest =~= "[lhc-band:"@ + s);
    crate::idempotency::lemma_after_prefix("[lhc-band:"@, s);
    assert forall|j: int| 0 <= j < band.len() implies s[j] != ']' by {
        assert(s[j] == band[j]);
        assert(band.contains(band[j]));
    }
    assert(s[band.len() as int] == ']');
    crate::text::lemma_first_from_unique(s, ']', 0, band.len() as int);
    assert(s.subrange(0, band.len() as int) =~= band);
}

/// The history of some events is that of their lines.
pub proof fn histories_are_of_their_lines(events: Seq<EventRecordView>, turns: usize)
    ensures
        lines_of(events, events.len() as int).len() > 0 ==> banded_history(events, turns).0
            == banded(lines_of(events, events.len() as int), turns as int).items,
{
}

} // verus!
