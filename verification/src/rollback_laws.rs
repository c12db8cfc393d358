//! What rollbacks mean: which turns of the user a rollout has, which of them a
//! rollback takes away, and which turns of the store those are.

use vstd::prelude::*;

use crate::ordering::{every_row_is_ordered, stable_order, stable_order_is_sorted};
use crate::protocol::{ContentItemView, ResponseItemView};
use crate::records::{MessageKind, MessageRecordView, TurnRecordView};
use crate::rollback::{
    after_boundary, content_text_of, dropped_turns, exclusion_of, first_mismatch, first_prompts,
    has_turn, prompt_keys, prompt_row, prompt_rows, prompt_turns, scan_back, scan_step,
    segment_closed, text_of_message, turn_of, user_segments, PriorUserSegmentView, PromptRowView,
    SegmentScan,
};
use crate::rollout::{EventMsgView, RolloutItemView};

verus! {

// ---------------------------------------------------------------------------
// Walking
// ---------------------------------------------------------------------------

/// The walk through the lines back to line `i`, from where `s` stands.
spec fn scan_from(lines: Seq<RolloutItemView>, i: int, s: SegmentScan) -> SegmentScan
    decreases lines.len() - i,
{
    if i >= lines.len() {
        s
    } else {
        scan_step(scan_from(lines, i + 1, s), lines[i])
    }
}

proof fn lemma_scan_shift(a: Seq<RolloutItemView>, b: Seq<RolloutItemView>, j: int)
    requires
        0 <= j <= b.len(),
    ensures
        scan_back(a + b, a.len() + j) == scan_back(b, j),
    decreases b.len() - j,
{
    if j < b.len() {
        lemma_scan_shift(a, b, j + 1);
        assert((a + b)[a.len() + j] == b[j]);
    }
}

proof fn lemma_scan_concat(a: Seq<RolloutItemView>, b: Seq<RolloutItemView>, i: int)
    requires
        0 <= i <= a.len(),
    ensures
        scan_back(a + b, i) == scan_from(a, i, scan_back(b, 0)),
    decreases a.len() - i,
{
    if i < a.len() {
        lemma_scan_concat(a, b, i + 1);
        assert((a + b)[i] == a[i]);
    } else {
        lemma_scan_shift(a, b, 0);
    }
}

proof fn lemma_scan_alone(a: Seq<RolloutItemView>, i: int)
    requires
        0 <= i <= a.len(),
    ensures
        scan_back(a, i) == scan_from(
            a,
            i,
            SegmentScan { pending: 0, text: None, is_user: false, found: Seq::empty() },
        ),
    decreases a.len() - i,
{
    if i < a.len() {
        lemma_scan_alone(a, i + 1);
    }
}

/// What was found before stays where it is.
proof fn lemma_found_before(
    a: Seq<RolloutItemView>,
    i: int,
    s: SegmentScan,
    before: Seq<PriorUserSegmentView>,
)
    requires
        0 <= i <= a.len(),
    ensures
        scan_from(a, i, SegmentScan { found: before + s.found, ..s }) == (SegmentScan {
            found: before + scan_from(a, i, s).found,
            ..scan_from(a, i, s)
        }),
        segment_closed(scan_from(a, i, SegmentScan { found: before + s.found, ..s })).found
            == before + segment_closed(scan_from(a, i, s)).found,
    decreases a.len() - i,
{
    if i < a.len() {
        lemma_found_before(a, i + 1, s, before);
    }
    let t = scan_from(a, i, s);
    if t.is_user {
        let segment = segment_closed(t).found.last();
        assert(before + t.found.push(segment) =~= (before + t.found).push(segment));
    }
    if i < a.len() {
        let t = scan_from(a, i + 1, s);
        if t.is_user {
            let segment = segment_closed(t).found.last();
            assert(before + t.found.push(segment) =~= (before + t.found).push(segment));
        }
    }
}

/// Lines behind which a session cannot be resumed move no boundary.
proof fn lemma_boundary_stays(a: Seq<RolloutItemView>, b: Seq<RolloutItemView>, n: int)
    requires
        0 <= n <= b.len(),
        forall|i: int|
            0 <= i < b.len() ==> !(#[trigger] b[i] matches RolloutItemView::Compacted(c)
                && c.replacement_history is Some),
    ensures
        after_boundary(a + b, a.len() + n) == after_boundary(a, a.len() as int),
        0 <= after_boundary(a, a.len() as int) <= a.len(),
    decreases n,
{
    if n > 0 {
        lemma_boundary_stays(a, b, n - 1);
        assert((a + b)[a.len() + n - 1] == b[n - 1]);
    } else {
        lemma_same_boundary(a, b, a.len() as int);
    }
}

proof fn lemma_same_boundary(a: Seq<RolloutItemView>, b: Seq<RolloutItemView>, n: int)
    requires
        0 <= n <= a.len(),
    ensures
        after_boundary(a + b, n) == after_boundary(a, n),
        0 <= after_boundary(a, n) <= n,
    decreases n,
{
    if n > 0 {
        assert((a + b)[n - 1] == a[n - 1]);
        lemma_same_boundary(a, b, n - 1);
    }
}

// ---------------------------------------------------------------------------
// Turns of the user
// ---------------------------------------------------------------------------

/// A line that neither starts a turn, nor rolls any back, nor is a boundary.
pub open spec fn goes_on(line: RolloutItemView) -> bool {
    match line {
        RolloutItemView::EventMsg(EventMsgView::TurnStarted { .. }) => false,
        RolloutItemView::EventMsg(EventMsgView::ThreadRolledBack { .. }) => false,
        RolloutItemView::Compacted(c) => c.replacement_history is None,
        _ => true,
    }
}

/// A line by which the user says `said`.
pub open spec fn user_says(line: RolloutItemView, said: Seq<char>) -> bool {
    match line {
        RolloutItemView::EventMsg(EventMsgView::UserMessage { message }) => message == said,
        RolloutItemView::ResponseItem(ResponseItemView::Message { role, content, .. }) => {
            &&& role == "user"@
            &&& said.len() > 0
            &&& (content == seq![ContentItemView::InputText { text: said }] || content == seq![
                ContentItemView::OutputText { text: said },
            ])
        },
        _ => false,
    }
}

/// A line that is no user's.
pub open spec fn is_not_the_users(line: RolloutItemView) -> bool {
    match line {
        RolloutItemView::EventMsg(EventMsgView::UserMessage { .. }) => false,
        RolloutItemView::ResponseItem(ResponseItemView::Message { role, .. }) => role != "user"@,
        _ => true,
    }
}

proof fn lemma_walk_within(lines: Seq<RolloutItemView>, i: int, s: SegmentScan)
    requires
        0 <= i <= lines.len(),
        forall|k: int| i <= k < lines.len() ==> goes_on(#[trigger] lines[k]),
    ensures
        scan_from(lines, i, s).pending == s.pending,
        scan_from(lines, i, s).found == s.found,
        (forall|k: int| i <= k < lines.len() ==> is_not_the_users(#[trigger] lines[k]))
            ==> scan_from(lines, i, s) == s,
    decreases lines.len() - i,
{
    if i < lines.len() {
        lemma_walk_within(lines, i + 1, s);
        assert(goes_on(lines[i]));
        if forall|k: int| i <= k < lines.len() ==> is_not_the_users(#[trigger] lines[k]) {
            assert(is_not_the_users(lines[i]));
        }
    }
}

proof fn lemma_single_text(c: ContentItemView, said: Seq<char>)
    requires
        c == (ContentItemView::InputText { text: said }) || c == (ContentItemView::OutputText {
            text: said,
        }),
    ensures
        content_text_of(seq![c]) == said,
{
    reveal_with_fuel(crate::text::joined, 2);
}

/// A turn in which the user speaks is one more segment, behind those there were,
/// with what the user said first in it. It is not dropped: a rollback takes away
/// only what stands before it.
pub proof fn spoken_turn_is_a_segment(
    prior: Seq<RolloutItemView>,
    turn_id: Seq<char>,
    started_at: Option<i64>,
    unsaid: Seq<RolloutItemView>,
    line: RolloutItemView,
    said: Seq<char>,
    more: Seq<RolloutItemView>,
)
    requires
        user_says(line, said),
        forall|i: int|
            0 <= i < unsaid.len() ==> goes_on(#[trigger] unsaid[i]) && is_not_the_users(unsaid[i]),
        forall|i: int| 0 <= i < more.len() ==> goes_on(#[trigger] more[i]),
    ensures
        user_segments(
            prior + (seq![
                RolloutItemView::EventMsg(EventMsgView::TurnStarted { turn_id, started_at }),
            ] + unsaid + seq![line] + more),
        ) == user_segments(prior).push(PriorUserSegmentView { text: said, dropped: false }),
{
    let start = RolloutItemView::EventMsg(EventMsgView::TurnStarted { turn_id, started_at });
    let turn = seq![start] + unsaid + seq![line] + more;
    let all = prior + turn;
    assert forall|i: int| 0 <= i < turn.len() implies !(
    #[trigger] turn[i] matches RolloutItemView::Compacted(c) && c.replacement_history is Some) by {
        if i == 0 {
        } else if i <= unsaid.len() {
            assert(turn[i] == unsaid[i - 1]);
        } else if i == unsaid.len() + 1 {
            assert(turn[i] == line);
        } else {
            assert(turn[i] == more[i - 2 - unsaid.len()]);
        }
    }
    lemma_boundary_stays(prior, turn, turn.len() as int);
    let at = after_boundary(prior, prior.len() as int);
    lemma_scan_concat(prior, turn, at);
    // The turn by itself.
    let none = SegmentScan { pending: 0, text: None, is_user: false, found: Seq::empty() };
    let opened = seq![start] + unsaid + seq![line];
    assert(turn =~= opened + more);
    lemma_scan_concat(opened, more, 0);
    lemma_scan_alone(more, 0);
    lemma_walk_within(more, 0, none);
    let s = scan_back(more, 0);
    let n = opened.len() as int;
    assert(opened[n - 1] == line);
    if let RolloutItemView::ResponseItem(ResponseItemView::Message { content, .. }) = line {
        if content == seq![ContentItemView::InputText { text: said }] {
            lemma_single_text(ContentItemView::InputText { text: said }, said);
        } else {
            lemma_single_text(ContentItemView::OutputText { text: said }, said);
        }
    }
    let t = scan_from(opened, n - 1, s);
    assert(scan_from(opened, n, s) == s);
    assert(t == SegmentScan { is_user: true, text: Some(said), ..s });
    lemma_walk_down(opened, unsaid, n - 1, s, t);
    assert(scan_from(opened, 1, s) == t);
    assert(opened[0] == start);
    let over = scan_back(turn, 0);
    let segment = PriorUserSegmentView { text: said, dropped: false };
    assert(over == segment_closed(t));
    assert(over.found =~= seq![segment]);
    assert(over == SegmentScan { found: seq![segment] + none.found, ..none }) by {
        assert(seq![segment] + none.found =~= seq![segment]);
    }
    lemma_found_before(prior, at, none, seq![segment]);
    lemma_scan_alone(prior, at);
    let found = segment_closed(scan_back(prior, at)).found;
    assert((seq![segment] + found).reverse() =~= found.reverse().push(segment));
}

proof fn lemma_walk_down(
    opened: Seq<RolloutItemView>,
    unsaid: Seq<RolloutItemView>,
    i: int,
    s: SegmentScan,
    t: SegmentScan,
)
    requires
        1 <= i <= unsaid.len() + 1,
        opened.len() == unsaid.len() + 2,
        forall|k: int| 1 <= k <= unsaid.len() ==> #[trigger] opened[k] == unsaid[k - 1],
        forall|k: int|
            0 <= k < unsaid.len() ==> goes_on(#[trigger] unsaid[k]) && is_not_the_users(unsaid[k]),
        scan_from(opened, i, s) == t,
    ensures
        scan_from(opened, 1, s) == t,
    decreases i,
{
    if i > 1 {
        assert(opened[i - 1] == unsaid[i - 2]);
        assert(goes_on(unsaid[i - 2]) && is_not_the_users(unsaid[i - 2]));
        assert(scan_from(opened, i - 1, s) == t);
        lemma_walk_down(opened, unsaid, i - 1, s, t);
    }
}

/// Lines that are none of the user's and no mark of a turn change nothing.
pub proof fn other_lines_are_no_segment(prior: Seq<RolloutItemView>, more: Seq<RolloutItemView>)
    requires
        forall|i: int|
            0 <= i < more.len() ==> goes_on(#[trigger] more[i]) && is_not_the_users(more[i]),
    ensures
        user_segments(prior + more) == user_segments(prior),
{
    assert forall|i: int| 0 <= i < more.len() implies !(
    #[trigger] more[i] matches RolloutItemView::Compacted(c) && c.replacement_history is Some) by {
        assert(goes_on(more[i]));
    }
    lemma_boundary_stays(prior, more, more.len() as int);
    let at = after_boundary(prior, prior.len() as int);
    lemma_scan_concat(prior, more, at);
    let none = SegmentScan { pending: 0, text: None, is_user: false, found: Seq::empty() };
    lemma_scan_alone(more, 0);
    lemma_walk_within(more, 0, none);
    lemma_scan_alone(prior, at);
}

/// What stands before a boundary from which a session can be resumed is over:
/// none of it is a segment, whether or not it was rolled back later.
pub proof fn boundary_ends_what_was_before(
    before: Seq<RolloutItemView>,
    boundary: RolloutItemView,
    after: Seq<RolloutItemView>,
)
    requires
        boundary matches RolloutItemView::Compacted(c) && c.replacement_history is Some,
        forall|i: int|
            0 <= i < after.len() ==> !(#[trigger] after[i] matches RolloutItemView::Compacted(c)
                && c.replacement_history is Some),
    ensures
        user_segments(before + seq![boundary] + after) == user_segments(after),
{
    let a = before + seq![boundary];
    lemma_boundary_stays(a, after, after.len() as int);
    assert(a[a.len() - 1] == boundary);
    assert(after_boundary(a, a.len() as int) == a.len());
    lemma_scan_shift(a, after, 0);
    assert(Seq::<RolloutItemView>::empty() + after =~= after);
    lemma_boundary_stays(Seq::empty(), after, after.len() as int);
}

// ---------------------------------------------------------------------------
// Rollbacks
// ---------------------------------------------------------------------------

/// The line is a rollback.
pub open spec fn is_rollback(line: RolloutItemView) -> bool {
    line matches RolloutItemView::EventMsg(e) && e is ThreadRolledBack
}

/// A walk that has `n` turns to drop goes as one that has none.
proof fn lemma_pending(a: Seq<RolloutItemView>, i: int, n: nat)
    requires
        0 <= i <= a.len(),
        forall|k: int| 0 <= k < a.len() ==> !is_rollback(#[trigger] a[k]),
    ensures
        ({
            let none = SegmentScan { pending: 0, text: None, is_user: false, found: Seq::empty() };
            let s = scan_from(a, i, none);
            let t = scan_from(a, i, SegmentScan { pending: n, ..none });
            drops_the_newest(s, t, n)
        }),
    decreases a.len() - i,
{
    if i < a.len() {
        lemma_pending(a, i + 1, n);
        assert(!is_rollback(a[i]));
        let none = SegmentScan { pending: 0, text: None, is_user: false, found: Seq::empty() };
        lemma_closing_drops(
            scan_from(a, i + 1, none),
            scan_from(a, i + 1, SegmentScan { pending: n, ..none }),
            n,
        );
    }
}

spec fn drops_the_newest(s: SegmentScan, t: SegmentScan, n: nat) -> bool {
    &&& s.pending == 0
    &&& n > s.found.len() ==> t.pending == n - s.found.len()
    &&& n <= s.found.len() ==> t.pending == 0
    &&& t.text == s.text
    &&& t.is_user == s.is_user
    &&& t.found.len() == s.found.len()
    &&& forall|k: int| 0 <= k < s.found.len() ==> #[trigger] dropped_at(s.found, t.found, n, k)
}

spec fn dropped_at(
    kept: Seq<PriorUserSegmentView>,
    found: Seq<PriorUserSegmentView>,
    n: nat,
    k: int,
) -> bool {
    &&& found[k].text == kept[k].text
    &&& !kept[k].dropped
    &&& found[k].dropped <==> k < n
}

proof fn lemma_closing_drops(s: SegmentScan, t: SegmentScan, n: nat)
    requires
        drops_the_newest(s, t, n),
    ensures
        drops_the_newest(segment_closed(s), segment_closed(t), n),
{
    let a = segment_closed(s);
    let b = segment_closed(t);
    assert forall|k: int| 0 <= k < a.found.len() implies #[trigger] dropped_at(
        a.found,
        b.found,
        n,
        k,
    ) by {
        if k < s.found.len() {
            assert(dropped_at(s.found, t.found, n, k));
            assert(b.found[k] == t.found[k]);
            assert(a.found[k] == s.found[k]);
        }
    }
}

/// A rollback of `n` turns drops exactly the last `n` turns of the user that stand
/// before it (all, where there are fewer), and changes nothing else about them.
/// Without a rollback none is dropped.
pub proof fn rollback_drops_the_last_turns(prior: Seq<RolloutItemView>, n: u32)
    requires
        forall|k: int| 0 <= k < prior.len() ==> !is_rollback(#[trigger] prior[k]),
    ensures
        ({
            let before = user_segments(prior);
            let after = user_segments(
                prior.push(RolloutItemView::EventMsg(EventMsgView::ThreadRolledBack { num_turns: n })),
            );
            &&& after.len() == before.len()
            &&& forall|k: int| 0 <= k < before.len() ==> !(#[trigger] before[k]).dropped
            &&& forall|k: int|
                0 <= k < before.len() ==> #[trigger] after[k] == (PriorUserSegmentView {
                    text: before[k].text,
                    dropped: k + n >= before.len(),
                })
        }),
{
    let line = RolloutItemView::EventMsg(EventMsgView::ThreadRolledBack { num_turns: n });
    let at = after_boundary(prior, prior.len() as int);
    assert(prior.push(line) =~= prior + seq![line]);
    lemma_boundary_stays(prior, seq![line], 1);
    lemma_scan_concat(prior, seq![line], at);
    lemma_scan_alone(prior, at);
    let none = SegmentScan { pending: 0, text: None, is_user: false, found: Seq::empty() };
    assert(scan_back(seq![line], 1) == none);
    assert(seq![line][0] == line);
    assert(scan_back(seq![line], 0) == SegmentScan { pending: n as nat, ..none });
    lemma_pending(prior, at, n as nat);
    let s = scan_from(prior, at, none);
    let t = scan_from(prior, at, SegmentScan { pending: n as nat, ..none });
    lemma_closing_drops(s, t, n as nat);
    let a = segment_closed(s).found;
    let b = segment_closed(t).found;
    let before = user_segments(prior);
    let after = user_segments(prior.push(line));
    assert(before == a.reverse() && after == b.reverse());
    assert forall|k: int| 0 <= k < before.len() implies !(#[trigger] before[k]).dropped by {
        assert(dropped_at(a, b, n as nat, a.len() - 1 - k));
    }
    assert forall|k: int| 0 <= k < before.len() implies #[trigger] after[k] == (
    PriorUserSegmentView { text: before[k].text, dropped: k + n >= before.len() }) by {
        assert(dropped_at(a, b, n as nat, a.len() - 1 - k));
        assert(after[k] == b[b.len() - 1 - k]);
        assert(before[k] == a[a.len() - 1 - k]);
    }
}

/// Two rollbacks in a row take away as much as one of both.
pub proof fn rollbacks_add_up(prior: Seq<RolloutItemView>, a: u32, b: u32, both: u32)
    requires
        a + b == both,
    ensures
        user_segments(
            prior + seq![
                RolloutItemView::EventMsg(EventMsgView::ThreadRolledBack { num_turns: a }),
                RolloutItemView::EventMsg(EventMsgView::ThreadRolledBack { num_turns: b }),
            ],
        ) == user_segments(
            prior + seq![
                RolloutItemView::EventMsg(EventMsgView::ThreadRolledBack { num_turns: both }),
            ],
        ),
{
    let la = RolloutItemView::EventMsg(EventMsgView::ThreadRolledBack { num_turns: a });
    let lb = RolloutItemView::EventMsg(EventMsgView::ThreadRolledBack { num_turns: b });
    let l = RolloutItemView::EventMsg(EventMsgView::ThreadRolledBack { num_turns: both });
    let two = seq![la, lb];
    let one = seq![l];
    let at = after_boundary(prior, prior.len() as int);
    lemma_boundary_stays(prior, two, 2);
    lemma_boundary_stays(prior, one, 1);
    lemma_scan_concat(prior, two, at);
    lemma_scan_concat(prior, one, at);
    assert(two[0] == la && two[1] == lb && one[0] == l);
    assert(scan_back(two, 2).pending == 0);
    assert(scan_back(one, 1) == scan_back(two, 2));
    assert(scan_back(two, 1) == scan_step(scan_back(two, 2), lb));
    assert(scan_back(two, 0) == scan_step(scan_back(two, 1), la));
    assert(scan_back(one, 0) == scan_step(scan_back(one, 1), l));
}

// ---------------------------------------------------------------------------
// Turns of the store
// ---------------------------------------------------------------------------

/// The turns of the store that the dropped segments stand for, where the segments
/// are laid against the last rows.
pub open spec fn turns_behind_dropped(
    segments: Seq<PriorUserSegmentView>,
    rows: Seq<PromptRowView>,
) -> Seq<Seq<char>> {
    Seq::new(
        segments.len(),
        |i: int| (segments[i].dropped, rows[rows.len() - segments.len() + i].turn_id),
    ).filter(|p: (bool, Seq<char>)| p.0).map_values(|p: (bool, Seq<char>)| p.1)
}

proof fn lemma_dropped_turns(
    segments: Seq<PriorUserSegmentView>,
    rows: Seq<PromptRowView>,
    n: int,
)
    requires
        0 <= n <= segments.len() <= rows.len(),
    ensures
        dropped_turns(segments, rows, n) == Seq::new(
            segments.len(),
            |i: int| (segments[i].dropped, rows[rows.len() - segments.len() + i].turn_id),
        ).take(n).filter(|p: (bool, Seq<char>)| p.0).map_values(|p: (bool, Seq<char>)| p.1),
    decreases n,
{
    let all = Seq::new(
        segments.len(),
        |i: int| (segments[i].dropped, rows[rows.len() - segments.len() + i].turn_id),
    );
    let keep = |p: (bool, Seq<char>)| p.0;
    let id = |p: (bool, Seq<char>)| p.1;
    reveal(Seq::filter);
    if n == 0 {
        assert(all.take(0) =~= Seq::empty());
        assert(all.take(0).filter(keep).map_values(id) =~= Seq::<Seq<char>>::empty());
    } else {
        lemma_dropped_turns(segments, rows, n - 1);
        assert(all.take(n).drop_last() =~= all.take(n - 1));
        assert(all.take(n).last() == all[n - 1]);
        let before = all.take(n - 1).filter(keep);
        assert(before.push(all[n - 1]).map_values(id) =~= before.map_values(id).push(all[n - 1].1));
    }
}

proof fn lemma_all_agree(
    segments: Seq<PriorUserSegmentView>,
    rows: Seq<PromptRowView>,
    i: int,
)
    requires
        0 <= i <= segments.len(),
    ensures
        i <= first_mismatch(segments, rows, i) <= segments.len(),
        first_mismatch(segments, rows, i) == segments.len() <==> forall|k: int|
            i <= k < segments.len() ==> (#[trigger] segments[k]).text == rows[rows.len()
                - segments.len() + k].text,
    decreases segments.len() - i,
{
    if i < segments.len() {
        lemma_all_agree(segments, rows, i + 1);
        assert(segments[i] == segments[i]);
    }
}

/// Where the segments agree with the last rows of the store, text for text, the
/// turns that the dropped ones stand for are excluded: all of them, in order and
/// nothing else, and nothing is to be said.
pub proof fn aligned_rollback_excludes_what_was_dropped(
    segments: Seq<PriorUserSegmentView>,
    rows: Seq<PromptRowView>,
)
    requires
        segments.len() <= rows.len(),
        forall|i: int|
            0 <= i < segments.len() ==> (#[trigger] segments[i]).text == rows[rows.len()
                - segments.len() + i].text,
    ensures
        exclusion_of(segments, rows).turns == turns_behind_dropped(segments, rows),
        exclusion_of(segments, rows).notes == Seq::<Seq<char>>::empty(),
{
    let n = segments.len() as int;
    lemma_all_agree(segments, rows, 0);
    lemma_dropped_turns(segments, rows, n);
    let all = Seq::new(
        segments.len(),
        |i: int| (segments[i].dropped, rows[rows.len() - segments.len() + i].turn_id),
    );
    assert(all.take(n) =~= all);
    if !(exists|k: int| 0 <= k < segments.len() && (#[trigger] segments[k]).dropped) {
        lemma_none_dropped(segments, rows, n);
    }
}

proof fn lemma_none_dropped(
    segments: Seq<PriorUserSegmentView>,
    rows: Seq<PromptRowView>,
    n: int,
)
    requires
        0 <= n <= segments.len(),
        forall|k: int| 0 <= k < segments.len() ==> !(#[trigger] segments[k]).dropped,
    ensures
        dropped_turns(segments, rows, n) == Seq::<Seq<char>>::empty(),
    decreases n,
{
    if n > 0 {
        assert(!segments[n - 1].dropped);
        lemma_none_dropped(segments, rows, n - 1);
    }
}

/// Where something was dropped and the segments do not agree with the last rows of
/// the store, nothing is excluded, and exactly one thing is said. Where nothing was
/// dropped, nothing is said either.
pub proof fn doubtful_rollback_is_told(
    segments: Seq<PriorUserSegmentView>,
    rows: Seq<PromptRowView>,
)
    requires
        rows.len() < segments.len() || exists|i: int|
            0 <= i < segments.len() && (#[trigger] segments[i]).text != rows[rows.len()
                - segments.len() + i].text,
    ensures
        exclusion_of(segments, rows).turns == Seq::<Seq<char>>::empty(),
        (exists|k: int| 0 <= k < segments.len() && (#[trigger] segments[k]).dropped)
            ==> exclusion_of(segments, rows).notes.len() == 1,
        (forall|k: int| 0 <= k < segments.len() ==> !(#[trigger] segments[k]).dropped)
            ==> exclusion_of(segments, rows).notes.len() == 0,
{
    lemma_all_agree(segments, rows, 0);
    if exists|k: int| 0 <= k < segments.len() && (#[trigger] segments[k]).dropped {
        let k = choose|k: int| 0 <= k < segments.len() && (#[trigger] segments[k]).dropped;
        assert(segments[k].dropped);
    }
}

/// The row is of message `m`: a prompt of the user, with its text, its turn and
/// where it stands. A turn that the store does not know comes last.
pub open spec fn is_row_of(
    row: PromptRowView,
    m: MessageRecordView,
    turns: Seq<TurnRecordView>,
) -> bool {
    &&& m.kind == MessageKind::UserPrompt
    &&& row.turn_id == m.turn_id
    &&& row.event_order == m.source_event_order
    &&& row.text == text_of_message(m)
    &&& (forall|t: int| 0 <= t < turns.len() ==> (#[trigger] turns[t]).turn_id != m.turn_id)
        ==> row.turn_order == i64::MAX
    &&& (exists|t: int| 0 <= t < turns.len() && (#[trigger] turns[t]).turn_id == m.turn_id)
        ==> exists|t: int|
        0 <= t < turns.len() && (#[trigger] turns[t]).turn_id == m.turn_id && row.turn_order
            == turns[t].turn_order
}

/// The first row stands before the second, or at the same place.
pub open spec fn not_behind(a: PromptRowView, b: PromptRowView) -> bool {
    a.turn_order < b.turn_order || (a.turn_order == b.turn_order && a.event_order <= b.event_order)
}

proof fn lemma_row_of(m: MessageRecordView, turns: Seq<TurnRecordView>)
    requires
        m.kind == MessageKind::UserPrompt,
    ensures
        is_row_of(prompt_row(m, turns), m, turns),
{
    crate::rollback::lemma_turn_of(turns, m.turn_id);
    lemma_turn_known(turns, m.turn_id);
    if let Some(t) = turn_of(turns, m.turn_id) {
        let k = choose|k: int| 0 <= k < turns.len() && turns[k] == t;
        assert(turns[k].turn_id == m.turn_id);
    }
}

proof fn lemma_turn_known(turns: Seq<TurnRecordView>, id: Seq<char>)
    ensures
        turn_of(turns, id) is None ==> forall|t: int|
            0 <= t < turns.len() ==> (#[trigger] turns[t]).turn_id != id,
    decreases turns.len(),
{
    if turns.len() > 0 && turns.last().turn_id != id {
        lemma_turn_known(turns.drop_last(), id);
        if turn_of(turns, id) is None {
            assert forall|t: int| 0 <= t < turns.len() implies (#[trigger] turns[t]).turn_id
                != id by {
                if t < turns.len() - 1 {
                    assert(turns.drop_last()[t] == turns[t]);
                }
            }
        }
    }
}

proof fn lemma_row_source(
    messages: Seq<MessageRecordView>,
    turns: Seq<TurnRecordView>,
    k: int,
) -> (i: int)
    requires
        0 <= k < prompt_rows(messages, turns).len(),
    ensures
        0 <= i < messages.len(),
        is_row_of(prompt_rows(messages, turns)[k], messages[i], turns),
    decreases messages.len(),
{
    if messages.last().kind == MessageKind::UserPrompt && k == prompt_rows(messages, turns).len()
        - 1 {
        lemma_row_of(messages.last(), turns);
        messages.len() - 1
    } else {
        lemma_row_source(messages.drop_last(), turns, k)
    }
}

proof fn lemma_row_listed(
    messages: Seq<MessageRecordView>,
    turns: Seq<TurnRecordView>,
    i: int,
) -> (k: int)
    requires
        0 <= i < messages.len(),
        messages[i].kind == MessageKind::UserPrompt,
    ensures
        0 <= k < prompt_rows(messages, turns).len(),
        prompt_rows(messages, turns)[k] == prompt_row(messages[i], turns),
    decreases messages.len(),
{
    if i == messages.len() - 1 {
        prompt_rows(messages, turns).len() - 1
    } else {
        lemma_row_listed(messages.drop_last(), turns, i)
    }
}

proof fn lemma_prompt_source(rows: Seq<PromptRowView>, order: Seq<int>, n: int, k: int) -> (p: int)
    requires
        0 <= k < first_prompts(rows, order, n).len(),
    ensures
        0 <= p < n,
        first_prompts(rows, order, n)[k] == rows[order[p]],
    decreases n,
{
    let before = first_prompts(rows, order, n - 1);
    if k < before.len() {
        lemma_prompt_source(rows, order, n - 1, k)
    } else {
        n - 1
    }
}

/// The rows are listed in their order.
spec fn lists_in_order(rows: Seq<PromptRowView>, order: Seq<int>) -> bool {
    forall|p: int, q: int|
        0 <= p < q < order.len() ==> not_behind(rows[#[trigger] order[p]], rows[#[trigger] order[q]])
}

proof fn lemma_prompts_in_order(
    rows: Seq<PromptRowView>,
    order: Seq<int>,
    n: int,
    j: int,
    k: int,
)
    requires
        lists_in_order(rows, order),
        n <= order.len(),
        0 <= j < k < first_prompts(rows, order, n).len(),
    ensures
        not_behind(first_prompts(rows, order, n)[j], first_prompts(rows, order, n)[k]),
    decreases n,
{
    let before = first_prompts(rows, order, n - 1);
    if k < before.len() {
        lemma_prompts_in_order(rows, order, n - 1, j, k);
    } else {
        let p = lemma_prompt_source(rows, order, n - 1, j);
        assert(not_behind(rows[order[p]], rows[order[n - 1]]));
    }
}

proof fn lemma_prompt_listed(rows: Seq<PromptRowView>, order: Seq<int>, n: int, p: int) -> (k: int)
    requires
        lists_in_order(rows, order),
        0 <= p < n <= order.len(),
    ensures
        0 <= k < first_prompts(rows, order, n).len(),
        first_prompts(rows, order, n)[k].turn_id == rows[order[p]].turn_id,
        not_behind(first_prompts(rows, order, n)[k], rows[order[p]]),
    decreases n,
{
    let before = first_prompts(rows, order, n - 1);
    let row = rows[order[n - 1]];
    if p < n - 1 {
        lemma_prompt_listed(rows, order, n - 1, p)
    } else if has_turn(before, row.turn_id) {
        let k = choose|k: int| 0 <= k < before.len() && (#[trigger] before[k]).turn_id
            == row.turn_id;
        let q = lemma_prompt_source(rows, order, n - 1, k);
        assert(not_behind(rows[order[q]], rows[order[n - 1]]));
        k
    } else {
        before.len() as int
    }
}

proof fn lemma_order_of_rows(rows: Seq<PromptRowView>)
    ensures
        lists_in_order(rows, stable_order(prompt_keys(rows))),
        stable_order(prompt_keys(rows)).len() == rows.len(),
        forall|p: int|
            0 <= p < rows.len() ==> 0 <= #[trigger] stable_order(prompt_keys(rows))[p]
                < rows.len(),
{
    let keys = prompt_keys(rows);
    let order = stable_order(keys);
    stable_order_is_sorted(keys);
    assert forall|p: int, q: int| 0 <= p < q < order.len() implies not_behind(
        rows[#[trigger] order[p]],
        rows[#[trigger] order[q]],
    ) by {
        assert(crate::ordering::in_order(keys, order[p], order[q]));
        assert(0 <= order[p] < rows.len() && 0 <= order[q] < rows.len());
    }
}

/// Every turn that is listed as one of the user's has a prompt of the user, and is
/// listed with its text and its place.
pub proof fn listed_turns_are_the_users(
    messages: Seq<MessageRecordView>,
    turns: Seq<TurnRecordView>,
    k: int,
)
    requires
        0 <= k < prompt_turns(messages, turns).len(),
    ensures
        exists|i: int|
            0 <= i < messages.len() && is_row_of(
                prompt_turns(messages, turns)[k],
                #[trigger] messages[i],
                turns,
            ),
{
    let rows = prompt_rows(messages, turns);
    let order = stable_order(prompt_keys(rows));
    lemma_order_of_rows(rows);
    let p = lemma_prompt_source(rows, order, order.len() as int, k);
    assert(0 <= order[p] < rows.len());
    let i = lemma_row_source(messages, turns, order[p]);
    assert(is_row_of(prompt_turns(messages, turns)[k], messages[i], turns));
}

/// Every turn with a prompt of the user is listed, with that prompt or an earlier
/// one.
pub proof fn every_turn_of_the_user_is_listed(
    messages: Seq<MessageRecordView>,
    turns: Seq<TurnRecordView>,
    i: int,
)
    requires
        0 <= i < messages.len(),
        messages[i].kind == MessageKind::UserPrompt,
    ensures
        exists|k: int, row: PromptRowView|
            #![trigger prompt_turns(messages, turns)[k], is_row_of(row, messages[i], turns)]
            0 <= k < prompt_turns(messages, turns).len() && is_row_of(row, messages[i], turns)
                && prompt_turns(messages, turns)[k].turn_id == messages[i].turn_id && not_behind(
                prompt_turns(messages, turns)[k],
                row,
            ),
{
    let rows = prompt_rows(messages, turns);
    let order = stable_order(prompt_keys(rows));
    lemma_order_of_rows(rows);
    let r = lemma_row_listed(messages, turns, i);
    every_row_is_ordered(prompt_keys(rows), r);
    let p = choose|p: int| 0 <= p < order.len() && order[p] == r;
    let k = lemma_prompt_listed(rows, order, order.len() as int, p);
    lemma_row_of(messages[i], turns);
    assert(is_row_of(prompt_row(messages[i], turns), messages[i], turns));
    assert(not_behind(prompt_turns(messages, turns)[k], prompt_row(messages[i], turns)));
}

/// The turns of the user are listed in the order of the turns, and of the events
/// where that is the same.
pub proof fn listed_turns_are_in_order(
    messages: Seq<MessageRecordView>,
    turns: Seq<TurnRecordView>,
    j: int,
    k: int,
)
    requires
        0 <= j < k < prompt_turns(messages, turns).len(),
    ensures
        not_behind(prompt_turns(messages, turns)[j], prompt_turns(messages, turns)[k]),
{
    let rows = prompt_rows(messages, turns);
    let order = stable_order(prompt_keys(rows));
    lemma_order_of_rows(rows);
    lemma_prompts_in_order(rows, order, order.len() as int, j, k);
}

} // verus!
