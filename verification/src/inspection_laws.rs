//! What is read out of stored messages and of rollouts.

use vstd::prelude::*;
use vstd::string::*;

use crate::json::{member, JsonView};
use crate::materialize::{boundary_records, records_error, stream_len};
use crate::protocol::ResponseItemView;
use crate::records::{BlockView, MessageRecordView, TurnRecordView};
use crate::reverse_laws::{in_lines, joined_texts_stand_in_lines};
use crate::rollback::{
    block_texts, exclusion_of, first_mismatch, prompt_turns, rolled_back, text_of_message,
    user_segments, PriorUserSegmentView, PromptRowView,
};
use crate::rollout::{CompactedItemView, RolloutItemView};
use crate::text::decimal;

verus! {

// ---------------------------------------------------------------------------
// Messages
// ---------------------------------------------------------------------------

/// The text that a block holds.
pub open spec fn text_in(block: BlockView) -> Option<Seq<char>> {
    match member(block.content, "text"@) {
        Some(JsonView::Text(s)) => Some(s),
        _ => None,
    }
}

proof fn lemma_block_texts(blocks: Seq<BlockView>)
    ensures
        block_texts(blocks) == blocks.filter(|b: BlockView| text_in(b) is Some).map_values(
            |b: BlockView| text_in(b)->0,
        ),
    decreases blocks.len(),
{
    reveal(Seq::filter);
    let p = |b: BlockView| text_in(b) is Some;
    let f = |b: BlockView| text_in(b)->0;
    if blocks.len() == 0 {
        assert(blocks.filter(p).map_values(f) =~= Seq::<Seq<char>>::empty());
    } else {
        let less = blocks.drop_last();
        lemma_block_texts(less);
        let b = blocks.last();
        if p(b) {
            assert(blocks.filter(p) =~= less.filter(p).push(b));
            assert(less.filter(p).push(b).map_values(f) =~= less.filter(p).map_values(f).push(f(b)));
        } else {
            assert(blocks.filter(p) =~= less.filter(p));
        }
    }
}

/// The text of a stored message is that of all its blocks that hold one, line
/// after line.
pub proof fn every_block_with_a_text_is_read(m: MessageRecordView)
    ensures
        text_of_message(m) == in_lines(
            m.blocks.filter(|b: BlockView| text_in(b) is Some).map_values(
                |b: BlockView| text_in(b)->0,
            ),
        ),
{
    lemma_block_texts(m.blocks);
    joined_texts_stand_in_lines(block_texts(m.blocks));
}

// ---------------------------------------------------------------------------
// Boundaries
// ---------------------------------------------------------------------------

/// The record of a line that is a boundary.
pub open spec fn record_in(line: RolloutItemView) -> Option<CompactedItemView> {
    match line {
        RolloutItemView::Compacted(c) => Some(c),
        _ => None,
    }
}

/// All boundaries of a rollout are looked at, in their order.
pub proof fn every_boundary_is_looked_at(lines: Seq<RolloutItemView>)
    ensures
        boundary_records(lines) == lines.filter(
            |l: RolloutItemView| record_in(l) is Some,
        ).map_values(|l: RolloutItemView| record_in(l)->0),
    decreases lines.len(),
{
    reveal(Seq::filter);
    let p = |l: RolloutItemView| record_in(l) is Some;
    let f = |l: RolloutItemView| record_in(l)->0;
    if lines.len() == 0 {
        assert(lines.filter(p).map_values(f) =~= Seq::<CompactedItemView>::empty());
    } else {
        let less = lines.drop_last();
        every_boundary_is_looked_at(less);
        let l = lines.last();
        if p(l) {
            assert(lines.filter(p) =~= less.filter(p).push(l));
            assert(less.filter(p).push(l).map_values(f) =~= less.filter(p).map_values(f).push(f(l)));
        } else {
            assert(lines.filter(p) =~= less.filter(p));
        }
    }
}

/// A rollout can be resumed exactly when it has one boundary, with a history that
/// is not empty and a window. What is said else is what is wrong with it first.
pub proof fn resumable_rollouts_have_one_boundary(records: Seq<CompactedItemView>)
    ensures
        records_error(records) is None <==> {
            &&& records.len() == 1
            &&& records[0].replacement_history is Some
            &&& records[0].replacement_history->0.len() > 0
            &&& records[0].window_number is Some
        },
        records.len() == 0 ==> records_error(records) == Some(
            "missing Compacted boundary record"@,
        ),
        records.len() > 1 ==> records_error(records) == Some(
            "expected exactly one Compacted boundary record"@,
        ),
        records.len() == 1 && records[0].replacement_history is None ==> records_error(records)
            == Some("Compacted.replacement_history is None"@),
        records.len() == 1 && records[0].replacement_history == Some(
            Seq::<ResponseItemView>::empty(),
        ) ==> records_error(records) == Some("Compacted.replacement_history is empty"@),
        records.len() == 1 && records[0].replacement_history is Some
            && records[0].replacement_history->0.len() > 0 && records[0].window_number is None
            ==> records_error(records) == Some("Compacted.window_number is None"@),
{
}

proof fn lemma_stream(lines: Seq<RolloutItemView>, i: int, n: int)
    requires
        0 <= i <= n <= lines.len(),
        forall|k: int| i <= k < n ==> !((#[trigger] lines[k]) is Compacted),
        n == lines.len() || lines[n] is Compacted,
    ensures
        stream_len(lines, i) == lines.subrange(i, n).filter(
            |l: RolloutItemView| l is ResponseItem,
        ).len(),
    decreases n - i,
{
    let p = |l: RolloutItemView| l is ResponseItem;
    let own = lines.subrange(i, n);
    if i == n {
        reveal(Seq::filter);
        assert(own.filter(p).len() == 0);
    } else {
        lemma_stream(lines, i + 1, n);
        let rest = lines.subrange(i + 1, n);
        assert(own =~= seq![lines[i]] + rest);
        Seq::filter_distributes_over_add(seq![lines[i]], rest, p);
        assert(seq![lines[i]].filter(p).len() == (if p(lines[i]) {
            1nat
        } else {
            0nat
        })) by {
            reveal(Seq::filter);
            reveal_with_fuel(Seq::filter, 2);
            assert(seq![lines[i]].drop_last().len() == 0);
        }
    }
}

/// The items of the model's stream are those before the first boundary.
pub proof fn items_before_the_boundary_are_counted(lines: Seq<RolloutItemView>, n: int)
    requires
        0 <= n <= lines.len(),
        forall|k: int| 0 <= k < n ==> !((#[trigger] lines[k]) is Compacted),
        n == lines.len() || lines[n] is Compacted,
    ensures
        stream_len(lines, 0) == lines.take(n).filter(
            |l: RolloutItemView| l is ResponseItem,
        ).len(),
{
    lemma_stream(lines, 0, n);
    assert(lines.subrange(0, n) =~= lines.take(n));
}

// ---------------------------------------------------------------------------
// Rollbacks
// ---------------------------------------------------------------------------

proof fn lemma_first_mismatch(
    segments: Seq<PriorUserSegmentView>,
    rows: Seq<PromptRowView>,
    i: int,
    at: int,
)
    requires
        0 <= i <= at < segments.len(),
        forall|k: int|
            0 <= k < at ==> (#[trigger] segments[k]).text == rows[rows.len() - segments.len()
                + k].text,
        segments[at].text != rows[rows.len() - segments.len() + at].text,
    ensures
        first_mismatch(segments, rows, i) == at,
    decreases at - i,
{
    if i < at {
        assert(segments[i].text == rows[rows.len() - segments.len() + i].text);
        lemma_first_mismatch(segments, rows, i + 1, at);
    }
}

/// What is said of a rollback that cannot be laid against the store is where the
/// two first disagree, and what either says there.
pub proof fn first_disagreement_is_told(
    segments: Seq<PriorUserSegmentView>,
    rows: Seq<PromptRowView>,
    at: int,
    d: int,
)
    requires
        segments.len() <= rows.len(),
        0 <= d < segments.len(),
        segments[d].dropped,
        0 <= at < segments.len(),
        forall|k: int|
            0 <= k < at ==> (#[trigger] segments[k]).text == rows[rows.len() - segments.len()
                + k].text,
        segments[at].text != rows[rows.len() - segments.len() + at].text,
    ensures
        exclusion_of(segments, rows).notes == seq![
            "rollback alignment mismatch at position "@ + decimal(at as nat) + ": prior_segment="@
                + crate::rollback::debug_quoted(segments[at].text) + " lhc_turn="@
                + crate::rollback::debug_quoted(rows[rows.len() - segments.len() + at].text)
                + "; excluding nothing (under-exclusion)"@,
        ],
{
    lemma_first_mismatch(segments, rows, 0, at);
    assert(crate::rollback::any_dropped(segments));
}

/// Where the store holds fewer turns of the user than the rollout, both numbers are
/// told.
pub proof fn missing_turns_are_told(
    segments: Seq<PriorUserSegmentView>,
    rows: Seq<PromptRowView>,
    d: int,
)
    requires
        rows.len() < segments.len(),
        0 <= d < segments.len(),
        segments[d].dropped,
    ensures
        exclusion_of(segments, rows).notes == seq![
            "rollback alignment: fewer LHC user-prompt turns ("@ + decimal(rows.len())
                + ") than prior post-boundary segments ("@ + decimal(segments.len())
                + "); excluding nothing (under-exclusion)"@,
        ],
{
    assert(crate::rollback::any_dropped(segments));
}

/// The rollbacks of a rollout are laid against the turns of the store.
pub proof fn rollbacks_are_laid_against_the_store(
    prior: Seq<RolloutItemView>,
    messages: Seq<MessageRecordView>,
    turns: Seq<TurnRecordView>,
)
    ensures
        rolled_back(prior, messages, turns) == exclusion_of(
            user_segments(prior),
            prompt_turns(messages, turns),
        ),
{
}

} // verus!
