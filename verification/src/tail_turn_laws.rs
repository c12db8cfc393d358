//! How a rebuilt rollout tells where turns begin and end, and what became of
//! images.

use vstd::prelude::*;
use vstd::string::*;

use crate::host_turn_ids::{shown_name, TurnIdPairView};
use crate::json::text_entry;
use crate::mapping::ModelIdentityView;
use crate::records::{BlockType, BlockView, TurnOutcome, TurnRecordView, TurnStatus};
use crate::reverse::{item_lines, unanswered_image};
use crate::rollback::turn_of;
use crate::rollout::{EventMsgView, RolloutItemView, TurnAbortReason};
use crate::tail::{
    abort_reason, error_in_blocks, finished, image_of_call, images_of_turn, kind_of_call, lowered,
    part_emitted, turn_closed, turn_end_event, turn_opened, unanswered_lines, without_image,
    KnownCallView, PendingImageView, TailContextView, TailView,
};
use crate::text::{occurs_in, stands_at};
use crate::thread_view::{SessionAssistantPartType, SessionAssistantPartView};
use crate::timestamps::secs_of_iso;

verus! {

// ---------------------------------------------------------------------------
// The end of a turn
// ---------------------------------------------------------------------------

/// A letter, small or capital.
pub open spec fn is_letter(c: char, letter: char) -> bool {
    c == letter || ('A' <= c <= 'Z' && c as int + 32 == letter as int)
}

/// The text holds the word, in whatever letters.
pub open spec fn mentions(s: Seq<char>, word: Seq<char>) -> bool {
    exists|at: int| #[trigger] mentions_at(s, word, at)
}

pub open spec fn mentions_at(s: Seq<char>, word: Seq<char>, at: int) -> bool {
    &&& 0 <= at
    &&& at + word.len() <= s.len()
    &&& forall|i: int| 0 <= i < word.len() ==> is_letter(s[at + i], #[trigger] word[i])
}

/// The word is in small letters.
spec fn is_small(word: Seq<char>) -> bool {
    forall|i: int| 0 <= i < word.len() ==> 'a' <= #[trigger] word[i] <= 'z'
}

proof fn lemma_letter(c: char, letter: char)
    requires
        'a' <= letter <= 'z',
    ensures
        is_letter(c, letter) <==> crate::tail::lower_char(c) == letter,
{
    if 'A' <= c <= 'Z' {
        assert((c as u8 + 32) as char as int == c as int + 32);
    }
}

proof fn lemma_mentions(s: Seq<char>, word: Seq<char>)
    requires
        is_small(word),
    ensures
        mentions(s, word) <==> occurs_in(lowered(s), word),
{
    let low = lowered(s);
    assert forall|at: int| #[trigger] mentions_at(s, word, at) <==> stands_at(low, word, at) by {
        if 0 <= at && at + word.len() <= s.len() {
            let cut = low.subrange(at, at + word.len());
            assert forall|i: int| 0 <= i < word.len() implies (is_letter(
                s[at + i],
                #[trigger] word[i],
            ) <==> cut[i] == word[i]) by {
                lemma_letter(s[at + i], word[i]);
                assert(cut[i] == low[at + i]);
            }
            if mentions_at(s, word, at) {
                assert(cut =~= word);
            }
            if stands_at(low, word, at) {
                assert forall|i: int| 0 <= i < word.len() implies is_letter(
                    s[at + i],
                    #[trigger] word[i],
                ) by {
                    assert(cut[i] == word[i]);
                }
            }
        }
    }
    if mentions(s, word) {
        let at = choose|at: int| #[trigger] mentions_at(s, word, at);
        assert(stands_at(low, word, at));
    }
    if occurs_in(low, word) {
        let at = choose|at: int| #[trigger] stands_at(low, word, at);
        assert(mentions_at(s, word, at));
    }
}

/// Why a turn was aborted is told by what its reason mentions; one that mentions
/// nothing known, or no reason, was an interruption.
pub proof fn abort_reasons_are_told(reason: Option<Seq<char>>)
    ensures
        ({
            let replaced = reason matches Some(s) && mentions(s, "replac"@);
            let review = reason matches Some(s) && mentions(s, "review"@);
            let budget = reason matches Some(s) && mentions(s, "budget"@);
            let told = abort_reason(reason);
            &&& told == TurnAbortReason::Replaced <==> replaced
            &&& told == TurnAbortReason::ReviewEnded <==> review && !replaced
            &&& told == TurnAbortReason::BudgetLimited <==> budget && !replaced && !review
            &&& told == TurnAbortReason::Interrupted <==> !replaced && !review && !budget
        }),
{
    reveal_strlit("replac");
    reveal_strlit("review");
    reveal_strlit("budget");
    if let Some(s) = reason {
        lemma_mentions(s, "replac"@);
        lemma_mentions(s, "review"@);
        lemma_mentions(s, "budget"@);
    }
}

/// The seconds of a stored time.
pub open spec fn at_secs(time: Option<Seq<char>>) -> Option<i64> {
    if time is Some {
        secs_of_iso(time->0)
    } else {
        None
    }
}

/// How long something took, in milliseconds: known where both times are and the
/// end is not the earlier, and told as far as a number goes.
pub open spec fn is_how_long(start: Option<i64>, end: Option<i64>, took: Option<i64>) -> bool {
    &&& took is Some <==> start is Some && end is Some && start->0 <= end->0
    &&& took is Some && 1000 * (end->0 - start->0) <= i64::MAX ==> took->0 == 1000 * (end->0
        - start->0)
    &&& took is Some && 1000 * (end->0 - start->0) > i64::MAX ==> took->0 == i64::MAX
}

/// A turn that was aborted is told to be, with the reason; any other is told to be
/// complete. Either is told under the name it is shown by, with its times.
pub proof fn ends_of_turns_are_told(turn: TurnRecordView, names: Seq<TurnIdPairView>)
    ensures
        ({
            let name = shown_name(names, turn.turn_id);
            let start = at_secs(turn.started_at);
            let end = at_secs(turn.ended_at);
            if turn.outcome == Some(TurnOutcome::Aborted) {
                turn_end_event(turn, names) matches EventMsgView::TurnAborted {
                    turn_id,
                    reason,
                    started_at,
                    completed_at,
                    duration_ms,
                } && turn_id == Some(name) && reason == abort_reason(turn.outcome_reason)
                    && started_at == start && completed_at == end && is_how_long(
                    start,
                    end,
                    duration_ms,
                )
            } else {
                turn_end_event(turn, names) matches EventMsgView::TurnComplete {
                    turn_id,
                    started_at,
                    completed_at,
                    duration_ms,
                } && turn_id == name && started_at == start && completed_at == end && is_how_long(
                    start,
                    end,
                    duration_ms,
                )
            }
        }),
{
}

/// The image waits in a turn.
pub open spec fn waits_in(image: PendingImageView, turn: Seq<char>) -> bool {
    image.turn_id == turn
}

/// The lines of images that nothing answered, one image after the other.
pub open spec fn lines_of_unanswered(images: Seq<PendingImageView>) -> Seq<RolloutItemView> {
    images.map_values(
        |p: PendingImageView| item_lines(unanswered_image(p.call_id, p.revised_prompt)),
    ).flatten()
}

proof fn lemma_unanswered(images: Seq<PendingImageView>)
    ensures
        unanswered_lines(images) == lines_of_unanswered(images),
    decreases images.len(),
{
    let f = |p: PendingImageView| item_lines(unanswered_image(p.call_id, p.revised_prompt));
    let all = images.map_values(f);
    if images.len() == 0 {
        assert(all.len() == 0);
        assert(unanswered_lines(images) =~= all.flatten());
    } else {
        let less = images.drop_last();
        lemma_unanswered(less);
        assert(all =~= less.map_values(f).push(f(images.last())));
        less.map_values(f).lemma_flatten_push(f(images.last()));
    }
}

proof fn lemma_images_of_turn(images: Seq<PendingImageView>, turn: Seq<char>)
    ensures
        images_of_turn(images, turn, true) == images.filter(
            |p: PendingImageView| waits_in(p, turn),
        ),
        images_of_turn(images, turn, false) == images.filter(
            |p: PendingImageView| !waits_in(p, turn),
        ),
    decreases images.len(),
{
    reveal(Seq::filter);
    if images.len() > 0 {
        lemma_images_of_turn(images.drop_last(), turn);
    }
}

proof fn lemma_without_image(images: Seq<PendingImageView>, id: Seq<char>)
    ensures
        without_image(images, id) == images.filter(|p: PendingImageView| p.call_id != id),
    decreases images.len(),
{
    reveal(Seq::filter);
    if images.len() > 0 {
        lemma_without_image(images.drop_last(), id);
    }
}

/// Where a turn ends, its images that still wait are told first, in their order,
/// then the end. The images of other turns wait on.
pub proof fn end_of_a_turn_is_told_last(
    s: TailView,
    names: Seq<TurnIdPairView>,
    turn: TurnRecordView,
)
    ensures
        ({
            let r = turn_closed(s, names, turn);
            let own = s.pending.filter(|p: PendingImageView| waits_in(p, turn.turn_id));
            &&& r.out == s.out + lines_of_unanswered(own) + seq![
                RolloutItemView::EventMsg(turn_end_event(turn, names)),
            ]
            &&& r.pending == s.pending.filter(|p: PendingImageView| !waits_in(p, turn.turn_id))
            &&& r.closed == s.closed.push(turn.turn_id)
            &&& r.opened == s.opened
            &&& r.calls == s.calls
            &&& r.notes == s.notes
        }),
{
    lemma_images_of_turn(s.pending, turn.turn_id);
    lemma_unanswered(images_of_turn(s.pending, turn.turn_id, true));
    let r = turn_closed(s, names, turn);
    let own = s.pending.filter(|p: PendingImageView| waits_in(p, turn.turn_id));
    assert(r.out =~= s.out + lines_of_unanswered(own) + seq![
        RolloutItemView::EventMsg(turn_end_event(turn, names)),
    ]);
}

/// Turn `i` is the one named `id`: the last of that name.
pub open spec fn is_turn(turns: Seq<TurnRecordView>, id: Seq<char>, i: int) -> bool {
    &&& 0 <= i < turns.len()
    &&& turns[i].turn_id == id
    &&& forall|j: int| i < j < turns.len() ==> (#[trigger] turns[j]).turn_id != id
}

/// A turn is found by its name exactly when the store holds it, and of several the
/// last is found.
pub proof fn turns_are_found_by_name(turns: Seq<TurnRecordView>, id: Seq<char>, i: int)
    ensures
        is_turn(turns, id, i) ==> turn_of(turns, id) == Some(turns[i]),
        (forall|j: int| 0 <= j < turns.len() ==> (#[trigger] turns[j]).turn_id != id) ==> turn_of(
            turns,
            id,
        ) is None,
    decreases turns.len(),
{
    if turns.len() > 0 && turns.last().turn_id != id {
        let front = turns.drop_last();
        turns_are_found_by_name(front, id, i);
        if is_turn(turns, id, i) {
            assert(front[i] == turns[i]);
            assert forall|j: int| i < j < front.len() implies (#[trigger] front[j]).turn_id
                != id by {
                assert(front[j] == turns[j]);
            }
        }
        if forall|j: int| 0 <= j < turns.len() ==> (#[trigger] turns[j]).turn_id != id {
            assert forall|j: int| 0 <= j < front.len() implies (#[trigger] front[j]).turn_id
                != id by {
                assert(front[j] == turns[j]);
            }
        }
    } else if turns.len() > 0 {
        assert(turns[turns.len() - 1].turn_id == id);
    }
}

/// A turn that is over is told to begin where it is first met, under the name it
/// is shown by, with its time, after all that was told before. A turn that is met
/// again is not told again.
pub proof fn starts_of_turns_are_told(s: TailView, ctx: TailContextView, id: Seq<char>, i: int)
    requires
        is_turn(ctx.turns, id, i),
    ensures
        s.opened.contains(id) ==> turn_opened(s, ctx, id) == s,
        !s.opened.contains(id) && ctx.turns[i].status == TurnStatus::Closed ==> {
            let r = turn_opened(s, ctx, id);
            &&& r.out.len() > 0
            &&& r.out.last() == RolloutItemView::EventMsg(
                EventMsgView::TurnStarted {
                    turn_id: shown_name(ctx.names, id),
                    started_at: at_secs(ctx.turns[i].started_at),
                },
            )
        },
        turn_opened(s, ctx, id).opened.contains(id),
{
    turns_are_found_by_name(ctx.turns, id, i);
    let r = turn_opened(s, ctx, id);
    if !s.opened.contains(id) {
        let o = r.opened;
        assert(o[o.len() - 1] == id);
    }
}

// ---------------------------------------------------------------------------
// Images
// ---------------------------------------------------------------------------

/// An image call tells nothing yet: it waits for its result with its prompt, and
/// an earlier call of the same name waits no longer.
pub proof fn image_calls_wait(
    s: TailView,
    part: SessionAssistantPartView,
    call_id: Seq<char>,
    id_hint: Option<Seq<char>>,
    turn_id: Seq<char>,
    stored: ModelIdentityView,
    live: Option<ModelIdentityView>,
)
    requires
        part.type_ == SessionAssistantPartType::ToolCall,
        part.tool_name == Some("image_generation"@),
        part.tool_call_id == Some(call_id),
    ensures
        ({
            let r = part_emitted(s, part, id_hint, turn_id, stored, live);
            &&& r.out == s.out
            &&& r.notes == s.notes
            &&& r.calls == s.calls
            &&& r.pending == s.pending.filter(|p: PendingImageView| p.call_id != call_id).push(
                PendingImageView {
                    call_id,
                    revised_prompt: match part.arguments {
                        Some(crate::json::JsonView::Object(e)) => text_entry(e, "revisedPrompt"@),
                        _ => None,
                    },
                    turn_id,
                },
            )
        }),
{
    lemma_without_image(s.pending, call_id);
    let none = Seq::<(Seq<char>, crate::json::JsonView)>::empty();
    assert(text_entry(none, "revisedPrompt"@) is None);
}

/// Image `k` is the latest that waits for a call.
pub open spec fn is_waiting(images: Seq<PendingImageView>, id: Seq<char>, k: int) -> bool {
    &&& 0 <= k < images.len()
    &&& images[k].call_id == id
    &&& forall|j: int| k < j < images.len() ==> (#[trigger] images[j]).call_id != id
}

/// The image that waits for a call is found by the call.
pub proof fn waiting_images_are_found(images: Seq<PendingImageView>, id: Seq<char>, k: int)
    ensures
        is_waiting(images, id, k) ==> image_of_call(images, id) == Some(images[k]),
        (forall|j: int| 0 <= j < images.len() ==> (#[trigger] images[j]).call_id != id)
            ==> image_of_call(images, id) is None,
    decreases images.len(),
{
    if images.len() > 0 && images.last().call_id != id {
        let front = images.drop_last();
        waiting_images_are_found(front, id, k);
        if is_waiting(images, id, k) {
            assert(front[k] == images[k]);
            assert forall|j: int| k < j < front.len() implies (#[trigger] front[j]).call_id
                != id by {
                assert(front[j] == images[j]);
            }
        }
        if forall|j: int| 0 <= j < images.len() ==> (#[trigger] images[j]).call_id != id {
            assert forall|j: int| 0 <= j < front.len() implies (#[trigger] front[j]).call_id
                != id by {
                assert(front[j] == images[j]);
            }
        }
    } else if images.len() > 0 {
        assert(images[images.len() - 1].call_id == id);
    }
}

/// At the end, every image that still waits is told, in their order, before any
/// turn ends.
pub proof fn waiting_images_are_told_at_the_end(s: TailView, ctx: TailContextView)
    ensures
        ({
            let told = s.out + lines_of_unanswered(s.pending);
            let r = finished(s, ctx);
            &&& told.len() <= r.out.len()
            &&& r.out.take(told.len() as int) == told
        }),
{
    lemma_unanswered(s.pending);
    crate::tail_content_laws::lemma_finished_flushes(s, ctx);
}

// ---------------------------------------------------------------------------
// Calls and results
// ---------------------------------------------------------------------------

/// Call `k` is the latest of a name.
pub open spec fn is_latest_call(calls: Seq<KnownCallView>, id: Seq<char>, k: int) -> bool {
    &&& 0 <= k < calls.len()
    &&& calls[k].call_id == id
    &&& forall|j: int| k < j < calls.len() ==> (#[trigger] calls[j]).call_id != id
}

/// What kind of call a result answers is what the latest call of that name was.
pub proof fn results_know_their_call(calls: Seq<KnownCallView>, id: Seq<char>, k: int)
    ensures
        is_latest_call(calls, id, k) ==> kind_of_call(calls, id) == Some(calls[k].kind),
        (forall|j: int| 0 <= j < calls.len() ==> (#[trigger] calls[j]).call_id != id)
            ==> kind_of_call(calls, id) is None,
    decreases calls.len(),
{
    if calls.len() > 0 && calls.last().call_id != id {
        let front = calls.drop_last();
        results_know_their_call(front, id, k);
        if is_latest_call(calls, id, k) {
            assert(front[k] == calls[k]);
            assert forall|j: int| k < j < front.len() implies (#[trigger] front[j]).call_id
                != id by {
                assert(front[j] == calls[j]);
            }
        }
        if forall|j: int| 0 <= j < calls.len() ==> (#[trigger] calls[j]).call_id != id {
            assert forall|j: int| 0 <= j < front.len() implies (#[trigger] front[j]).call_id
                != id by {
                assert(front[j] == calls[j]);
            }
        }
    } else if calls.len() > 0 {
        assert(calls[calls.len() - 1].call_id == id);
    }
}

/// Block `j` is the first result of a message.
pub open spec fn is_first_result(blocks: Seq<BlockView>, j: int) -> bool {
    &&& 0 <= j < blocks.len()
    &&& blocks[j].block_type == BlockType::ToolResult
    &&& forall|i: int| 0 <= i < j ==> (#[trigger] blocks[i]).block_type != BlockType::ToolResult
}

proof fn lemma_error_from(blocks: Seq<BlockView>, i: int, j: int)
    requires
        is_first_result(blocks, j),
        0 <= i <= j,
    ensures
        error_in_blocks(blocks, i) == error_in_blocks(blocks, j),
    decreases j - i,
{
    if i < j {
        lemma_error_from(blocks, i + 1, j);
    }
}

proof fn lemma_no_error_from(blocks: Seq<BlockView>, i: int)
    requires
        forall|k: int| 0 <= k < blocks.len() ==> (#[trigger] blocks[k]).block_type
            != BlockType::ToolResult,
        0 <= i,
    ensures
        error_in_blocks(blocks, i) is None,
    decreases blocks.len() - i,
{
    if i < blocks.len() {
        lemma_no_error_from(blocks, i + 1);
    }
}

/// Whether a stored message is an error is what its first result says of it.
pub proof fn errors_are_what_the_store_says(blocks: Seq<BlockView>, j: int)
    ensures
        is_first_result(blocks, j) ==> error_in_blocks(blocks, 0) == (match crate::json::member(
            blocks[j].content,
            "isError"@,
        ) {
            Some(crate::json::JsonView::Bool(b)) => Some(b),
            _ => None,
        }),
        (forall|k: int| 0 <= k < blocks.len() ==> (#[trigger] blocks[k]).block_type
            != BlockType::ToolResult) ==> error_in_blocks(blocks, 0) is None,
{
    if is_first_result(blocks, j) {
        lemma_error_from(blocks, 0, j);
    }
    if forall|k: int| 0 <= k < blocks.len() ==> (#[trigger] blocks[k]).block_type
        != BlockType::ToolResult {
        lemma_no_error_from(blocks, 0);
    }
}

} // verus!
