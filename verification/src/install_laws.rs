//! What the host's notices become on their way to the capture.

use vstd::prelude::*;
use vstd::string::*;

use crate::capture::CaptureCmdView;
use crate::install::{
    abort_word, after_flush_step, after_stop, appended, capped, config_commands, flush_step_of,
    item_commands, offered, replayed, sent_as, served_anew, settled_as, stop_step_of, timing_facts,
    without_empty, CaptureStateView, FlushStepView, LhcCaptureSlotView, ModelLabelsView,
    OpenCaptureView, PendingCmdView, StopStepView, PRE_OPEN_CAP,
};
use crate::mapping::ModelIdentityView;
use crate::protocol::ResponseItemView;
use crate::records::RawItemProvenance;
use crate::rollout::TurnAbortReason;
use crate::tail::abort_reason;
use crate::tail_turn_laws::{abort_reasons_are_told, is_letter, mentions, mentions_at};

verus! {

// ---------------------------------------------------------------------------
// Commands
// ---------------------------------------------------------------------------

/// The command says that something changed which did not.
pub open spec fn changes_nothing(cmd: PendingCmdView) -> bool {
    cmd matches PendingCmdView::ModelOrThinkingChange {
        previous_model,
        new_model,
        previous_level,
        new_level,
    } && previous_model == new_model && previous_level == new_level
}

/// What a command is sent as: itself, whole. Only a prompt in the middle of a run
/// is told as a prompt without a step.
pub open spec fn is_sent_as(cmd: PendingCmdView, sent: CaptureCmdView) -> bool {
    match cmd {
        PendingCmdView::Persist { item, provenance, step_index, steer } => sent == (
        CaptureCmdView::Persist {
            item,
            provenance: if steer {
                RawItemProvenance::UserPrompt
            } else {
                provenance
            },
            step_index: if steer {
                None
            } else {
                step_index
            },
            steer,
        }),
        PendingCmdView::ModelOrThinkingChange {
            previous_model,
            new_model,
            previous_level,
            new_level,
        } => sent == (CaptureCmdView::ModelOrThinkingChange {
            previous_model,
            new_model,
            previous_level,
            new_level,
            provider: None,
            api: None,
        }),
        PendingCmdView::ProviderUsage { usage } => sent == (CaptureCmdView::ProviderUsage {
            usage,
        }),
        PendingCmdView::SetIdentity { identity } => sent == (CaptureCmdView::SetIdentity {
            identity,
        }),
        PendingCmdView::TurnEnd { turn_id, reason, facts } => sent == (CaptureCmdView::TurnEnd {
            turn_id,
            reason,
            facts,
        }),
        PendingCmdView::BindTurn { host_turn_id } => sent == (CaptureCmdView::BindTurn {
            host_turn_id,
        }),
    }
}

/// Every command is sent whole, but one that changes nothing, which is not sent.
pub proof fn commands_are_sent_whole(cmd: PendingCmdView)
    ensures
        sent_as(cmd) is None <==> changes_nothing(cmd),
        sent_as(cmd) matches Some(sent) ==> is_sent_as(cmd, sent),
{
}

proof fn lemma_replayed(cmds: Seq<PendingCmdView>, n: int)
    requires
        0 <= n <= cmds.len(),
    ensures
        ({
            let kept = cmds.take(n).filter(|c: PendingCmdView| !changes_nothing(c));
            &&& replayed(cmds, n).len() == kept.len()
            &&& forall|k: int|
                0 <= k < kept.len() ==> is_sent_as(kept[k], #[trigger] replayed(cmds, n)[k])
        }),
    decreases n,
{
    reveal(Seq::filter);
    if n > 0 {
        lemma_replayed(cmds, n - 1);
        assert(cmds.take(n).drop_last() =~= cmds.take(n - 1));
        commands_are_sent_whole(cmds[n - 1]);
    }
}

/// All commands that waited are sent, each whole, in the order in which they came,
/// but for those that change nothing.
pub proof fn waiting_commands_are_all_sent(cmds: Seq<PendingCmdView>)
    ensures
        ({
            let kept = cmds.filter(|c: PendingCmdView| !changes_nothing(c));
            let sent = replayed(cmds, cmds.len() as int);
            &&& sent.len() == kept.len()
            &&& forall|k: int| 0 <= k < kept.len() ==> is_sent_as(kept[k], #[trigger] sent[k])
        }),
{
    lemma_replayed(cmds, cmds.len() as int);
    assert(cmds.take(cmds.len() as int) =~= cmds);
}

/// Every item that the host recorded is to be stored, in its order, with its
/// origin and its step. A prompt of the user that comes after a cycle has begun is
/// one in the middle of a run; nothing else is.
pub proof fn every_recorded_item_is_told(
    items: Seq<ResponseItemView>,
    provenance: RawItemProvenance,
    step_index: Option<i64>,
)
    ensures
        item_commands(items, provenance, step_index).len() == items.len(),
        forall|k: int|
            0 <= k < items.len() ==> #[trigger] item_commands(items, provenance, step_index)[k] == (
            PendingCmdView::Persist {
                item: items[k],
                provenance,
                step_index,
                steer: provenance == RawItemProvenance::UserPrompt && step_index is Some,
            }),
{
}

/// Another model or another provider is told to be live, under the labels that it
/// has now; another model or another level is told as a change, from the labels
/// before to those now. Nothing else is told.
pub proof fn changes_of_the_configuration_are_told(
    previous: ModelLabelsView,
    new: ModelLabelsView,
)
    ensures
        ({
            let live = seq![
                PendingCmdView::SetIdentity {
                    identity: ModelIdentityView {
                        provider: Some(new.provider),
                        model: Some(new.model),
                        api: Some("responses"@),
                    },
                },
            ];
            let change = seq![
                PendingCmdView::ModelOrThinkingChange {
                    previous_model: previous.model,
                    new_model: new.model,
                    previous_level: previous.thinking_level,
                    new_level: new.thinking_level,
                },
            ];
            let other = previous.model != new.model;
            &&& other ==> config_commands(previous, new) == live + change
            &&& !other && previous.provider != new.provider && previous.thinking_level
                == new.thinking_level ==> config_commands(previous, new) == live
            &&& !other && previous.provider != new.provider && previous.thinking_level
                != new.thinking_level ==> config_commands(previous, new) == live + change
            &&& !other && previous.provider == new.provider && previous.thinking_level
                != new.thinking_level ==> config_commands(previous, new) == change
            &&& !other && previous.provider == new.provider && previous.thinking_level
                == new.thinking_level ==> config_commands(previous, new).len() == 0
        }),
{
}

// ---------------------------------------------------------------------------
// Aborts
// ---------------------------------------------------------------------------

proof fn lemma_not_mentioned(s: Seq<char>, word: Seq<char>)
    requires
        word.len() > 1,
        forall|at: int|
            0 <= at < s.len() ==> !is_letter(#[trigger] s[at], word[0]) || at + 1 >= s.len()
                || !is_letter(s[at + 1], word[1]) || at + 2 >= s.len() || word.len() <= 2
                || !is_letter(s[at + 2], word[2]),
        word.len() > 2,
    ensures
        !mentions(s, word),
{
    if mentions(s, word) {
        let at = choose|at: int| #[trigger] mentions_at(s, word, at);
        assert(is_letter(s[at + 0], word[0]));
        assert(is_letter(s[at + 1], word[1]));
        assert(is_letter(s[at + 2], word[2]));
        assert(s[at] == s[at + 0]);
    }
}

/// Why a turn was aborted is stored as a word from which it is told again.
pub proof fn abort_reasons_are_stored_and_told(reason: TurnAbortReason)
    ensures
        abort_reason(Some(abort_word(reason))) == reason,
{
    reveal_strlit("interrupted");
    reveal_strlit("replaced");
    reveal_strlit("review_ended");
    reveal_strlit("budget_limited");
    reveal_strlit("replac");
    reveal_strlit("review");
    reveal_strlit("budget");
    let s = abort_word(reason);
    abort_reasons_are_told(Some(s));
    match reason {
        TurnAbortReason::Interrupted => {
            lemma_not_mentioned(s, "replac"@);
            lemma_not_mentioned(s, "review"@);
            lemma_not_mentioned(s, "budget"@);
        },
        TurnAbortReason::Replaced => {
            assert(mentions_at(s, "replac"@, 0));
        },
        TurnAbortReason::ReviewEnded => {
            lemma_not_mentioned(s, "replac"@);
            assert(mentions_at(s, "review"@, 0));
        },
        TurnAbortReason::BudgetLimited => {
            lemma_not_mentioned(s, "replac"@);
            lemma_not_mentioned(s, "review"@);
            assert(mentions_at(s, "budget"@, 0));
        },
    }
}

/// The end of a turn is stored with its outcome, its reason and both its times.
pub proof fn both_times_are_stored(
    outcome: Option<Seq<char>>,
    reason: Option<Seq<char>>,
    started_at: Option<i64>,
    completed_at: Option<i64>,
)
    ensures
        ({
            let facts = timing_facts(outcome, reason, started_at, completed_at);
            &&& facts.outcome == outcome
            &&& facts.outcome_reason == reason
            &&& facts.started_at == (match started_at {
                Some(s) => Some(crate::timestamps::iso_of(s)),
                None => None,
            })
            &&& facts.ended_at == (match completed_at {
                Some(s) => Some(crate::timestamps::iso_of(s)),
                None => None,
            })
        }),
{
}

// ---------------------------------------------------------------------------
// The slot
// ---------------------------------------------------------------------------

/// A command that comes while the capture opens waits behind the others, while
/// there is room; without room it is lost, and counted.
pub proof fn commands_wait_while_there_is_room(s: LhcCaptureSlotView, cmd: PendingCmdView)
    requires
        s.state is Opening,
    ensures
        s.pending.len() < PRE_OPEN_CAP ==> offered(s, cmd) == (LhcCaptureSlotView {
            pending: s.pending.push(cmd),
            ..s
        }),
        s.pending.len() >= PRE_OPEN_CAP ==> {
            let r = offered(s, cmd);
            &&& r.pending == s.pending
            &&& r.pending_overflow
            &&& s.pending_dropped < u64::MAX ==> r.pending_dropped == s.pending_dropped + 1
            &&& s.pending_dropped == u64::MAX ==> r.pending_dropped == u64::MAX
            &&& r.state == s.state
        },
{
}

/// A capture that has opened is used at once where nothing waits, and else gets
/// all that waits first. Whether anything was lost is told either way.
pub proof fn opened_capture_gets_what_waits(s: LhcCaptureSlotView, opened: OpenCaptureView)
    requires
        s.state is Opening,
    ensures
        s.pending.len() == 0 ==> flush_step_of(s) == (FlushStepView::Published {
            degrade: s.pending_overflow,
        }) && after_flush_step(s, opened) == (LhcCaptureSlotView {
            state: CaptureStateView::Ready(opened),
            ..s
        }),
        s.pending.len() > 0 ==> flush_step_of(s) == (FlushStepView::Replay {
            cmds: s.pending,
            degrade: s.pending_overflow,
        }) && after_flush_step(s, opened) == (LhcCaptureSlotView { pending: Seq::empty(), ..s }),
{
}

/// The first outcome of the opening counts.
pub proof fn first_outcome_counts(
    s: LhcCaptureSlotView,
    first: CaptureStateView,
    second: CaptureStateView,
)
    requires
        s.state is Opening,
        !(first is Opening),
    ensures
        settled_as(s, first) == (LhcCaptureSlotView { state: first, ..s }),
        settled_as(settled_as(s, first), second) == settled_as(s, first),
{
}

/// A thread that stops ends the capture that is in use. Where the capture never
/// opened, what waited is dropped and counted; else nothing is done.
pub proof fn stop_ends_what_is_in_use(s: LhcCaptureSlotView, waited: Option<CaptureStateView>)
    ensures
        ({
            let state = if waited is Some {
                waited->0
            } else {
                s.state
            };
            &&& state matches CaptureStateView::Ready(opened) ==> stop_step_of(s, waited)
                == StopStepView::Shutdown(opened)
            &&& state is Opening ==> stop_step_of(s, waited) == StopStepView::Dropped(
                s.pending.len(),
            ) && after_stop(s, waited).pending.len() == 0
            &&& !(state is Ready) && !(state is Opening) ==> stop_step_of(s, waited)
                == StopStepView::Nothing
            &&& !(state is Opening) ==> after_stop(s, waited).pending == s.pending
        }),
{
}

// ---------------------------------------------------------------------------
// What was served
// ---------------------------------------------------------------------------

proof fn lemma_appended(a: Seq<Seq<char>>, b: Seq<Seq<char>>, x: Seq<char>)
    ensures
        appended(a, b).contains(x) <==> a.contains(x) || b.contains(x),
        appended(a, b).len() >= a.len(),
        appended(a, b).take(a.len() as int) == a,
    decreases b.len(),
{
    if b.len() == 0 {
        assert(a.take(a.len() as int) =~= a);
        assert(!b.contains(x));
    } else {
        let less = b.drop_last();
        let before = appended(a, less);
        lemma_appended(a, less, x);
        assert(less.push(b.last()) =~= b);
        assert(b.contains(x) <==> less.contains(x) || b.last() == x) by {
            if b.contains(x) {
                let i = choose|i: int| 0 <= i < b.len() && b[i] == x;
                if i < less.len() {
                    assert(less[i] == x);
                }
            }
            if less.contains(x) {
                let i = choose|i: int| 0 <= i < less.len() && less[i] == x;
                assert(b[i] == x);
            }
            assert(b[b.len() - 1] == b.last());
        }
        if !before.contains(b.last()) {
            let r = before.push(b.last());
            assert(r.take(a.len() as int) =~= before.take(a.len() as int));
            assert(r[before.len() as int] == b.last());
            if before.contains(x) {
                let i = choose|i: int| 0 <= i < before.len() && before[i] == x;
                assert(r[i] == x);
            }
        }
    }
}

/// A list joined to another holds what either holds, the first as it stands.
pub proof fn joined_lists_hold_both(a: Seq<Seq<char>>, b: Seq<Seq<char>>)
    ensures
        forall|x: Seq<char>| #[trigger] appended(a, b).contains(x) <==> a.contains(x) || b.contains(
            x,
        ),
        appended(a, b).take(a.len() as int) == a,
{
    lemma_appended(a, b, Seq::empty());
    assert forall|x: Seq<char>| #[trigger] appended(a, b).contains(x) <==> a.contains(x)
        || b.contains(x) by {
        lemma_appended(a, b, x);
    }
}

/// Of a list that is too long the newest are kept, and of a short one all.
pub proof fn newest_are_kept(s: Seq<Seq<char>>, max: int)
    requires
        0 <= max,
    ensures
        capped(s, max).len() == (if s.len() < max {
            s.len() as int
        } else {
            max
        }),
        forall|k: int|
            0 <= k < capped(s, max).len() ==> #[trigger] capped(s, max)[k] == s[s.len() - capped(
                s,
                max,
            ).len() + k],
{
}

/// Empty identities are no identities, and all others are kept.
pub proof fn empty_identities_are_dropped(s: Seq<Seq<char>>)
    ensures
        without_empty(s) == s.filter(|x: Seq<char>| x.len() > 0),
    decreases s.len(),
{
    reveal(Seq::filter);
    if s.len() > 0 {
        empty_identities_are_dropped(s.drop_last());
    }
}

/// What is known to be served now is exactly what the new body holds. What was
/// known before stands behind what was known before that.
pub proof fn served_body_is_known(
    s: LhcCaptureSlotView,
    ids: Seq<Seq<char>>,
    digests: Seq<Seq<char>>,
    x: Seq<char>,
)
    ensures
        ({
            let r = served_anew(s, ids, digests);
            &&& r.pinned_ids.contains(x) <==> ids.contains(x)
            &&& r.pinned_digests.contains(x) <==> digests.contains(x)
            &&& appended(s.superseded_ids, s.pinned_ids).len() <= 512 ==> (
            r.superseded_ids.contains(x) <==> s.superseded_ids.contains(x)
                || s.pinned_ids.contains(x))
            &&& appended(s.superseded_digests, s.pinned_digests).len() <= 512 ==> (
            r.superseded_digests.contains(x) <==> s.superseded_digests.contains(x)
                || s.pinned_digests.contains(x))
            &&& r.state == s.state
            &&& r.pending == s.pending
        }),
{
    lemma_appended(Seq::empty(), ids, x);
    lemma_appended(Seq::empty(), digests, x);
    lemma_appended(s.superseded_ids, s.pinned_ids, x);
    lemma_appended(s.superseded_digests, s.pinned_digests, x);
    assert(!Seq::<Seq<char>>::empty().contains(x));
}

} // verus!
