//! Who gets into a capture, and what is said of what does not.

use vstd::prelude::*;
use vstd::string::*;

use crate::capture_intake::{
    admitted, closed_word, full_word, intake_after_asking, latched, lost_one, native_shutdown_seen,
    note_after_sending, shutdown_seen, AckOutcome, AdmissionView, CaptureIntake,
    CaptureShutdownFailure, CaptureShutdownResult, CommandKind, DegradedNoteView, EnqueueOutcome,
    SendOutcome,
};
use crate::text::decimal;

verus! {

/// An intake that is open lets every command in while more than one place is free.
/// The last place is kept for what binds a turn or names the model. A closed intake
/// lets nothing in.
pub proof fn commands_get_in_while_there_is_room(g: CaptureIntake, kind: CommandKind, free: usize)
    ensures
        ({
            let may_fill = kind is BindTurn || kind is SetIdentity;
            &&& admitted(g, kind, free) is Send <==> !g.degraded && (free > 1 || may_fill)
            &&& admitted(g, kind, free) is Refuse <==> g.degraded
            &&& admitted(g, kind, free) is Lose <==> !g.degraded && free <= 1 && !may_fill
            &&& admitted(g, kind, free) is Send ==> intake_after_asking(g, kind, free) == g
        }),
{
}

/// A count of losses, with one more.
pub open spec fn one_more(n: u64) -> u64 {
    if n == u64::MAX {
        n
    } else {
        (n + 1) as u64
    }
}

/// A command without a place is lost, counted, and closes the intake, and a note
/// says what was lost and how much so far. A command that finds the intake closed
/// is counted where it would have stored an item or bound a turn.
pub proof fn losses_are_counted(g: CaptureIntake, kind: CommandKind, free: usize)
    ensures
        ({
            let r = intake_after_asking(g, kind, free);
            &&& admitted(g, kind, free) matches AdmissionView::Lose(note) ==> {
                &&& r.degraded
                &&& r.dropped == one_more(g.dropped)
                &&& note == Some(
                    DegradedNoteView {
                        text: "LHC capture degraded ("@ + full_word(kind)
                            + "); subsequent events dropped (dropped_count≈"@ + decimal(
                            one_more(g.dropped) as nat,
                        ) + ")"@,
                        key_suffix: "degraded-"@ + full_word(kind),
                    },
                )
            }
            &&& admitted(g, kind, free) is Refuse ==> r.degraded && r.dropped == (if kind is Persist
                || kind is BindTurn {
                one_more(g.dropped)
            } else {
                g.dropped
            })
        }),
{
}

/// A command that was sent and lost is told once: the note says whether the queue
/// was full or the worker gone. One that arrived is not told.
pub proof fn lost_commands_are_told_once(
    g: CaptureIntake,
    kind: CommandKind,
    outcome: SendOutcome,
    other: SendOutcome,
)
    ensures
        outcome is Sent ==> note_after_sending(g, kind, outcome) is None,
        g.degraded ==> note_after_sending(g, kind, outcome) is None,
        !g.degraded && outcome is Full ==> note_after_sending(g, kind, outcome) is Some
            && note_after_sending(g, kind, outcome)->0.key_suffix == "degraded-"@ + full_word(kind),
        !g.degraded && outcome is Closed ==> note_after_sending(g, kind, outcome) is Some
            && note_after_sending(g, kind, outcome)->0.key_suffix == "degraded-"@ + closed_word(
            kind,
        ),
        note_after_sending(latched(g), kind, other) is None,
        latched(g).degraded,
        latched(g).dropped == one_more(g.dropped),
        lost_one(g).degraded == g.degraded,
{
}

/// Each loss has a word of its own.
pub proof fn losses_have_their_own_words(kind: CommandKind)
    ensures
        kind is Persist ==> full_word(kind) == "persist_full"@ && closed_word(kind)
            == "persist_closed"@,
        kind is BindTurn ==> full_word(kind) == "bind_turn_full"@ && closed_word(kind)
            == "bind_turn_closed"@,
        kind is TurnEnd ==> full_word(kind) == "turn_end"@ && closed_word(kind)
            == "turn_end_closed"@,
        kind is ProviderUsage ==> full_word(kind) == "provider_usage"@ && closed_word(kind)
            == "provider_usage_closed"@,
        kind is SetIdentity ==> full_word(kind) == "identity_full"@ && closed_word(kind)
            == "identity_closed"@,
        kind is ModelChange ==> full_word(kind) == "model_change"@ && closed_word(kind)
            == "model_change_closed"@,
{
}

/// How a capture ended is what its worker said where it was asked and answered, and
/// else why it did not.
pub proof fn ends_are_what_the_worker_said(
    enqueue: EnqueueOutcome,
    ack: AckOutcome<CaptureShutdownResult>,
)
    ensures
        enqueue is Sent && ack is Answered ==> shutdown_seen(enqueue, ack) == ack->Answered_0,
        enqueue is Sent && ack is Dropped ==> shutdown_seen(enqueue, ack)
            == CaptureShutdownResult::Failed(CaptureShutdownFailure::AcknowledgementDropped),
        enqueue is Sent && ack is TimedOut ==> shutdown_seen(enqueue, ack)
            == CaptureShutdownResult::Failed(CaptureShutdownFailure::AcknowledgementTimedOut),
        enqueue is Closed ==> shutdown_seen(enqueue, ack) == CaptureShutdownResult::Failed(
            CaptureShutdownFailure::WorkerClosed,
        ),
        enqueue is TimedOut ==> shutdown_seen(enqueue, ack) == CaptureShutdownResult::Failed(
            CaptureShutdownFailure::EnqueueTimedOut,
        ),
        native_shutdown_seen(true, ack) == shutdown_seen(EnqueueOutcome::Sent, ack),
        native_shutdown_seen(false, ack) == CaptureShutdownResult::Failed(
            CaptureShutdownFailure::RuntimeUnavailable,
        ),
{
}

} // verus!
