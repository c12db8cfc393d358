//! What may enter the queue of a capture, and what its end is called.
//!
//! A record with gaps is worth nothing. So the first thing that is lost closes
//! the intake for good, and says so in a place that was kept free for it.

use vstd::prelude::*;
use vstd::string::*;

use crate::text::{decimal, decimal_text, text};

verus! {

/// How many commands the queue holds.
pub const CAPTURE_QUEUE_CAP: usize = 1024;

/// How many of them ordinary commands may fill; the last place is kept free for
/// the note that says what was lost.
pub const CAPTURE_USER_CAP: usize = 1023;

// ---------------------------------------------------------------------------
// Shutdown
// ---------------------------------------------------------------------------

/// Why it is not known that everything was stored.
#[derive(Debug, Clone, Copy, PartialEq, Eq, Structural)]
pub enum CaptureShutdownFailure {
    /// The queue stayed full.
    EnqueueTimedOut,
    /// There is no worker any more.
    WorkerClosed,
    /// The worker did not answer in time.
    AcknowledgementTimedOut,
    /// The worker ended without an answer.
    AcknowledgementDropped,
    /// The worker says that something was not stored.
    PersistenceFailed,
    /// There is nothing to run the shutdown on.
    RuntimeUnavailable,
}

/// The word for a failure.
pub open spec fn failure_word(f: CaptureShutdownFailure) -> Seq<char> {
    match f {
        CaptureShutdownFailure::EnqueueTimedOut => "enqueue_timed_out"@,
        CaptureShutdownFailure::WorkerClosed => "worker_closed"@,
        CaptureShutdownFailure::AcknowledgementTimedOut => "acknowledgement_timed_out"@,
        CaptureShutdownFailure::AcknowledgementDropped => "acknowledgement_dropped"@,
        CaptureShutdownFailure::PersistenceFailed => "persistence_failed"@,
        CaptureShutdownFailure::RuntimeUnavailable => "runtime_unavailable"@,
    }
}

impl CaptureShutdownFailure {
    /// The word for the failure.
    pub fn as_str(self) -> (r: &'static str)
        ensures
            r@ == failure_word(self),
    {
        match self {
            CaptureShutdownFailure::EnqueueTimedOut => "enqueue_timed_out",
            CaptureShutdownFailure::WorkerClosed => "worker_closed",
            CaptureShutdownFailure::AcknowledgementTimedOut => "acknowledgement_timed_out",
            CaptureShutdownFailure::AcknowledgementDropped => "acknowledgement_dropped",
            CaptureShutdownFailure::PersistenceFailed => "persistence_failed",
            CaptureShutdownFailure::RuntimeUnavailable => "runtime_unavailable",
        }
    }
}

/// How a capture ended.
#[derive(Debug, Clone, Copy, PartialEq, Eq, Structural)]
pub enum CaptureShutdownResult {
    /// Everything that was accepted is stored.
    Persisted,
    /// That is not known.
    Failed(CaptureShutdownFailure),
}

/// What became of a command that was to enter the queue.
#[derive(Debug, Clone, Copy, PartialEq, Eq, Structural)]
pub enum EnqueueOutcome {
    Sent,
    Closed,
    TimedOut,
}

/// What became of the answer to a command.
#[derive(Debug, PartialEq, Eq, Structural)]
pub enum AckOutcome<T> {
    Answered(T),
    Dropped,
    TimedOut,
}

/// How a capture ended, seen from outside.
pub open spec fn shutdown_seen(
    enqueue: EnqueueOutcome,
    ack: AckOutcome<CaptureShutdownResult>,
) -> CaptureShutdownResult {
    match enqueue {
        EnqueueOutcome::Closed => CaptureShutdownResult::Failed(
            CaptureShutdownFailure::WorkerClosed,
        ),
        EnqueueOutcome::TimedOut => CaptureShutdownResult::Failed(
            CaptureShutdownFailure::EnqueueTimedOut,
        ),
        EnqueueOutcome::Sent => match ack {
            AckOutcome::Answered(result) => result,
            AckOutcome::Dropped => CaptureShutdownResult::Failed(
                CaptureShutdownFailure::AcknowledgementDropped,
            ),
            AckOutcome::TimedOut => CaptureShutdownResult::Failed(
                CaptureShutdownFailure::AcknowledgementTimedOut,
            ),
        },
    }
}

/// How a capture ended, seen from outside: what the worker said, or why it said
/// nothing. The answer counts only where the command was sent.
pub fn shutdown_result(enqueue: EnqueueOutcome, ack: AckOutcome<CaptureShutdownResult>) -> (r:
    CaptureShutdownResult)
    ensures
        r == shutdown_seen(enqueue, ack),
{
    match enqueue {
        EnqueueOutcome::Closed => CaptureShutdownResult::Failed(
            CaptureShutdownFailure::WorkerClosed,
        ),
        EnqueueOutcome::TimedOut => CaptureShutdownResult::Failed(
            CaptureShutdownFailure::EnqueueTimedOut,
        ),
        EnqueueOutcome::Sent => match ack {
            AckOutcome::Answered(result) => result,
            AckOutcome::Dropped => CaptureShutdownResult::Failed(
                CaptureShutdownFailure::AcknowledgementDropped,
            ),
            AckOutcome::TimedOut => CaptureShutdownResult::Failed(
                CaptureShutdownFailure::AcknowledgementTimedOut,
            ),
        },
    }
}

/// How a capture ended, seen from the thread on which the host waits for it.
pub open spec fn native_shutdown_seen(
    spawned: bool,
    reply: AckOutcome<CaptureShutdownResult>,
) -> CaptureShutdownResult {
    if !spawned {
        CaptureShutdownResult::Failed(CaptureShutdownFailure::RuntimeUnavailable)
    } else {
        shutdown_seen(EnqueueOutcome::Sent, reply)
    }
}

/// How a capture ended, seen from the thread on which the host waits for it.
/// `spawned` says whether there was a thread to end it on.
pub fn native_shutdown_result(spawned: bool, reply: AckOutcome<CaptureShutdownResult>) -> (r:
    CaptureShutdownResult)
    ensures
        r == native_shutdown_seen(spawned, reply),
{
    if !spawned {
        return CaptureShutdownResult::Failed(CaptureShutdownFailure::RuntimeUnavailable);
    }
    shutdown_result(EnqueueOutcome::Sent, reply)
}

/// What is known of the record of a capture that ended without success.
#[derive(Debug, Clone, Copy, PartialEq, Eq, Structural)]
pub enum Durability {
    /// It has a gap.
    Failed,
    /// Nothing.
    Unknown,
}

/// What is known of the record of a capture, when it is not known to be whole.
pub fn durability_of(result: CaptureShutdownResult) -> (r: Option<Durability>)
    ensures
        r == (match result {
            CaptureShutdownResult::Persisted => None::<Durability>,
            CaptureShutdownResult::Failed(f) => Some(
                if f == CaptureShutdownFailure::PersistenceFailed {
                    Durability::Failed
                } else {
                    Durability::Unknown
                },
            ),
        }),
{
    match result {
        CaptureShutdownResult::Persisted => None,
        CaptureShutdownResult::Failed(CaptureShutdownFailure::PersistenceFailed) => Some(
            Durability::Failed,
        ),
        CaptureShutdownResult::Failed(_) => Some(Durability::Unknown),
    }
}

/// Whether one more command to end is sent without waiting for an answer: only
/// where the first found no place, so that the worker does not live on.
pub fn sends_cleanup(enqueue: EnqueueOutcome) -> (r: bool)
    ensures
        r == (enqueue == EnqueueOutcome::TimedOut),
{
    match enqueue {
        EnqueueOutcome::TimedOut => true,
        _ => false,
    }
}

/// Whether a flush is known to be done: only when the worker said so.
pub fn flush_acknowledged(enqueue: EnqueueOutcome, ack: AckOutcome<bool>) -> (r: bool)
    ensures
        r == (enqueue == EnqueueOutcome::Sent && ack is Answered),
{
    match (enqueue, ack) {
        (EnqueueOutcome::Sent, AckOutcome::Answered(_)) => true,
        _ => false,
    }
}

/// Whether a thread is known to have settled: only when the worker said that it
/// has.
pub fn drain_acknowledged(enqueue: EnqueueOutcome, ack: AckOutcome<bool>) -> (r: bool)
    ensures
        r == (enqueue == EnqueueOutcome::Sent && ack == AckOutcome::Answered(true)),
{
    match (enqueue, ack) {
        (EnqueueOutcome::Sent, AckOutcome::Answered(settled)) => settled,
        _ => false,
    }
}

// ---------------------------------------------------------------------------
// The intake
// ---------------------------------------------------------------------------

/// The commands that a host sends to a capture.
#[derive(Debug, Clone, Copy, PartialEq, Eq, Structural)]
pub enum CommandKind {
    Persist,
    BindTurn,
    TurnEnd,
    ProviderUsage,
    SetIdentity,
    ModelChange,
}

/// What became of a command that was sent without waiting.
#[derive(Debug, Clone, Copy, PartialEq, Eq, Structural)]
pub enum SendOutcome {
    Sent,
    Full,
    Closed,
}

/// The command must leave the last place of the queue free.
pub open spec fn leaves_a_place(kind: CommandKind) -> bool {
    !(kind is BindTurn || kind is SetIdentity)
}

/// A command that is refused because the intake is closed counts as lost.
pub open spec fn counts_refusals(kind: CommandKind) -> bool {
    kind is Persist || kind is BindTurn
}

/// The word for the loss of a command that found no place.
pub open spec fn full_word(kind: CommandKind) -> Seq<char> {
    match kind {
        CommandKind::Persist => "persist_full"@,
        CommandKind::BindTurn => "bind_turn_full"@,
        CommandKind::TurnEnd => "turn_end"@,
        CommandKind::ProviderUsage => "provider_usage"@,
        CommandKind::SetIdentity => "identity_full"@,
        CommandKind::ModelChange => "model_change"@,
    }
}

/// The word for the loss of a command that found no worker.
pub open spec fn closed_word(kind: CommandKind) -> Seq<char> {
    match kind {
        CommandKind::Persist => "persist_closed"@,
        CommandKind::BindTurn => "bind_turn_closed"@,
        CommandKind::TurnEnd => "turn_end_closed"@,
        CommandKind::ProviderUsage => "provider_usage_closed"@,
        CommandKind::SetIdentity => "identity_closed"@,
        CommandKind::ModelChange => "model_change_closed"@,
    }
}

impl CommandKind {
    fn keeps_free(self) -> (r: bool)
        ensures
            r == leaves_a_place(self),
    {
        match self {
            CommandKind::BindTurn => false,
            CommandKind::SetIdentity => false,
            _ => true,
        }
    }

    fn counts(self) -> (r: bool)
        ensures
            r == counts_refusals(self),
    {
        match self {
            CommandKind::Persist => true,
            CommandKind::BindTurn => true,
            _ => false,
        }
    }

    fn when_full(self) -> (r: &'static str)
        ensures
            r@ == full_word(self),
    {
        match self {
            CommandKind::Persist => "persist_full",
            CommandKind::BindTurn => "bind_turn_full",
            CommandKind::TurnEnd => "turn_end",
            CommandKind::ProviderUsage => "provider_usage",
            CommandKind::SetIdentity => "identity_full",
            CommandKind::ModelChange => "model_change",
        }
    }

    fn when_closed(self) -> (r: &'static str)
        ensures
            r@ == closed_word(self),
    {
        match self {
            CommandKind::Persist => "persist_closed",
            CommandKind::BindTurn => "bind_turn_closed",
            CommandKind::TurnEnd => "turn_end_closed",
            CommandKind::ProviderUsage => "provider_usage_closed",
            CommandKind::SetIdentity => "identity_closed",
            CommandKind::ModelChange => "model_change_closed",
        }
    }
}

/// The intake before the queue of a capture.
#[derive(Debug, Clone, Copy, PartialEq, Eq, Structural)]
pub struct CaptureIntake {
    /// How many commands were lost.
    pub dropped: u64,
    /// Whether something was lost, so that nothing is accepted any more.
    pub degraded: bool,
}

/// The note that says what was lost.
#[derive(Debug, PartialEq, Eq)]
pub struct DegradedNote {
    pub text: String,
    pub key_suffix: String,
}

/// What a [`DegradedNote`] stands for.
#[verifier::ext_equal]
pub struct DegradedNoteView {
    pub text: Seq<char>,
    pub key_suffix: Seq<char>,
}

impl View for DegradedNote {
    type V = DegradedNoteView;

    open spec fn view(&self) -> DegradedNoteView {
        DegradedNoteView { text: self.text@, key_suffix: self.key_suffix@ }
    }
}

impl DeepView for DegradedNote {
    type V = DegradedNoteView;

    open spec fn deep_view(&self) -> DegradedNoteView {
        self@
    }
}

/// The intake behind one more loss.
pub open spec fn lost_one(g: CaptureIntake) -> CaptureIntake {
    CaptureIntake {
        dropped: if g.dropped == u64::MAX {
            u64::MAX
        } else {
            (g.dropped + 1) as u64
        },
        degraded: g.degraded,
    }
}

/// The intake closed behind a loss.
pub open spec fn latched(g: CaptureIntake) -> CaptureIntake {
    CaptureIntake { degraded: true, ..lost_one(g) }
}

/// The note about the loss that closes an intake; none where it is closed.
pub open spec fn latch_note(g: CaptureIntake, kind: Seq<char>) -> Option<DegradedNoteView> {
    if g.degraded {
        None
    } else {
        Some(
            DegradedNoteView {
                text: "LHC capture degraded ("@ + kind
                    + "); subsequent events dropped (dropped_count≈"@ + decimal(
                    lost_one(g).dropped as nat,
                ) + ")"@,
                key_suffix: "degraded-"@ + kind,
            },
        )
    }
}

/// What the intake says to a command.
#[derive(Debug, PartialEq, Eq)]
pub enum Admission {
    /// It may be sent.
    Send,
    /// It is refused: the intake is closed.
    Refuse,
    /// It is lost, and the intake closes. The note, if there is one, is to be sent.
    Lose(Option<DegradedNote>),
}

/// What an [`Admission`] stands for.
#[verifier::ext_equal]
pub enum AdmissionView {
    Send,
    Refuse,
    Lose(Option<DegradedNoteView>),
}

impl View for Admission {
    type V = AdmissionView;

    open spec fn view(&self) -> AdmissionView {
        match self {
            Admission::Send => AdmissionView::Send,
            Admission::Refuse => AdmissionView::Refuse,
            Admission::Lose(note) => AdmissionView::Lose(note.deep_view()),
        }
    }
}

/// What the intake says to a command, `free` being the places that are left in the
/// queue.
pub open spec fn admitted(g: CaptureIntake, kind: CommandKind, free: usize) -> AdmissionView {
    if g.degraded {
        AdmissionView::Refuse
    } else if leaves_a_place(kind) && free <= 1 {
        AdmissionView::Lose(latch_note(g, full_word(kind)))
    } else {
        AdmissionView::Send
    }
}

/// The intake behind a command that asked to enter.
pub open spec fn intake_after_asking(
    g: CaptureIntake,
    kind: CommandKind,
    free: usize,
) -> CaptureIntake {
    if g.degraded {
        if counts_refusals(kind) {
            lost_one(g)
        } else {
            g
        }
    } else if leaves_a_place(kind) && free <= 1 {
        latched(g)
    } else {
        g
    }
}

/// The note about a command that was sent, when it was lost.
pub open spec fn note_after_sending(g: CaptureIntake, kind: CommandKind, outcome: SendOutcome) ->
    Option<DegradedNoteView> {
    match outcome {
        SendOutcome::Sent => None,
        SendOutcome::Full => latch_note(g, full_word(kind)),
        SendOutcome::Closed => latch_note(g, closed_word(kind)),
    }
}

impl CaptureIntake {
    /// An open intake.
    pub fn new() -> (r: Self)
        ensures
            r == (CaptureIntake { dropped: 0, degraded: false }),
    {
        CaptureIntake { dropped: 0, degraded: false }
    }

    /// Counts a loss.
    pub fn note_drop(&mut self) -> (r: u64)
        ensures
            *final(self) == lost_one(*old(self)),
            r == final(self).dropped,
    {
        if self.dropped < u64::MAX {
            self.dropped = self.dropped + 1;
        }
        self.dropped
    }

    /// Counts a loss and closes the intake. The first loss gives a note.
    pub fn latch_degraded(&mut self, kind: &str) -> (r: Option<DegradedNote>)
        ensures
            *final(self) == latched(*old(self)),
            r.deep_view() == latch_note(*old(self), kind@),
    {
        let n: u64 = self.note_drop();
        if self.degraded {
            return None;
        }
        self.degraded = true;
        let mut s = text("LHC capture degraded (");
        s.append(kind);
        s.append("); subsequent events dropped (dropped_count≈");
        s.append(decimal_text(n as u128).as_str());
        s.append(")");
        let mut key_suffix = text("degraded-");
        key_suffix.append(kind);
        Some(DegradedNote { text: s, key_suffix })
    }

    /// Whether a command may be sent, `free` being the places that are left in
    /// the queue.
    pub fn ask(&mut self, kind: CommandKind, free: usize) -> (r: Admission)
        ensures
            r@ == admitted(*old(self), kind, free),
            *final(self) == intake_after_asking(*old(self), kind, free),
    {
        if self.degraded {
            if kind.counts() {
                self.note_drop();
            }
            return Admission::Refuse;
        }
        if kind.keeps_free() && free <= 1 {
            return Admission::Lose(self.latch_degraded(kind.when_full()));
        }
        Admission::Send
    }

    /// Takes down what became of a command that was sent. Where it was lost, the
    /// intake closes, and the note, if there is one, is to be sent.
    pub fn sent(&mut self, kind: CommandKind, outcome: SendOutcome) -> (r: Option<DegradedNote>)
        ensures
            r.deep_view() == note_after_sending(*old(self), kind, outcome),
            *final(self) == (if outcome is Sent {
                *old(self)
            } else {
                latched(*old(self))
            }),
    {
        match outcome {
            SendOutcome::Sent => None,
            SendOutcome::Full => self.latch_degraded(kind.when_full()),
            SendOutcome::Closed => self.latch_degraded(kind.when_closed()),
        }
    }
}

impl Default for CaptureIntake {
    fn default() -> (r: Self)
        ensures
            r == (CaptureIntake { dropped: 0, degraded: false }),
    {
        CaptureIntake::new()
    }
}

// ---------------------------------------------------------------------------
// Laws
// ---------------------------------------------------------------------------

/// An intake that closed stays closed, and nothing is sent through it.
pub proof fn closed_intake_stays_closed(
    g: CaptureIntake,
    kind: CommandKind,
    free: usize,
    outcome: SendOutcome,
)
    requires
        g.degraded,
    ensures
        admitted(g, kind, free) == AdmissionView::Refuse,
        intake_after_asking(g, kind, free).degraded,
        latched(g).degraded,
        note_after_sending(g, kind, outcome) is None,
{
}

/// Whatever is lost closes the intake: behind a loss nothing is accepted, so that
/// the record has one gap, at its end.
pub proof fn loss_closes_the_intake(g: CaptureIntake, kind: CommandKind, free: usize)
    ensures
        admitted(g, kind, free) is Lose ==> intake_after_asking(g, kind, free).degraded,
        admitted(g, kind, free) is Send <==> (!g.degraded && (leaves_a_place(kind) ==> free > 1)),
        latched(g).degraded,
{
}

/// Of all losses exactly the first gives a note.
pub proof fn only_the_first_loss_is_noted(g: CaptureIntake, first: Seq<char>, second: Seq<char>)
    ensures
        latch_note(g, first) is Some <==> !g.degraded,
        latch_note(latched(g), second) is None,
{
}

/// Ordinary commands leave the place for the note: where one is sent, a place
/// is still free behind it.
pub proof fn place_for_the_note_is_kept(g: CaptureIntake, kind: CommandKind, free: usize)
    requires
        leaves_a_place(kind),
        admitted(g, kind, free) is Send,
    ensures
        free - 1 >= 1,
{
}

/// Only the worker's own word counts as stored.
pub proof fn silence_is_no_success(
    enqueue: EnqueueOutcome,
    ack: AckOutcome<CaptureShutdownResult>,
)
    ensures
        shutdown_seen(enqueue, ack) is Persisted <==> (enqueue is Sent && ack
            == AckOutcome::Answered(CaptureShutdownResult::Persisted)),
{
}

} // verus!
