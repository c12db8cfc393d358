//! The worker that captures a conversation, its queue, and the slot that waits
//! for it to open.

use codex_lhc_host::capture::{
    CaptureAction, CaptureCmd, CaptureWorker, PersistJob, PersistStep, SubmitOutcome, TurnBinder,
    TurnTransition, TurnTransitionAction,
};
use codex_lhc_host::capture_intake::{
    drain_acknowledged, durability_of, flush_acknowledged, native_shutdown_result, sends_cleanup,
    shutdown_result, AckOutcome, Admission, CaptureIntake, CaptureShutdownFailure,
    CaptureShutdownResult, CommandKind, Durability, EnqueueOutcome, SendOutcome,
    CAPTURE_QUEUE_CAP, CAPTURE_USER_CAP,
};
use codex_lhc_host::idempotency::{item_digest, OccurrenceTracker};
use codex_lhc_host::install::{
    abort_reason_label, config_changed_commands, identity_of_labels, replay,
    turn_abort_command, turn_end_timing_facts, turn_error_command, turn_start_command,
    turn_stop_command, raw_item_commands, CaptureState, FlushStep, LhcCaptureSlot, LhcStepIndex,
    LhcTurnId, ModelLabels, OpenCapture, OpenFailure, PendingCmd, RetrievalLifecycleError,
    StopStep, PRE_OPEN_CAP, SESSION_DERIVED_CAP,
};
use codex_lhc_host::json::{get_entry, Json};
use codex_lhc_host::mapping::{ModelIdentity, TurnEndFacts};
use codex_lhc_host::protocol::{ContentItem, ResponseItem};
use codex_lhc_host::records::{RawItemProvenance, TokenUsage, TurnRecord, TurnStatus};
use codex_lhc_host::rollout::TurnAbortReason;

fn message(role: &str, text: &str, id: Option<&str>) -> ResponseItem {
    ResponseItem::Message {
        id: id.map(str::to_string),
        role: role.into(),
        content: vec![ContentItem::OutputText { text: text.into() }],
        phase: None,
        internal_chat_message_metadata_passthrough: None,
    }
}

fn prompt(text: &str, id: Option<&str>) -> CaptureCmd {
    CaptureCmd::Persist {
        item: message("user", text, id),
        provenance: RawItemProvenance::UserPrompt,
        step_index: None,
        steer: false,
    }
}

fn output(text: &str, id: Option<&str>) -> CaptureCmd {
    CaptureCmd::Persist {
        item: message("assistant", text, id),
        provenance: RawItemProvenance::ModelOutput,
        step_index: Some(2),
        steer: false,
    }
}

fn usage(n: i64) -> TokenUsage {
    TokenUsage {
        input_tokens: n,
        cached_input_tokens: 0,
        cache_write_input_tokens: 0,
        output_tokens: 0,
        reasoning_output_tokens: 0,
        total_tokens: n,
        codex_rollout_budget_units: None,
    }
}

fn worker() -> CaptureWorker {
    CaptureWorker::new(
        "t",
        OccurrenceTracker::new(),
        ModelIdentity::new("p", "m", "responses"),
    )
}

fn jobs(actions: &[CaptureAction]) -> Vec<&PersistJob> {
    actions
        .iter()
        .filter_map(|a| match a {
            CaptureAction::Persist(job) => Some(job),
            _ => None,
        })
        .collect()
}

fn opened(id: &str) -> TurnTransition {
    TurnTransition {
        action: TurnTransitionAction::Opened,
        turn_id: id.into(),
    }
}

fn turn(id: &str, status: TurnStatus) -> TurnRecord {
    TurnRecord {
        turn_id: id.into(),
        turn_order: 1,
        status,
        member_message_ids: vec![],
        closed_at_event_order: None,
        outcome: None,
        outcome_reason: None,
        started_at: None,
        ended_at: None,
    }
}

#[test]
fn output_waits_for_its_usage() {
    let mut w = worker();
    assert!(w.take_command(output("a", Some("a1"))).is_empty());
    assert!(w.take_command(output("b", Some("a2"))).is_empty());
    let actions = w.take_command(CaptureCmd::ProviderUsage { usage: usage(11) });
    let stored = jobs(&actions);
    assert_eq!(stored.len(), 2);
    assert_eq!(stored[0].item, message("assistant", "a", Some("a1")));
    assert_eq!(stored[1].item, message("assistant", "b", Some("a2")));
    assert_eq!(stored[0].usage, Some(usage(11)));
    assert_eq!(stored[0].step_index, Some(2));
    assert!(w.pending.is_empty());
}

#[test]
fn prompt_goes_behind_what_waits() {
    let mut w = worker();
    w.take_command(output("a", Some("a1")));
    let actions = w.take_command(prompt("q", Some("u1")));
    let stored = jobs(&actions);
    assert_eq!(stored.len(), 2);
    assert_eq!(stored[0].item, message("assistant", "a", Some("a1")));
    assert_eq!(stored[0].usage, None);
    assert_eq!(stored[1].item, message("user", "q", Some("u1")));
}

#[test]
fn waiting_output_keeps_its_model() {
    let mut w = worker();
    w.take_command(output("a", Some("a1")));
    let next = ModelIdentity::new("p2", "m2", "responses");
    let actions = w.take_command(CaptureCmd::SetIdentity {
        identity: next.clone(),
    });
    assert_eq!(
        jobs(&actions)[0].identity,
        ModelIdentity::new("p", "m", "responses")
    );
    assert_eq!(w.identity, next);
}

#[test]
fn change_of_the_model_is_recorded() {
    let mut w = worker();
    let change = |from: &str, to: &str| CaptureCmd::ModelOrThinkingChange {
        previous_model: from.into(),
        new_model: to.into(),
        previous_level: "low".into(),
        new_level: "low".into(),
        provider: None,
        api: None,
    };
    assert!(w.take_command(change("m", "m")).is_empty());
    let actions = w.take_command(change("m", "m2"));
    match &actions[..] {
        [CaptureAction::Submit(events)] => {
            assert_eq!(events.len(), 1);
            assert_eq!(events[0].input.event_kind, "model_change");
        }
        other => panic!("unexpected {other:?}"),
    }
    assert_eq!(w.identity.model.as_deref(), Some("m2"));
}

#[test]
fn commands_are_answered() {
    let mut w = worker();
    w.take_command(output("a", Some("a1")));
    let actions = w.take_command(CaptureCmd::Flush);
    assert_eq!(actions.len(), 2);
    assert!(matches!(actions[1], CaptureAction::Acknowledge));
    let actions = w.take_command(CaptureCmd::DrainSettled);
    assert!(matches!(actions[..], [CaptureAction::AwaitSettled]));
    let actions = w.take_command(CaptureCmd::Shutdown);
    assert!(matches!(actions[..], [CaptureAction::Report]));
    let actions = w.take_command(CaptureCmd::RuntimeNote {
        text: "n".into(),
        key_suffix: "k".into(),
    });
    assert!(matches!(actions[..], [CaptureAction::Submit(_)]));
    let actions = w.take_command(CaptureCmd::TurnEnd {
        turn_id: "u".into(),
        reason: "completed".into(),
        facts: TurnEndFacts::default(),
    });
    match &actions[..] {
        [CaptureAction::Submit(events)] => assert_eq!(
            events[0].input.idempotency_key.as_deref(),
            Some("codex:t:turn_end:u:completed")
        ),
        other => panic!("unexpected {other:?}"),
    }
}

fn job(text: &str, id: Option<&str>, steer: bool) -> PersistJob {
    PersistJob {
        item: message("user", text, id),
        provenance: RawItemProvenance::UserPrompt,
        usage: None,
        step_index: None,
        steer,
        identity: ModelIdentity::new("p", "m", "responses"),
    }
}

#[test]
fn item_is_stored_and_its_turn_bound() {
    let mut w = worker();
    w.take_command(CaptureCmd::BindTurn {
        host_turn_id: "host-1".into(),
    });
    let job = job("q", Some("u1"), false);
    assert!(!job.needs_occurrence_lookup());
    let events = match w.persist_item(&job, None) {
        PersistStep::Submit(events) => events,
        other => panic!("unexpected {other:?}"),
    };
    assert_eq!(events[0].input.event_kind, "user_prompt");
    let step = w.item_submitted(&events, &SubmitOutcome::Stored(vec![opened("t4")]));
    assert!(matches!(step, PersistStep::Done));
    assert_eq!(w.binder.durable_turn_id("host-1").as_deref(), Some("t4"));
    assert_eq!(w.binder.durable_turn_id("host-2"), None);
    assert_eq!(w.report(), CaptureShutdownResult::Persisted);
}

#[test]
fn prompt_that_opened_nothing_asks_for_the_open_turn() {
    let mut w = worker();
    w.take_command(CaptureCmd::BindTurn {
        host_turn_id: "host-1".into(),
    });
    let events = match w.persist_item(&job("q", Some("u1"), false), None) {
        PersistStep::Submit(events) => events,
        other => panic!("unexpected {other:?}"),
    };
    let step = w.item_submitted(&events, &SubmitOutcome::Stored(vec![]));
    assert!(matches!(step, PersistStep::ListTurns));
    w.turns_listed(&vec![
        turn("t1", TurnStatus::Closed),
        turn("t2", TurnStatus::Open),
    ]);
    assert_eq!(w.binder.durable_turn_id("host-1").as_deref(), Some("t2"));
    // A steer joins the turn that is under way.
    let events = match w.persist_item(&job("more", Some("u2"), true), None) {
        PersistStep::Submit(events) => events,
        other => panic!("unexpected {other:?}"),
    };
    assert_eq!(
        get_entry(&events[0].input.payload, "steer"),
        Some(&Json::Bool(true))
    );
    let step = w.item_submitted(&events, &SubmitOutcome::Stored(vec![]));
    assert!(matches!(step, PersistStep::Done));
}

#[test]
fn item_that_cannot_be_looked_up_is_refused() {
    let mut w = worker();
    let anonymous = job("q", None, false);
    assert!(anonymous.needs_occurrence_lookup());
    match w.persist_item(&anonymous, Some("too many rows")) {
        PersistStep::Note(note) => {
            assert_eq!(
                get_entry(&note.input.payload, "text"),
                Some(&Json::Text(
                    "LHC capture degraded after anonymous occurrence listing failure: \
                     too many rows"
                        .to_string()
                ))
            );
        }
        other => panic!("unexpected {other:?}"),
    }
    assert!(w.degraded);
    assert_eq!(
        w.report(),
        CaptureShutdownResult::Failed(CaptureShutdownFailure::PersistenceFailed)
    );
}

#[test]
fn item_without_a_number_left_is_a_failure() {
    let mut w = worker();
    let anonymous = job("q", None, false);
    w.tracker.observe(&item_digest(&anonymous.item), u64::MAX);
    assert!(matches!(
        w.persist_item(&anonymous, None),
        PersistStep::Done
    ));
    assert!(w.failed && !w.degraded);
    // The number of one item says nothing of another.
    let mut w = worker();
    w.tracker.observe(&item_digest(&anonymous.item), u64::MAX);
    assert!(matches!(
        w.persist_item(&job("r", None, false), None),
        PersistStep::Submit(_)
    ));
    assert!(!w.failed);
}

#[test]
fn refused_item_is_reported() {
    let mut w = worker();
    let events = vec![];
    let step = w.item_submitted(
        &events,
        &SubmitOutcome::Refused {
            capture_disabled: false,
        },
    );
    assert!(matches!(step, PersistStep::Done));
    assert!(w.failed && !w.degraded);
    let step = w.item_submitted(
        &events,
        &SubmitOutcome::Refused {
            capture_disabled: true,
        },
    );
    assert!(matches!(step, PersistStep::Note(_)));
    assert!(w.degraded);
    let mut other = worker();
    other.submit_failed();
    assert_eq!(
        other.report(),
        CaptureShutdownResult::Failed(CaptureShutdownFailure::PersistenceFailed)
    );
}

#[test]
fn binder_keeps_to_one_turn() {
    let mut b = TurnBinder::new();
    assert!(!b.observe(&vec![], &vec![opened("t1")]));
    assert_eq!(b.published, None, "no turn of the host to bind");
    b.bind_turn("h1");
    b.observe(&vec![], &vec![opened("t1"), opened("t2")]);
    assert!(b.bound_for("h1"));
    assert_eq!(b.durable_turn_id("h1").as_deref(), Some("t2"));
    b.rebind_turn("h2", "t9");
    assert_eq!(b.durable_turn_id("h1"), None);
    assert_eq!(b.durable_turn_id("h2").as_deref(), Some("t9"));
}

#[test]
fn intake_closes_with_the_first_loss() {
    assert_eq!(CAPTURE_USER_CAP + 1, CAPTURE_QUEUE_CAP);
    let mut g = CaptureIntake::new();
    assert_eq!(g.ask(CommandKind::Persist, 2), Admission::Send);
    match g.ask(CommandKind::Persist, 1) {
        Admission::Lose(Some(note)) => {
            assert_eq!(
                note.text,
                "LHC capture degraded (persist_full); subsequent events dropped \
                 (dropped_count≈1)"
            );
            assert_eq!(note.key_suffix, "degraded-persist_full");
        }
        other => panic!("unexpected {other:?}"),
    }
    assert_eq!(g.ask(CommandKind::Persist, 900), Admission::Refuse);
    assert_eq!(g.dropped, 2);
    assert!(g.degraded);
    assert_eq!(g.sent(CommandKind::TurnEnd, SendOutcome::Full), None);
}

#[test]
fn send_that_fails_is_a_loss() {
    for (kind, outcome, word) in [
        (CommandKind::BindTurn, SendOutcome::Full, "bind_turn_full"),
        (CommandKind::TurnEnd, SendOutcome::Closed, "turn_end_closed"),
        (
            CommandKind::ProviderUsage,
            SendOutcome::Full,
            "provider_usage",
        ),
        (
            CommandKind::SetIdentity,
            SendOutcome::Closed,
            "identity_closed",
        ),
        (CommandKind::ModelChange, SendOutcome::Full, "model_change"),
    ] {
        let mut g = CaptureIntake::new();
        assert_eq!(g.sent(kind, SendOutcome::Sent), None);
        assert!(!g.degraded);
        let note = g.sent(kind, outcome).expect("note");
        assert_eq!(note.key_suffix, format!("degraded-{word}"));
        assert!(g.degraded);
        assert_eq!(g.dropped, 1);
    }
    let mut g = CaptureIntake::new();
    assert_eq!(g.note_drop(), 1);
    assert!(!g.degraded);
    assert!(g.latch_degraded("x").is_some());
    assert!(g.latch_degraded("x").is_none());
}

#[test]
fn silence_is_no_success() {
    let done = || AckOutcome::Answered(CaptureShutdownResult::Persisted);
    assert_eq!(
        shutdown_result(EnqueueOutcome::Sent, done()),
        CaptureShutdownResult::Persisted
    );
    for (enqueue, ack, failure, word) in [
        (
            EnqueueOutcome::Closed,
            done(),
            CaptureShutdownFailure::WorkerClosed,
            "worker_closed",
        ),
        (
            EnqueueOutcome::TimedOut,
            done(),
            CaptureShutdownFailure::EnqueueTimedOut,
            "enqueue_timed_out",
        ),
        (
            EnqueueOutcome::Sent,
            AckOutcome::Dropped,
            CaptureShutdownFailure::AcknowledgementDropped,
            "acknowledgement_dropped",
        ),
        (
            EnqueueOutcome::Sent,
            AckOutcome::TimedOut,
            CaptureShutdownFailure::AcknowledgementTimedOut,
            "acknowledgement_timed_out",
        ),
    ] {
        assert_eq!(
            shutdown_result(enqueue, ack),
            CaptureShutdownResult::Failed(failure)
        );
        assert_eq!(failure.as_str(), word);
        assert_eq!(
            durability_of(CaptureShutdownResult::Failed(failure)),
            Some(Durability::Unknown)
        );
    }
    assert_eq!(
        native_shutdown_result(false, done()),
        CaptureShutdownResult::Failed(CaptureShutdownFailure::RuntimeUnavailable)
    );
    assert_eq!(
        native_shutdown_result(true, done()),
        CaptureShutdownResult::Persisted
    );
    assert_eq!(durability_of(CaptureShutdownResult::Persisted), None);
    assert_eq!(
        durability_of(CaptureShutdownResult::Failed(
            CaptureShutdownFailure::PersistenceFailed
        )),
        Some(Durability::Failed)
    );
    assert!(sends_cleanup(EnqueueOutcome::TimedOut) && !sends_cleanup(EnqueueOutcome::Closed));
    assert!(flush_acknowledged(
        EnqueueOutcome::Sent,
        AckOutcome::Answered(false)
    ));
    assert!(!flush_acknowledged(
        EnqueueOutcome::Closed,
        AckOutcome::Answered(true)
    ));
    assert!(drain_acknowledged(
        EnqueueOutcome::Sent,
        AckOutcome::Answered(true)
    ));
    assert!(!drain_acknowledged(
        EnqueueOutcome::Sent,
        AckOutcome::Answered(false)
    ));
}

/// The provenance of the **current** body is pinned and survives eviction.
#[test]
fn l3_current_body_provenance_survives_cap_pressure() {
    let mut slot = LhcCaptureSlot::new();

    // Enough write-backs to push far past the cap: every *current* body must
    // remain fully protected; only superseded history may be trimmed.
    let rounds = (SESSION_DERIVED_CAP / 5) + 20;
    for round in 0..rounds {
        let ids: Vec<String> = (0..5).map(|i| format!("r{round}-id{i}")).collect();
        let digests: Vec<String> = (0..5).map(|i| format!("r{round}-d{i}")).collect();
        slot.mark_derived_after_writeback(ids.clone(), digests.clone())
            .expect("mark");
        let have = slot.derived_ids();
        for id in &ids {
            assert!(
                have.contains(id),
                "current body id {id} must not be evicted at round {round} \
                 (cap={SESSION_DERIVED_CAP}); have={} ids",
                have.len()
            );
        }
        let digs = slot.derived_digests();
        for d in &digests {
            assert!(
                digs.contains(d),
                "current body digest {d} must not be evicted at round {round}"
            );
        }
    }
}

#[test]
fn l3_durable_reseed_merges_even_when_cache_warm() {
    let mut slot = LhcCaptureSlot::new();
    slot.mark_derived_after_writeback(
        vec!["live-a".into(), "live-b".into()],
        vec!["d-a".into(), "d-b".into()],
    )
    .unwrap();
    assert_ne!(slot.derived_ids().len(), 0);
    // Durable record has additional ids not yet in process cache (crash window).
    slot.ensure_derived_from_durable(
        vec!["durable-x".into(), "live-a".into()],
        vec!["d-x".into()],
    );
    let have = slot.derived_ids();
    assert!(have.contains("live-a"));
    assert!(have.contains("live-b"));
    assert!(
        have.contains("durable-x"),
        "durable reseed must merge even when cache non-empty"
    );
    assert!(slot.derived_digests().contains("d-x"));
}

/// Superseded provenance — and only superseded — is subject to the cap.
#[test]
fn l3_superseded_only_is_capped() {
    let mut slot = LhcCaptureSlot::new();
    // Supersede far more than the cap, then install a small current body.
    let old: Vec<String> = (0..SESSION_DERIVED_CAP + 50)
        .map(|i| format!("old{i}"))
        .collect();
    let old_digests: Vec<String> = (0..SESSION_DERIVED_CAP + 50)
        .map(|i| format!("od{i}"))
        .collect();
    slot.mark_derived_after_writeback(old.clone(), old_digests)
        .unwrap();
    slot.mark_derived_after_writeback(
        vec!["new1".into(), "new2".into()],
        vec!["nd1".into(), "nd2".into()],
    )
    .unwrap();

    let have = slot.derived_ids();
    assert!(
        have.contains("new1") && have.contains("new2"),
        "current body must be pinned"
    );
    let old_retained = old.iter().filter(|id| have.contains(id)).count();
    assert!(
        old_retained <= SESSION_DERIVED_CAP,
        "superseded must be capped at {SESSION_DERIVED_CAP}, retained {old_retained}"
    );
    assert!(
        old_retained < old.len(),
        "fixture: the cap must actually have evicted something \
         ({old_retained} of {} retained)",
        old.len()
    );
}

fn open_at(root: Option<&str>) -> OpenCapture {
    OpenCapture {
        thread_id: "t".into(),
        root: root.map(str::to_string),
    }
}

fn bind(n: usize) -> PendingCmd {
    turn_start_command(&format!("turn-{n}"))
}

#[test]
fn waiting_commands_are_replayed_in_order() {
    let mut slot = LhcCaptureSlot::new();
    assert!(slot.claim_open());
    assert!(!slot.claim_open(), "one opening at a time");
    for n in 0..3 {
        assert_eq!(slot.buffer_or_handle(bind(n)), None);
    }
    let opened = open_at(None);
    match slot.set_and_flush(&opened) {
        FlushStep::Replay { cmds, degrade } => {
            assert!(!degrade);
            let sent = replay(cmds);
            let expected: Vec<CaptureCmd> = (0..3)
                .map(|n| CaptureCmd::BindTurn {
                    host_turn_id: format!("turn-{n}"),
                })
                .collect();
            assert_eq!(sent, expected);
        }
        other => panic!("unexpected {other:?}"),
    }
    assert!(!slot.state().is_settled());
    assert_eq!(
        slot.set_and_flush(&opened),
        FlushStep::Published { degrade: false }
    );
    assert_eq!(slot.state(), CaptureState::Ready(open_at(None)));
    assert_eq!(slot.buffer_or_handle(bind(9)), Some(bind(9)));
    assert_eq!(slot.get(), Some(open_at(None)));
}

#[test]
fn commands_beyond_the_cap_degrade_the_capture() {
    let mut slot = LhcCaptureSlot::new();
    for n in 0..PRE_OPEN_CAP {
        assert_eq!(slot.buffer_or_handle(bind(n)), None);
    }
    let opened = open_at(None);
    match slot.set_and_flush(&opened) {
        FlushStep::Replay { cmds, degrade } => {
            assert_eq!(cmds.len(), PRE_OPEN_CAP);
            assert!(!degrade, "exactly the cap is healthy");
        }
        other => panic!("unexpected {other:?}"),
    }
    let mut slot = LhcCaptureSlot::new();
    for n in 0..PRE_OPEN_CAP + 1 {
        slot.buffer_or_handle(bind(n));
    }
    match slot.set_and_flush(&opened) {
        FlushStep::Replay { cmds, degrade } => {
            assert_eq!(cmds.len(), PRE_OPEN_CAP);
            assert!(degrade);
        }
        other => panic!("unexpected {other:?}"),
    }
}

#[test]
fn settled_slot_stays_as_it_is() {
    let mut slot = LhcCaptureSlot::new();
    assert!(slot.open_failed(OpenFailure::NotOpened));
    assert_eq!(
        slot.state(),
        CaptureState::Failed("capture open failed".into())
    );
    assert!(!slot.publish_ready(open_at(None)));
    assert!(!slot.publish_failed("other"));
    assert_eq!(
        slot.resolve_for_retrieval("/d"),
        Err(RetrievalLifecycleError::OpenFailed)
    );
    assert_eq!(slot.set_and_flush(&open_at(None)), FlushStep::Abandon);
    for (failure, reason) in [
        (
            OpenFailure::ThreadUnavailable,
            "capture open thread unavailable",
        ),
        (
            OpenFailure::RuntimeUnavailable,
            "capture open runtime unavailable",
        ),
        (
            OpenFailure::Abandoned,
            "capture open abandoned before settling",
        ),
    ] {
        assert_eq!(failure.reason(), reason);
    }
}

#[test]
fn stopping_an_open_capture_ends_it() {
    let mut slot = LhcCaptureSlot::new();
    assert!(slot.publish_ready(open_at(Some("/r"))));
    let found = slot.resolve_for_retrieval("/default").expect("live");
    assert_eq!((found.thread_id.as_str(), found.root.as_str()), ("t", "/r"));
    let state = slot.state();
    assert_eq!(
        slot.apply_thread_stop(Some(state)),
        StopStep::Shutdown(open_at(Some("/r")))
    );
    assert_eq!(slot.state(), CaptureState::Stopped);
    assert_eq!(
        slot.resolve_for_retrieval("/default"),
        Err(RetrievalLifecycleError::Shutdown)
    );
    assert_eq!(slot.apply_thread_stop(None), StopStep::Nothing);
}

#[test]
fn stop_that_waited_in_vain_goes_by_what_it_finds() {
    // Still opening: what waits is lost, and a late opening is closed again.
    let mut slot = LhcCaptureSlot::new();
    slot.buffer_or_handle(bind(0));
    slot.buffer_or_handle(bind(1));
    assert_eq!(
        slot.resolve_for_retrieval("/d"),
        Err(RetrievalLifecycleError::NotOpen)
    );
    assert_eq!(slot.apply_thread_stop(None), StopStep::Dropped(2));
    assert_eq!(slot.set_and_flush(&open_at(None)), FlushStep::Abandon);
    // Opened in the meantime: it is ended.
    let mut slot = LhcCaptureSlot::new();
    slot.publish_ready(open_at(None));
    assert_eq!(
        slot.apply_thread_stop(None),
        StopStep::Shutdown(open_at(None))
    );
    let mut slot = LhcCaptureSlot::new();
    slot.buffer_or_handle(bind(0));
    assert_eq!(slot.stop_and_drop_pending(), 1);
    assert_eq!(slot.state(), CaptureState::Stopped);
    let mut slot = LhcCaptureSlot::new();
    slot.publish_stopped();
    assert!(slot.state().is_settled());
    assert_eq!(
        slot.resolve_for_retrieval("/d").map_err(|e| e.message()),
        Err(RetrievalLifecycleError::Shutdown.message())
    );
}

#[test]
fn default_root_stands_in_for_none() {
    let mut slot = LhcCaptureSlot::new();
    slot.publish_ready(open_at(None));
    let found = slot.resolve_for_retrieval("/default").expect("live");
    assert_eq!(found.root, "/default");
}

#[test]
fn slot_remembers_a_vain_compact() {
    let mut slot = LhcCaptureSlot::new();
    slot.record_mid_turn_hysteresis("a1", 100_000, false, "no_reduction");
    assert!(!slot
        .mid_turn_hysteresis()
        .should_attempt_after_no_reduction(100_000));
    slot.clear_mid_turn_hysteresis("a2", 100_000, "done");
    assert!(slot
        .mid_turn_hysteresis()
        .should_attempt_after_no_reduction(100_000));
}

#[test]
fn cycles_count_from_zero() {
    let mut step = None;
    assert_eq!(LhcStepIndex::current(step.as_ref()), None);
    LhcStepIndex::begin_cycle(&mut step);
    assert_eq!(LhcStepIndex::current(step.as_ref()), Some(0));
    LhcStepIndex::begin_cycle(&mut step);
    assert_eq!(LhcStepIndex::current(step.as_ref()), Some(1));
}

#[test]
fn end_of_a_turn_tells_its_times() {
    let facts = turn_end_timing_facts(Some("completed"), None, Some(0), Some(1_782_907_204));
    assert_eq!(facts.started_at.as_deref(), Some("1970-01-01T00:00:00.000Z"));
    assert_eq!(facts.ended_at.as_deref(), Some("2026-07-01T12:00:04.000Z"));
    match turn_stop_command(Some(&LhcTurnId("u".into())), None, None) {
        PendingCmd::TurnEnd {
            turn_id,
            reason,
            facts,
        } => {
            assert_eq!((turn_id.as_str(), reason.as_str()), ("u", "completed"));
            assert_eq!(facts.outcome, Some("completed"));
            assert_eq!(facts.started_at, None);
        }
        other => panic!("unexpected {other:?}"),
    }
    match turn_abort_command(None, &TurnAbortReason::Replaced, None, None) {
        PendingCmd::TurnEnd {
            turn_id,
            reason,
            facts,
        } => {
            assert_eq!((turn_id.as_str(), reason.as_str()), ("unknown", "aborted"));
            assert_eq!(facts.outcome_reason.as_deref(), Some("replaced"));
        }
        other => panic!("unexpected {other:?}"),
    }
    match turn_error_command("u", "boom") {
        PendingCmd::TurnEnd { reason, facts, .. } => {
            assert_eq!(reason, "error");
            assert_eq!(facts.outcome, Some("aborted"));
            assert_eq!(facts.outcome_reason.as_deref(), Some("boom"));
        }
        other => panic!("unexpected {other:?}"),
    }
    assert_eq!(
        abort_reason_label(&TurnAbortReason::ReviewEnded),
        "review_ended"
    );
}

#[test]
fn prompt_within_a_run_is_a_steer() {
    let items = vec![message("user", "q", None)];
    for (step, steer) in [(None, false), (Some(0), true)] {
        match &raw_item_commands(&items, RawItemProvenance::UserPrompt, step)[..] {
            [PendingCmd::Persist { steer: s, .. }] => assert_eq!(*s, steer),
            other => panic!("unexpected {other:?}"),
        }
    }
    match &raw_item_commands(&items, RawItemProvenance::ModelOutput, Some(1))[..] {
        [PendingCmd::Persist { steer, .. }] => assert!(!steer),
        other => panic!("unexpected {other:?}"),
    }
}

#[test]
fn identity_precedes_the_change() {
    let labels = |model: &str, provider: &str, level: &str| ModelLabels {
        model: model.into(),
        provider: provider.into(),
        thinking_level: level.into(),
    };
    let before = labels("m", "p", "low");
    assert!(config_changed_commands(&before, &labels("m", "p", "low")).is_empty());
    let both = config_changed_commands(&before, &labels("m2", "p", "low"));
    assert_eq!(both.len(), 2);
    assert_eq!(both[0].kind(), CommandKind::SetIdentity);
    assert_eq!(both[1].kind(), CommandKind::ModelChange);
    let provider_only = config_changed_commands(&before, &labels("m", "p2", "low"));
    assert_eq!(
        provider_only,
        vec![PendingCmd::SetIdentity {
            identity: identity_of_labels(&labels("m", "p2", "low"))
        }]
    );
    let level_only = config_changed_commands(&before, &labels("m", "p", "high"));
    assert_eq!(level_only.len(), 1);
    assert_eq!(level_only[0].kind(), CommandKind::ModelChange);
}
