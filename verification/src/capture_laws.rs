//! What the worker of a capture stores for each command, and what it says of it.

use vstd::prelude::*;
use vstd::string::*;

use crate::capture::{
    after_batch, after_begin, after_command, after_submit, after_turns, begun, command_actions,
    dressed, events_of_job, is_opening_prompt, last_opened, must_ask, open_turn, reported,
    submitted, CaptureActionView, CaptureCmdView, CaptureWorkerView, PendingOutputView,
    PersistJobView, PersistStepView, SubmitOutcomeView, TurnBinderView, TurnBindingView,
    TurnTransitionAction, TurnTransitionView,
};
use crate::capture_intake::{CaptureShutdownFailure, CaptureShutdownResult};
use crate::coverage_laws::own_id;
use crate::idempotency::digest_of;
use crate::json::{entry, JsonView};
use crate::mapping::{
    change_events, item_events, runtime_note_event, turn_end_event, usage_entries, EventView,
    ItemKey, ModelIdentityView,
};
use crate::mapping_laws::what_goes_with_an_event;
use crate::protocol::ResponseItemView;
use crate::records::{RawItemProvenance, TokenUsageView, TurnRecordView, TurnStatus};

verus! {

// ---------------------------------------------------------------------------
// Commands
// ---------------------------------------------------------------------------

/// The actions begin by storing all output that waits, in the order in which it
/// came: as output of the model that is live, each with its own step and with the
/// usage that is given.
pub open spec fn stores_what_waits(
    w: CaptureWorkerView,
    actions: Seq<CaptureActionView>,
    usage: Option<TokenUsageView>,
) -> bool {
    &&& actions.len() >= w.pending.len()
    &&& forall|k: int|
        0 <= k < w.pending.len() ==> #[trigger] actions[k] == CaptureActionView::Persist(
            PersistJobView {
                item: w.pending[k].item,
                provenance: RawItemProvenance::ModelOutput,
                usage,
                step_index: w.pending[k].step_index,
                steer: false,
                identity: w.identity,
            },
        )
}

/// Output of the model waits, and does nothing yet.
pub proof fn model_output_waits(
    w: CaptureWorkerView,
    item: ResponseItemView,
    step_index: Option<i64>,
    steer: bool,
)
    ensures
        ({
            let cmd = CaptureCmdView::Persist {
                item,
                provenance: RawItemProvenance::ModelOutput,
                step_index,
                steer,
            };
            &&& command_actions(w, cmd).len() == 0
            &&& after_command(w, cmd) == (CaptureWorkerView {
                pending: w.pending.push(PendingOutputView { item, step_index }),
                ..w
            })
        }),
{
}

/// Usage of a model call is stored with all output that waits for it.
pub proof fn usage_is_stored_with_what_waits(w: CaptureWorkerView, usage: TokenUsageView)
    ensures
        ({
            let cmd = CaptureCmdView::ProviderUsage { usage };
            &&& stores_what_waits(w, command_actions(w, cmd), Some(usage))
            &&& command_actions(w, cmd).len() == w.pending.len()
            &&& after_command(w, cmd) == (CaptureWorkerView { pending: Seq::empty(), ..w })
        }),
{
}

/// The last action, behind what waits.
pub open spec fn ends_with(
    w: CaptureWorkerView,
    cmd: CaptureCmdView,
    action: CaptureActionView,
) -> bool {
    &&& stores_what_waits(w, command_actions(w, cmd), None)
    &&& command_actions(w, cmd).len() == w.pending.len() + 1
    &&& command_actions(w, cmd).last() == action
}

/// Anything else that is to be stored is stored whole, right behind what waits,
/// with its step, its mark and the model that is live.
pub proof fn other_items_are_stored_behind_what_waits(
    w: CaptureWorkerView,
    item: ResponseItemView,
    provenance: RawItemProvenance,
    step_index: Option<i64>,
    steer: bool,
)
    requires
        provenance != RawItemProvenance::ModelOutput,
    ensures
        ({
            let cmd = CaptureCmdView::Persist { item, provenance, step_index, steer };
            &&& ends_with(
                w,
                cmd,
                CaptureActionView::Persist(
                    PersistJobView {
                        item,
                        provenance,
                        usage: None,
                        step_index,
                        steer,
                        identity: w.identity,
                    },
                ),
            )
            &&& after_command(w, cmd) == (CaptureWorkerView { pending: Seq::empty(), ..w })
        }),
{
}

/// The end of a turn, a flush and the end of the capture store what waits and then
/// do what they are for.
pub proof fn ends_come_behind_what_waits(
    w: CaptureWorkerView,
    turn_id: Seq<char>,
    reason: Seq<char>,
    facts: crate::mapping::TurnEndFactsView,
)
    ensures
        ends_with(
            w,
            CaptureCmdView::TurnEnd { turn_id, reason, facts },
            CaptureActionView::Submit(seq![turn_end_event(w.thread_id, turn_id, reason, facts)]),
        ),
        ends_with(w, CaptureCmdView::Flush, CaptureActionView::Acknowledge),
        ends_with(w, CaptureCmdView::Shutdown, CaptureActionView::Report),
        after_command(w, CaptureCmdView::TurnEnd { turn_id, reason, facts }) == (CaptureWorkerView {
            pending: Seq::empty(),
            ..w
        }),
        after_command(w, CaptureCmdView::Flush) == (CaptureWorkerView {
            pending: Seq::empty(),
            ..w
        }),
        after_command(w, CaptureCmdView::Shutdown) == (CaptureWorkerView {
            pending: Seq::empty(),
            ..w
        }),
{
}

/// A note is stored at once, settling is awaited at once, and a turn of the host
/// is only taken down: none of them touches what waits.
pub proof fn notes_pass_what_waits(
    w: CaptureWorkerView,
    text: Seq<char>,
    key_suffix: Seq<char>,
    host_turn_id: Seq<char>,
)
    ensures
        command_actions(w, CaptureCmdView::RuntimeNote { text, key_suffix }) == seq![
            CaptureActionView::Submit(seq![runtime_note_event(w.thread_id, text, key_suffix)]),
        ],
        after_command(w, CaptureCmdView::RuntimeNote { text, key_suffix }) == w,
        command_actions(w, CaptureCmdView::DrainSettled) == seq![CaptureActionView::AwaitSettled],
        after_command(w, CaptureCmdView::DrainSettled) == w,
        command_actions(w, CaptureCmdView::BindTurn { host_turn_id }).len() == 0,
        after_command(w, CaptureCmdView::BindTurn { host_turn_id }) == (CaptureWorkerView {
            binder: TurnBinderView {
                host_turn_id: Some(host_turn_id),
                published: w.binder.published,
            },
            ..w
        }),
{
}

/// A change of the model is stored behind what waits, and the model that it names
/// is live from there on: with the provider that it names or else the one before,
/// and with the interface that it names or else the usual one. A change of the
/// level alone leaves the model as it is.
pub proof fn changed_model_is_live(
    w: CaptureWorkerView,
    previous_model: Seq<char>,
    new_model: Seq<char>,
    previous_level: Seq<char>,
    new_level: Seq<char>,
    provider: Option<Seq<char>>,
    api: Option<Seq<char>>,
)
    ensures
        ({
            let cmd = CaptureCmdView::ModelOrThinkingChange {
                previous_model,
                new_model,
                previous_level,
                new_level,
                provider,
                api,
            };
            let events = change_events(
                w.thread_id,
                previous_model,
                new_model,
                previous_level,
                new_level,
            );
            let after = after_command(w, cmd);
            &&& events.len() > 0 ==> ends_with(w, cmd, CaptureActionView::Submit(events))
            &&& events.len() == 0 ==> stores_what_waits(w, command_actions(w, cmd), None)
                && command_actions(w, cmd).len() == w.pending.len()
            &&& after.pending.len() == 0
            &&& previous_model == new_model ==> after.identity == w.identity
            &&& previous_model != new_model ==> {
                &&& after.identity.model == Some(new_model)
                &&& after.identity.provider == (if provider is Some {
                    provider
                } else {
                    w.identity.provider
                })
                &&& after.identity.api == Some(
                    if api is Some {
                        api->0
                    } else {
                        "responses"@
                    },
                )
            }
        }),
{
}

/// The model that is named is live, behind what waits.
pub proof fn named_model_is_live(w: CaptureWorkerView, identity: ModelIdentityView)
    ensures
        ({
            let cmd = CaptureCmdView::SetIdentity { identity };
            &&& stores_what_waits(w, command_actions(w, cmd), None)
            &&& command_actions(w, cmd).len() == w.pending.len()
            &&& after_command(w, cmd) == (CaptureWorkerView {
                pending: Seq::empty(),
                identity,
                ..w
            })
        }),
{
}

// ---------------------------------------------------------------------------
// Jobs
// ---------------------------------------------------------------------------

/// An entry that a job gives to an event, or the one that it has.
pub open spec fn bears(
    before: EventView,
    after: EventView,
    name: Seq<char>,
    given: Option<JsonView>,
) -> bool {
    entry(after.payload, name) == (if given is Some {
        given
    } else {
        entry(before.payload, name)
    })
}

/// An event bears what its job says, each where it belongs: usage with the text of
/// the assistant, the step with what the assistant did, the mark with a prompt.
/// Nothing else of it changes.
pub proof fn events_bear_what_their_job_says(e: EventView, job: PersistJobView)
    ensures
        ({
            let d = dressed(e, job);
            let of_text = e.event_kind == "assistant_text"@;
            let of_step = of_text || e.event_kind == "assistant_thinking"@ || e.event_kind
                == "tool_call"@ || e.event_kind == "tool_result"@;
            let of_prompt = e.event_kind == "user_prompt"@;
            &&& d.event_kind == e.event_kind
            &&& d.idempotency_key == e.idempotency_key
            &&& d.actor == e.actor
            &&& d.harness == e.harness
            &&& d.extra == e.extra
            &&& bears(
                e,
                d,
                "providerUsage"@,
                if of_text && job.usage is Some {
                    Some(JsonView::Object(usage_entries(job.usage->0)))
                } else {
                    None
                },
            )
            &&& bears(
                e,
                d,
                "stepIndex"@,
                if of_step && job.step_index is Some {
                    Some(JsonView::Int(job.step_index->0 as int))
                } else {
                    None
                },
            )
            &&& bears(
                e,
                d,
                "steer"@,
                if of_prompt && job.steer {
                    Some(JsonView::Bool(true))
                } else {
                    None
                },
            )
            &&& forall|name: Seq<char>|
                name != "providerUsage"@ && name != "stepIndex"@ && name != "steer"@
                    ==> #[trigger] entry(d.payload, name) == entry(e.payload, name)
        }),
{
    reveal_strlit("providerUsage");
    reveal_strlit("stepIndex");
    reveal_strlit("steer");
    assert("providerUsage"@.len() == 13 && "stepIndex"@.len() == 9 && "steer"@.len() == 5);
    let none = Seq::<(Seq<char>, JsonView)>::empty();
    let e1 = match job.usage {
        Some(usage) => {
            what_goes_with_an_event(e, usage_entries(usage), 0);
            crate::mapping::with_provider_usage(e, usage_entries(usage))
        },
        None => e,
    };
    let e2 = match job.step_index {
        Some(step) => {
            what_goes_with_an_event(e1, none, step);
            crate::mapping::with_step_index(e1, step)
        },
        None => e1,
    };
    what_goes_with_an_event(e2, none, 0);
}

/// The events of a job are those that its item gives rise to, each with what the
/// job says: under its identity, or else under its digest and the next number of
/// that; from the model where it is known in full.
pub proof fn jobs_store_the_events_of_their_item(w: CaptureWorkerView, job: PersistJobView, k: int)
    ensures
        ({
            let filled = |s: Option<Seq<char>>| s is Some && s->0.len() > 0;
            let plain = item_events(
                ItemKey {
                    thread_id: w.thread_id,
                    stable_id: own_id(job.item),
                    digest: digest_of(job.item),
                    occurrence: if own_id(job.item) is Some {
                        0
                    } else {
                        w.tracker.count(digest_of(job.item)) as nat
                    },
                },
                job.item,
                job.provenance,
                if filled(job.identity.provider) && filled(job.identity.model) && filled(
                    job.identity.api,
                ) {
                    Some(job.identity)
                } else {
                    None
                },
            );
            &&& events_of_job(w, job).len() == plain.len()
            &&& 0 <= k < plain.len() ==> events_of_job(w, job)[k] == dressed(plain[k], job)
        }),
{
}

/// A job whose item has an identity, or whose number could be looked up, is
/// submitted, where it gives rise to anything; and its number is then taken.
pub proof fn jobs_are_submitted(
    w: CaptureWorkerView,
    job: PersistJobView,
    lookup_error: Option<Seq<char>>,
)
    requires
        own_id(job.item) is Some || (lookup_error is None && w.tracker.count(digest_of(job.item))
            < u64::MAX),
    ensures
        begun(w, job, lookup_error) == (if events_of_job(w, job).len() > 0 {
            PersistStepView::Submit(events_of_job(w, job))
        } else {
            PersistStepView::Done
        }),
        after_begin(w, job, lookup_error).failed == w.failed,
        after_begin(w, job, lookup_error).degraded == w.degraded,
        after_begin(w, job, lookup_error).pending == w.pending,
        after_begin(w, job, lookup_error).tracker.count(digest_of(job.item)) == w.tracker.count(
            digest_of(job.item),
        ) + (if own_id(job.item) is Some {
            0int
        } else {
            1
        }),
{
}

/// A job whose number could not be looked up is not stored: a note says so, with
/// the reason, and nothing more is accepted.
pub proof fn unknown_numbers_are_not_guessed(
    w: CaptureWorkerView,
    job: PersistJobView,
    why: Seq<char>,
)
    requires
        own_id(job.item) is None,
    ensures
        begun(w, job, Some(why)) == PersistStepView::Note(
            runtime_note_event(
                w.thread_id,
                "LHC capture degraded after anonymous occurrence listing failure: "@ + why,
                "occurrence-cap"@,
            ),
        ),
        after_begin(w, job, Some(why)) == (CaptureWorkerView { failed: true, degraded: true, ..w }),
{
}

/// Events that the store refused count as not stored. Where the store gave up, a
/// note says so and nothing more is accepted.
pub proof fn refusals_are_told(
    w: CaptureWorkerView,
    events: Seq<EventView>,
    capture_disabled: bool,
)
    ensures
        ({
            let outcome = SubmitOutcomeView::Refused { capture_disabled };
            &&& submitted(w, events, outcome) == (if capture_disabled {
                PersistStepView::Note(
                    runtime_note_event(
                        w.thread_id,
                        "LHC capture permanently disabled after repeated submit failures"@,
                        "disabled"@,
                    ),
                )
            } else {
                PersistStepView::Done
            })
            &&& after_submit(w, outcome).failed
            &&& after_submit(w, outcome).degraded <==> w.degraded || capture_disabled
            &&& after_submit(w, outcome).binder == w.binder
        }),
{
}

/// The worker says that everything was stored exactly when nothing failed.
pub proof fn report_tells_whether_all_was_stored(w: CaptureWorkerView)
    ensures
        reported(w) == CaptureShutdownResult::Persisted <==> !w.failed && !w.degraded,
        w.failed || w.degraded ==> reported(w) == CaptureShutdownResult::Failed(
            CaptureShutdownFailure::PersistenceFailed,
        ),
{
}

// ---------------------------------------------------------------------------
// Bindings
// ---------------------------------------------------------------------------

/// Change `k` is the last that opened a turn.
pub open spec fn is_last_opening(transitions: Seq<TurnTransitionView>, k: int) -> bool {
    &&& 0 <= k < transitions.len()
    &&& transitions[k].action == TurnTransitionAction::Opened
    &&& forall|j: int|
        k < j < transitions.len() ==> (#[trigger] transitions[j]).action
            != TurnTransitionAction::Opened
}

/// No change opened a turn.
pub open spec fn opens_nothing(transitions: Seq<TurnTransitionView>) -> bool {
    forall|j: int|
        0 <= j < transitions.len() ==> (#[trigger] transitions[j]).action
            != TurnTransitionAction::Opened
}

proof fn lemma_last_opened(transitions: Seq<TurnTransitionView>, n: int, k: int)
    requires
        n <= transitions.len(),
        forall|j: int|
            n <= j < transitions.len() ==> (#[trigger] transitions[j]).action
                != TurnTransitionAction::Opened,
    ensures
        is_last_opening(transitions, k) ==> last_opened(transitions, n) == Some(
            transitions[k].turn_id,
        ),
        opens_nothing(transitions) ==> last_opened(transitions, n) is None,
    decreases n,
{
    if n > 0 {
        if transitions[n - 1].action == TurnTransitionAction::Opened {
            if is_last_opening(transitions, k) {
                assert(k == n - 1) by {
                    assert(!(k > n - 1));
                    assert(!(k < n - 1));
                }
            }
        } else {
            lemma_last_opened(transitions, n - 1, k);
        }
    }
}

/// The stored turn that was opened last is the one of the turn that the host named,
/// where it named one.
pub proof fn opened_turn_is_bound(
    b: TurnBinderView,
    events: Seq<EventView>,
    transitions: Seq<TurnTransitionView>,
    k: int,
)
    requires
        is_last_opening(transitions, k),
    ensures
        after_batch(b, transitions) == (TurnBinderView {
            host_turn_id: b.host_turn_id,
            published: match b.host_turn_id {
                Some(host_turn_id) => Some(
                    TurnBindingView { host_turn_id, lhc_turn_id: transitions[k].turn_id },
                ),
                None => b.published,
            },
        }),
        !must_ask(b, events, transitions),
{
    lemma_last_opened(transitions, transitions.len() as int, k);
}

/// Where no turn was opened nothing is bound, and the stored turns are asked for
/// exactly when a prompt that begins a turn was stored for a turn of the host that
/// is not bound.
pub proof fn joined_turn_is_asked_for(
    b: TurnBinderView,
    events: Seq<EventView>,
    transitions: Seq<TurnTransitionView>,
)
    requires
        opens_nothing(transitions),
    ensures
        after_batch(b, transitions) == b,
        must_ask(b, events, transitions) <==> {
            &&& b.host_turn_id is Some
            &&& (b.published is None || b.published->0.host_turn_id != b.host_turn_id->0)
            &&& exists|k: int|
                0 <= k < events.len() && (#[trigger] events[k]).event_kind == "user_prompt"@
                    && entry(events[k].payload, "steer"@) != Some(JsonView::Bool(true))
        },
{
    lemma_last_opened(transitions, transitions.len() as int, 0);
    if exists|k: int|
        0 <= k < events.len() && (#[trigger] events[k]).event_kind == "user_prompt"@ && entry(
            events[k].payload,
            "steer"@,
        ) != Some(JsonView::Bool(true)) {
        let k = choose|k: int|
            0 <= k < events.len() && (#[trigger] events[k]).event_kind == "user_prompt"@ && entry(
                events[k].payload,
                "steer"@,
            ) != Some(JsonView::Bool(true));
        assert(is_opening_prompt(events[k]));
    }
}

/// Turn `k` is the first that is open.
pub open spec fn is_first_open(turns: Seq<TurnRecordView>, k: int) -> bool {
    &&& 0 <= k < turns.len()
    &&& turns[k].status == TurnStatus::Open
    &&& forall|j: int| 0 <= j < k ==> (#[trigger] turns[j]).status != TurnStatus::Open
}

proof fn lemma_open_turn(turns: Seq<TurnRecordView>, i: int, k: int)
    requires
        0 <= i,
        forall|j: int| 0 <= j < i && j < turns.len() ==> (#[trigger] turns[j]).status
            != TurnStatus::Open,
    ensures
        is_first_open(turns, k) ==> open_turn(turns, i) == Some(turns[k].turn_id),
        (forall|j: int| 0 <= j < turns.len() ==> (#[trigger] turns[j]).status != TurnStatus::Open)
            ==> open_turn(turns, i) is None,
    decreases turns.len() - i,
{
    if i < turns.len() {
        if turns[i].status == TurnStatus::Open {
            if is_first_open(turns, k) {
                assert(k == i) by {
                    assert(!(k < i));
                    assert(!(k > i));
                }
            }
        } else {
            lemma_open_turn(turns, i + 1, k);
        }
    } else if is_first_open(turns, k) {
        assert(turns[k].status == TurnStatus::Open);
    }
}

/// Of the stored turns, the first that is open is the one of the turn that the
/// host named; where none is open nothing is bound.
pub proof fn open_turn_is_bound(b: TurnBinderView, turns: Seq<TurnRecordView>, k: int)
    ensures
        is_first_open(turns, k) && b.host_turn_id is Some ==> after_turns(b, turns) == (
        TurnBinderView {
            host_turn_id: b.host_turn_id,
            published: Some(
                TurnBindingView {
                    host_turn_id: b.host_turn_id->0,
                    lhc_turn_id: turns[k].turn_id,
                },
            ),
        }),
        (forall|j: int| 0 <= j < turns.len() ==> (#[trigger] turns[j]).status != TurnStatus::Open)
            ==> after_turns(b, turns) == b,
{
    lemma_open_turn(turns, 0, k);
}

} // verus!
