//! The worker of a capture: in which order things are stored, and what a
//! failure means.

use vstd::prelude::*;
use vstd::string::*;

use crate::capture_intake::{CaptureShutdownFailure, CaptureShutdownResult};
use crate::idempotency::{
    digest_of, item_stable_id, stable_id, OccurrenceTracker, OccurrenceTrackerView,
};
use crate::json::{entry, get_entry, Json, JsonView};
use crate::mapping::{
    attach_provider_usage, attach_steer, attach_step_index, change_events, identity_complete,
    item_events, item_key, map_item, map_model_or_thinking_change, map_runtime_note, map_turn_end,
    runtime_note_event, token_usage_to_provider_usage, turn_end_event, usage_entries,
    with_provider_usage, with_steer, with_step_index, EventView, MappedEvent, ModelIdentity,
    ModelIdentityView, TurnEndFacts, TurnEndFactsView,
};
use crate::protocol::{ResponseItem, ResponseItemView};
use crate::records::{
    RawItemProvenance, TokenUsage, TokenUsageView, TurnRecord, TurnRecordView, TurnStatus,
};
use crate::text::{text, text_eq};

verus! {

/// Which stored turn belongs to a turn of the host.
#[derive(Debug, PartialEq, Eq)]
pub struct TurnBinding {
    pub host_turn_id: String,
    pub lhc_turn_id: String,
}

/// What a [`TurnBinding`] stands for.
#[verifier::ext_equal]
pub struct TurnBindingView {
    pub host_turn_id: Seq<char>,
    pub lhc_turn_id: Seq<char>,
}

impl View for TurnBinding {
    type V = TurnBindingView;

    open spec fn view(&self) -> TurnBindingView {
        TurnBindingView {
            host_turn_id: self.host_turn_id.deep_view(),
            lhc_turn_id: self.lhc_turn_id.deep_view(),
        }
    }
}

impl DeepView for TurnBinding {
    type V = TurnBindingView;

    open spec fn deep_view(&self) -> TurnBindingView {
        self@
    }
}

impl Clone for TurnBinding {
    fn clone(&self) -> (r: Self)
        ensures
            r@ == self@,
            r.deep_view() == self.deep_view(),
    {
        TurnBinding {
            host_turn_id: self.host_turn_id.clone(),
            lhc_turn_id: self.lhc_turn_id.clone(),
        }
    }
}

/// What happened to a stored turn.
#[derive(Debug, Clone, Copy, PartialEq, Eq, Structural)]
pub enum TurnTransitionAction {
    Opened,
    Closed,
}

impl DeepView for TurnTransitionAction {
    type V = TurnTransitionAction;

    open spec fn deep_view(&self) -> TurnTransitionAction {
        *self
    }
}

/// A change of a stored turn.
#[derive(Debug, PartialEq, Eq)]
pub struct TurnTransition {
    pub action: TurnTransitionAction,
    pub turn_id: String,
}

/// What a [`TurnTransition`] stands for.
#[verifier::ext_equal]
pub struct TurnTransitionView {
    pub action: TurnTransitionAction,
    pub turn_id: Seq<char>,
}

impl View for TurnTransition {
    type V = TurnTransitionView;

    open spec fn view(&self) -> TurnTransitionView {
        TurnTransitionView {
            action: self.action.deep_view(),
            turn_id: self.turn_id.deep_view(),
        }
    }
}

impl DeepView for TurnTransition {
    type V = TurnTransitionView;

    open spec fn deep_view(&self) -> TurnTransitionView {
        self@
    }
}

impl Clone for TurnTransition {
    fn clone(&self) -> (r: Self)
        ensures
            r@ == self@,
            r.deep_view() == self.deep_view(),
    {
        TurnTransition {
            action: self.action,
            turn_id: self.turn_id.clone(),
        }
    }
}

/// Binds turns of the host to stored turns.
#[derive(Debug, PartialEq, Eq)]
pub struct TurnBinder {
    /// The turn of the host that is bound next.
    pub host_turn_id: Option<String>,
    /// The binding that holds.
    pub published: Option<TurnBinding>,
}

/// What a [`TurnBinder`] stands for.
#[verifier::ext_equal]
pub struct TurnBinderView {
    pub host_turn_id: Option<Seq<char>>,
    pub published: Option<TurnBindingView>,
}

impl View for TurnBinder {
    type V = TurnBinderView;

    open spec fn view(&self) -> TurnBinderView {
        TurnBinderView {
            host_turn_id: self.host_turn_id.deep_view(),
            published: self.published.deep_view(),
        }
    }
}

impl DeepView for TurnBinder {
    type V = TurnBinderView;

    open spec fn deep_view(&self) -> TurnBinderView {
        self@
    }
}

impl Clone for TurnBinder {
    fn clone(&self) -> (r: Self)
        ensures
            r@ == self@,
            r.deep_view() == self.deep_view(),
    {
        TurnBinder {
            host_turn_id: self.host_turn_id.clone(),
            published: self.published.clone(),
        }
    }
}

/// Output of the model that waits for the usage of its call.
#[derive(Debug, PartialEq, Eq)]
pub struct PendingOutput {
    pub item: ResponseItem,
    pub step_index: Option<i64>,
}

/// What a [`PendingOutput`] stands for.
#[verifier::ext_equal]
pub struct PendingOutputView {
    pub item: ResponseItemView,
    pub step_index: Option<i64>,
}

impl View for PendingOutput {
    type V = PendingOutputView;

    open spec fn view(&self) -> PendingOutputView {
        PendingOutputView {
            item: self.item.deep_view(),
            step_index: self.step_index.deep_view(),
        }
    }
}

impl DeepView for PendingOutput {
    type V = PendingOutputView;

    open spec fn deep_view(&self) -> PendingOutputView {
        self@
    }
}

impl Clone for PendingOutput {
    fn clone(&self) -> (r: Self)
        ensures
            r@ == self@,
            r.deep_view() == self.deep_view(),
    {
        PendingOutput {
            item: self.item.clone(),
            step_index: self.step_index.clone(),
        }
    }
}

/// One item to be stored, and all that its events bear.
#[derive(Debug, PartialEq, Eq)]
pub struct PersistJob {
    pub item: ResponseItem,
    pub provenance: RawItemProvenance,
    pub usage: Option<TokenUsage>,
    pub step_index: Option<i64>,
    pub steer: bool,
    pub identity: ModelIdentity,
}

/// What a [`PersistJob`] stands for.
#[verifier::ext_equal]
pub struct PersistJobView {
    pub item: ResponseItemView,
    pub provenance: RawItemProvenance,
    pub usage: Option<TokenUsageView>,
    pub step_index: Option<i64>,
    pub steer: bool,
    pub identity: ModelIdentityView,
}

impl View for PersistJob {
    type V = PersistJobView;

    open spec fn view(&self) -> PersistJobView {
        PersistJobView {
            item: self.item.deep_view(),
            provenance: self.provenance.deep_view(),
            usage: self.usage.deep_view(),
            step_index: self.step_index.deep_view(),
            steer: self.steer.deep_view(),
            identity: self.identity.deep_view(),
        }
    }
}

impl DeepView for PersistJob {
    type V = PersistJobView;

    open spec fn deep_view(&self) -> PersistJobView {
        self@
    }
}

impl Clone for PersistJob {
    fn clone(&self) -> (r: Self)
        ensures
            r@ == self@,
            r.deep_view() == self.deep_view(),
    {
        PersistJob {
            item: self.item.clone(),
            provenance: self.provenance,
            usage: self.usage.clone(),
            step_index: self.step_index.clone(),
            steer: self.steer,
            identity: self.identity.clone(),
        }
    }
}

/// A command to the worker of a capture.
#[derive(Debug, PartialEq, Eq)]
pub enum CaptureCmd {
    /// Store an item.
    Persist {
        item: ResponseItem,
        provenance: RawItemProvenance,
        step_index: Option<i64>,
        steer: bool,
    },
    /// Store the end of a turn.
    TurnEnd { turn_id: String, reason: String, facts: TurnEndFacts },
    /// The usage of the model call whose output came last.
    ProviderUsage { usage: TokenUsage },
    /// A turn of the host begins.
    BindTurn { host_turn_id: String },
    /// The model or its level changes.
    ModelOrThinkingChange {
        previous_model: String,
        new_model: String,
        previous_level: String,
        new_level: String,
        provider: Option<String>,
        api: Option<String>,
    },
    /// Which model is live.
    SetIdentity { identity: ModelIdentity },
    /// Store a note.
    RuntimeNote { text: String, key_suffix: String },
    /// Store what waits.
    Flush,
    /// Wait until the thread has settled.
    DrainSettled,
    /// End.
    Shutdown,
}

/// What a [`CaptureCmd`] stands for.
#[verifier::ext_equal]
pub enum CaptureCmdView {
    Persist {
        item: ResponseItemView,
        provenance: RawItemProvenance,
        step_index: Option<i64>,
        steer: bool,
    },
    TurnEnd { turn_id: Seq<char>, reason: Seq<char>, facts: TurnEndFactsView },
    ProviderUsage { usage: TokenUsageView },
    BindTurn { host_turn_id: Seq<char> },
    ModelOrThinkingChange {
        previous_model: Seq<char>,
        new_model: Seq<char>,
        previous_level: Seq<char>,
        new_level: Seq<char>,
        provider: Option<Seq<char>>,
        api: Option<Seq<char>>,
    },
    SetIdentity { identity: ModelIdentityView },
    RuntimeNote { text: Seq<char>, key_suffix: Seq<char> },
    Flush,
    DrainSettled,
    Shutdown,
}

impl View for CaptureCmd {
    type V = CaptureCmdView;

    open spec fn view(&self) -> CaptureCmdView {
        match self {
            CaptureCmd::Persist { item, provenance, step_index, steer } => CaptureCmdView::Persist {
                item: item.deep_view(),
                provenance: provenance.deep_view(),
                step_index: step_index.deep_view(),
                steer: steer.deep_view(),
            },
            CaptureCmd::TurnEnd { turn_id, reason, facts } => CaptureCmdView::TurnEnd {
                turn_id: turn_id.deep_view(),
                reason: reason.deep_view(),
                facts: facts.deep_view(),
            },
            CaptureCmd::ProviderUsage { usage } => CaptureCmdView::ProviderUsage {
                usage: usage.deep_view(),
            },
            CaptureCmd::BindTurn { host_turn_id } => CaptureCmdView::BindTurn {
                host_turn_id: host_turn_id.deep_view(),
            },
            CaptureCmd::ModelOrThinkingChange {
                previous_model,
                new_model,
                previous_level,
                new_level,
                provider,
                api,
            } => CaptureCmdView::ModelOrThinkingChange {
                previous_model: previous_model.deep_view(),
                new_model: new_model.deep_view(),
                previous_level: previous_level.deep_view(),
                new_level: new_level.deep_view(),
                provider: provider.deep_view(),
                api: api.deep_view(),
            },
            CaptureCmd::SetIdentity { identity } => CaptureCmdView::SetIdentity {
                identity: identity.deep_view(),
            },
            CaptureCmd::RuntimeNote { text, key_suffix } => CaptureCmdView::RuntimeNote {
                text: text.deep_view(),
                key_suffix: key_suffix.deep_view(),
            },
            CaptureCmd::Flush => CaptureCmdView::Flush,
            CaptureCmd::DrainSettled => CaptureCmdView::DrainSettled,
            CaptureCmd::Shutdown => CaptureCmdView::Shutdown,
        }
    }
}

impl DeepView for CaptureCmd {
    type V = CaptureCmdView;

    open spec fn deep_view(&self) -> CaptureCmdView {
        self@
    }
}

impl Clone for CaptureCmd {
    fn clone(&self) -> (r: Self)
        ensures
            r@ == self@,
            r.deep_view() == self.deep_view(),
    {
        match self {
            CaptureCmd::Persist { item, provenance, step_index, steer } => CaptureCmd::Persist {
                item: item.clone(),
                provenance: *provenance,
                step_index: step_index.clone(),
                steer: *steer,
            },
            CaptureCmd::TurnEnd { turn_id, reason, facts } => CaptureCmd::TurnEnd {
                turn_id: turn_id.clone(),
                reason: reason.clone(),
                facts: facts.clone(),
            },
            CaptureCmd::ProviderUsage { usage } => CaptureCmd::ProviderUsage {
                usage: usage.clone(),
            },
            CaptureCmd::BindTurn { host_turn_id } => CaptureCmd::BindTurn {
                host_turn_id: host_turn_id.clone(),
            },
            CaptureCmd::ModelOrThinkingChange {
                previous_model,
                new_model,
                previous_level,
                new_level,
                provider,
                api,
            } => CaptureCmd::ModelOrThinkingChange {
                previous_model: previous_model.clone(),
                new_model: new_model.clone(),
                previous_level: previous_level.clone(),
                new_level: new_level.clone(),
                provider: provider.clone(),
                api: api.clone(),
            },
            CaptureCmd::SetIdentity { identity } => CaptureCmd::SetIdentity {
                identity: identity.clone(),
            },
            CaptureCmd::RuntimeNote { text, key_suffix } => CaptureCmd::RuntimeNote {
                text: text.clone(),
                key_suffix: key_suffix.clone(),
            },
            CaptureCmd::Flush => CaptureCmd::Flush,
            CaptureCmd::DrainSettled => CaptureCmd::DrainSettled,
            CaptureCmd::Shutdown => CaptureCmd::Shutdown,
        }
    }
}

// ---------------------------------------------------------------------------
// Bindings
// ---------------------------------------------------------------------------

/// The last turn that was opened, among the first `n` changes.
pub open spec fn last_opened(transitions: Seq<TurnTransitionView>, n: int) -> Option<Seq<char>>
    decreases n,
{
    if n <= 0 {
        None
    } else if transitions[n - 1].action == TurnTransitionAction::Opened {
        Some(transitions[n - 1].turn_id)
    } else {
        last_opened(transitions, n - 1)
    }
}

fn find_opened(transitions: &Vec<TurnTransition>) -> (r: Option<String>)
    ensures
        r.deep_view() == last_opened(transitions.deep_view(), transitions.len() as int),
{
    let ghost view = transitions.deep_view();
    let mut n: usize = transitions.len();
    while n > 0
        invariant
            n <= transitions.len(),
            view == transitions.deep_view(),
            last_opened(view, transitions.len() as int) == last_opened(view, n as int),
        decreases n,
    {
        assert(view[n - 1] == transitions@[n - 1]@);
        if transitions[n - 1].action == TurnTransitionAction::Opened {
            return Some(transitions[n - 1].turn_id.clone());
        }
        n = n - 1;
    }
    None
}

/// The event is a prompt that begins a turn, not one in the middle of a run.
pub open spec fn is_opening_prompt(event: EventView) -> bool {
    event.event_kind == "user_prompt"@ && entry(event.payload, "steer"@) != Some(
        JsonView::Bool(true),
    )
}

/// Some event is a prompt that begins a turn.
pub open spec fn holds_opening_prompt(events: Seq<EventView>) -> bool {
    exists|k: int| 0 <= k < events.len() && is_opening_prompt(#[trigger] events[k])
}

fn has_opening_prompt(events: &Vec<MappedEvent>) -> (r: bool)
    ensures
        r == holds_opening_prompt(events.deep_view()),
{
    let ghost view = events.deep_view();
    let mut k: usize = 0;
    while k < events.len()
        invariant
            k <= events.len(),
            view == events.deep_view(),
            forall|j: int| 0 <= j < k ==> !is_opening_prompt(#[trigger] view[j]),
        decreases events.len() - k,
    {
        assert(view[k as int] == events@[k as int]@);
        if text_eq(events[k].input.event_kind.as_str(), "user_prompt") {
            let steer = match get_entry(&events[k].input.payload, "steer") {
                Some(Json::Bool(b)) => *b,
                _ => false,
            };
            if !steer {
                assert(is_opening_prompt(view[k as int]));
                return true;
            }
        }
        k = k + 1;
    }
    false
}

/// The binding that holds is one of this turn of the host.
pub open spec fn is_bound(b: TurnBinderView, host_turn_id: Seq<char>) -> bool {
    b.published matches Some(binding) && binding.host_turn_id == host_turn_id
}

/// The binder once the turn to be bound is known to be stored as `lhc_turn_id`.
pub open spec fn with_binding(b: TurnBinderView, lhc_turn_id: Seq<char>) -> TurnBinderView {
    match b.host_turn_id {
        Some(host_turn_id) => TurnBinderView {
            published: Some(TurnBindingView { host_turn_id, lhc_turn_id }),
            ..b
        },
        None => b,
    }
}

/// The binder behind a batch that was stored. Where a turn was opened, that one
/// is bound.
pub open spec fn after_batch(
    b: TurnBinderView,
    transitions: Seq<TurnTransitionView>,
) -> TurnBinderView {
    match last_opened(transitions, transitions.len() as int) {
        Some(id) => with_binding(b, id),
        None => b,
    }
}

/// Where no turn was opened, the turn that is open must be asked for: a prompt
/// that begins a turn has joined one without members, and is not bound yet.
pub open spec fn must_ask(
    b: TurnBinderView,
    events: Seq<EventView>,
    transitions: Seq<TurnTransitionView>,
) -> bool {
    &&& last_opened(transitions, transitions.len() as int) is None
    &&& b.host_turn_id matches Some(host) && !is_bound(b, host)
    &&& holds_opening_prompt(events)
}

/// The first turn that is open, from `i` on.
pub open spec fn open_turn(turns: Seq<TurnRecordView>, i: int) -> Option<Seq<char>>
    decreases turns.len() - i,
{
    if i >= turns.len() {
        None
    } else if turns[i].status == TurnStatus::Open {
        Some(turns[i].turn_id)
    } else {
        open_turn(turns, i + 1)
    }
}

/// The binder once the stored turns are known.
pub open spec fn after_turns(b: TurnBinderView, turns: Seq<TurnRecordView>) -> TurnBinderView {
    match open_turn(turns, 0) {
        Some(id) => with_binding(b, id),
        None => b,
    }
}

impl TurnBinder {
    /// A binder without a turn.
    pub fn new() -> (r: Self)
        ensures
            r@ == (TurnBinderView { host_turn_id: None, published: None }),
    {
        TurnBinder { host_turn_id: None, published: None }
    }

    /// A turn of the host begins: it is bound next.
    pub fn bind_turn(&mut self, host_turn_id: &str)
        ensures
            final(self)@ == (TurnBinderView { host_turn_id: Some(host_turn_id@), ..old(self)@ }),
    {
        self.host_turn_id = Some(text(host_turn_id));
    }

    /// Whether the binding that holds is one of this turn of the host.
    pub fn bound_for(&self, host_turn_id: &str) -> (r: bool)
        ensures
            r == is_bound(self@, host_turn_id@),
    {
        match &self.published {
            Some(binding) => text_eq(binding.host_turn_id.as_str(), host_turn_id),
            None => false,
        }
    }

    fn publish(&mut self, lhc_turn_id: String)
        ensures
            final(self)@ == with_binding(old(self)@, lhc_turn_id@),
    {
        if let Some(host_turn_id) = &self.host_turn_id {
            self.published = Some(
                TurnBinding { host_turn_id: host_turn_id.clone(), lhc_turn_id },
            );
        }
    }

    /// Takes down a batch that was stored. True when the stored turns must be
    /// asked for as well.
    pub fn observe(&mut self, events: &Vec<MappedEvent>, transitions: &Vec<TurnTransition>) -> (r:
        bool)
        ensures
            final(self)@ == after_batch(old(self)@, transitions.deep_view()),
            r == must_ask(old(self)@, events.deep_view(), transitions.deep_view()),
    {
        match find_opened(transitions) {
            Some(id) => {
                self.publish(id);
                false
            },
            None => match &self.host_turn_id {
                Some(host) => !self.bound_for(host.as_str()) && has_opening_prompt(events),
                None => false,
            },
        }
    }

    /// Binds the turn that is open, when there is one.
    pub fn observe_turns(&mut self, turns: &Vec<TurnRecord>)
        ensures
            final(self)@ == after_turns(old(self)@, turns.deep_view()),
    {
        let ghost view = turns.deep_view();
        let ghost start = self@;
        let mut i: usize = 0;
        while i < turns.len()
            invariant
                i <= turns.len(),
                view == turns.deep_view(),
                start == old(self)@,
                self@ == start,
                open_turn(view, 0) == open_turn(view, i as int),
            decreases turns.len() - i,
        {
            assert(view[i as int] == turns@[i as int]@);
            if turns[i].status == TurnStatus::Open {
                let id = turns[i].turn_id.clone();
                self.publish(id);
                return ;
            }
            i = i + 1;
        }
    }

    /// Binds a turn of the host to a stored turn that the host saw being opened
    /// on its behalf.
    pub fn rebind_turn(&mut self, host_turn_id: &str, lhc_turn_id: &str)
        ensures
            final(self)@ == (TurnBinderView {
                published: Some(
                    TurnBindingView { host_turn_id: host_turn_id@, lhc_turn_id: lhc_turn_id@ },
                ),
                ..old(self)@
            }),
    {
        self.published = Some(
            TurnBinding { host_turn_id: text(host_turn_id), lhc_turn_id: text(lhc_turn_id) },
        );
    }

    /// The stored turn that belongs to this turn of the host; none before its
    /// first prompt is stored, or when another turn is bound.
    pub fn durable_turn_id(&self, host_turn_id: &str) -> (r: Option<String>)
        ensures
            r.deep_view() == (if is_bound(self@, host_turn_id@) {
                Some(self@.published->0.lhc_turn_id)
            } else {
                None
            }),
    {
        match &self.published {
            Some(binding) => if text_eq(binding.host_turn_id.as_str(), host_turn_id) {
                Some(binding.lhc_turn_id.clone())
            } else {
                None
            },
            None => None,
        }
    }
}

// ---------------------------------------------------------------------------
// The events of an item
// ---------------------------------------------------------------------------

/// An event with all that its job says.
pub open spec fn dressed(event: EventView, job: PersistJobView) -> EventView {
    let e = match job.usage {
        Some(usage) => with_provider_usage(event, usage_entries(usage)),
        None => event,
    };
    let e = match job.step_index {
        Some(step) => with_step_index(e, step),
        None => e,
    };
    if job.steer {
        with_steer(e)
    } else {
        e
    }
}

/// The model that an item is stored for, when it is known in full.
pub open spec fn known_identity(identity: ModelIdentityView) -> Option<ModelIdentityView> {
    if identity_complete(identity) {
        Some(identity)
    } else {
        None
    }
}

/// The events of a job, `count` being the next occurrence number of its item.
pub open spec fn job_events(thread_id: Seq<char>, job: PersistJobView, count: u64) -> Seq<
    EventView,
> {
    item_events(
        item_key(thread_id, job.item, count),
        job.item,
        job.provenance,
        known_identity(job.identity),
    ).map_values(|e: EventView| dressed(e, job))
}

fn dress(event: &mut MappedEvent, job: &PersistJob)
    ensures
        final(event)@ == dressed(old(event)@, job@),
{
    if let Some(usage) = &job.usage {
        if let Some(entries) = token_usage_to_provider_usage(usage) {
            attach_provider_usage(event, &entries);
        }
    }
    if let Some(step) = job.step_index {
        attach_step_index(event, step);
    }
    if job.steer {
        attach_steer(event);
    }
}

fn map_job(thread_id: &str, job: &PersistJob, tracker: &mut OccurrenceTracker) -> (r: Vec<
    MappedEvent,
>)
    requires
        old(tracker)@.has_room_for(job.item@),
    ensures
        r.deep_view() == job_events(
            thread_id@,
            job@,
            old(tracker)@.count(digest_of(job.item@)),
        ),
        final(tracker)@ == (if stable_id(job.item@) is None {
            old(tracker)@.advanced(digest_of(job.item@))
        } else {
            old(tracker)@
        }),
{
    let identity = if job.identity.is_complete() {
        Some(&job.identity)
    } else {
        None
    };
    let mut left = map_item(thread_id, &job.item, job.provenance, tracker, identity);
    let ghost plain = left.deep_view();
    let ghost all = plain.map_values(|e: EventView| dressed(e, job@));
    let mut back: Vec<MappedEvent> = Vec::new();
    assert(back.deep_view() =~= all.skip(plain.len() as int));
    while left.len() > 0
        invariant
            left.len() <= plain.len(),
            all == plain.map_values(|e: EventView| dressed(e, job@)),
            left.deep_view() == plain.take(left.len() as int),
            back.deep_view() == all.skip(left.len() as int),
        decreases left.len(),
    {
        let ghost n = left.len() as int;
        let ghost front = left.deep_view();
        let ghost end = back.deep_view();
        let next = left.pop();
        if let Some(mut event) = next {
            assert(front[n - 1] == event@);
            assert(left.deep_view() =~= plain.take(n - 1));
            dress(&mut event, job);
            let ghost e = event@;
            back.insert(0, event);
            assert(back.deep_view() =~= seq![e] + end);
            assert(all.skip(n - 1) =~= seq![all[n - 1]] + all.skip(n));
        }
    }
    assert(all.skip(0) =~= all);
    back
}

// ---------------------------------------------------------------------------
// Commands
// ---------------------------------------------------------------------------

/// Something that the worker does.
#[derive(Debug, PartialEq, Eq)]
pub enum CaptureAction {
    /// Store an item.
    Persist(PersistJob),
    /// Store some events as they are.
    Submit(Vec<MappedEvent>),
    /// Say that a flush is done.
    Acknowledge,
    /// Wait until the thread has settled, and say whether it has.
    AwaitSettled,
    /// Say how the capture ended, and end.
    Report,
}

/// What a [`CaptureAction`] stands for.
#[verifier::ext_equal]
pub enum CaptureActionView {
    Persist(PersistJobView),
    Submit(Seq<EventView>),
    Acknowledge,
    AwaitSettled,
    Report,
}

impl View for CaptureAction {
    type V = CaptureActionView;

    open spec fn view(&self) -> CaptureActionView {
        match self {
            CaptureAction::Persist(job) => CaptureActionView::Persist(job@),
            CaptureAction::Submit(events) => CaptureActionView::Submit(events.deep_view()),
            CaptureAction::Acknowledge => CaptureActionView::Acknowledge,
            CaptureAction::AwaitSettled => CaptureActionView::AwaitSettled,
            CaptureAction::Report => CaptureActionView::Report,
        }
    }
}

impl DeepView for CaptureAction {
    type V = CaptureActionView;

    open spec fn deep_view(&self) -> CaptureActionView {
        self@
    }
}

/// The worker of a capture.
#[derive(Debug)]
pub struct CaptureWorker {
    pub thread_id: String,
    pub tracker: OccurrenceTracker,
    pub binder: TurnBinder,
    /// Output of the model, until the usage of its call is known or something
    /// else is stored.
    pub pending: Vec<PendingOutput>,
    /// Which model is live.
    pub identity: ModelIdentity,
    /// Whether something was not stored.
    pub failed: bool,
    /// Whether nothing more is to be accepted.
    pub degraded: bool,
}

/// What a [`CaptureWorker`] stands for.
#[verifier::ext_equal]
pub struct CaptureWorkerView {
    pub thread_id: Seq<char>,
    pub tracker: OccurrenceTrackerView,
    pub binder: TurnBinderView,
    pub pending: Seq<PendingOutputView>,
    pub identity: ModelIdentityView,
    pub failed: bool,
    pub degraded: bool,
}

impl View for CaptureWorker {
    type V = CaptureWorkerView;

    open spec fn view(&self) -> CaptureWorkerView {
        CaptureWorkerView {
            thread_id: self.thread_id@,
            tracker: self.tracker@,
            binder: self.binder@,
            pending: self.pending.deep_view(),
            identity: self.identity@,
            failed: self.failed,
            degraded: self.degraded,
        }
    }
}

/// The job that stores output that has waited.
pub open spec fn pending_job(
    p: PendingOutputView,
    usage: Option<TokenUsageView>,
    identity: ModelIdentityView,
) -> PersistJobView {
    PersistJobView {
        item: p.item,
        provenance: RawItemProvenance::ModelOutput,
        usage,
        step_index: p.step_index,
        steer: false,
        identity,
    }
}

/// What stores all output that has waited, in the order in which it came.
pub open spec fn flush_actions(w: CaptureWorkerView, usage: Option<TokenUsageView>) -> Seq<
    CaptureActionView,
> {
    w.pending.map_values(
        |p: PendingOutputView| CaptureActionView::Persist(pending_job(p, usage, w.identity)),
    )
}

/// The worker with nothing waiting.
pub open spec fn flushed(w: CaptureWorkerView) -> CaptureWorkerView {
    CaptureWorkerView { pending: Seq::empty(), ..w }
}

/// Which model is live behind a change.
pub open spec fn changed_identity(
    identity: ModelIdentityView,
    previous_model: Seq<char>,
    new_model: Seq<char>,
    provider: Option<Seq<char>>,
    api: Option<Seq<char>>,
) -> ModelIdentityView {
    if previous_model == new_model {
        identity
    } else {
        ModelIdentityView {
            model: Some(new_model),
            provider: match provider {
                Some(p) => Some(p),
                None => identity.provider,
            },
            api: match api {
                Some(a) => Some(a),
                None => Some(ModelIdentity::RESPONSES_API@),
            },
        }
    }
}

/// What a command makes the worker do. All but output of the model stores first
/// what has waited, so that nothing overtakes it.
pub open spec fn command_actions(w: CaptureWorkerView, cmd: CaptureCmdView) -> Seq<
    CaptureActionView,
> {
    match cmd {
        CaptureCmdView::BindTurn { .. } => Seq::empty(),
        CaptureCmdView::Persist { item, provenance, step_index, steer } => if provenance
            == RawItemProvenance::ModelOutput {
            Seq::empty()
        } else {
            flush_actions(w, None).push(
                CaptureActionView::Persist(
                    PersistJobView {
                        item,
                        provenance,
                        usage: None,
                        step_index,
                        steer,
                        identity: w.identity,
                    },
                ),
            )
        },
        CaptureCmdView::ProviderUsage { usage } => flush_actions(w, Some(usage)),
        CaptureCmdView::TurnEnd { turn_id, reason, facts } => flush_actions(w, None).push(
            CaptureActionView::Submit(seq![turn_end_event(w.thread_id, turn_id, reason, facts)]),
        ),
        CaptureCmdView::ModelOrThinkingChange {
            previous_model,
            new_model,
            previous_level,
            new_level,
            ..
        } => {
            let events = change_events(
                w.thread_id,
                previous_model,
                new_model,
                previous_level,
                new_level,
            );
            if events.len() == 0 {
                flush_actions(w, None)
            } else {
                flush_actions(w, None).push(CaptureActionView::Submit(events))
            }
        },
        CaptureCmdView::SetIdentity { .. } => flush_actions(w, None),
        CaptureCmdView::RuntimeNote { text, key_suffix } => seq![
            CaptureActionView::Submit(seq![runtime_note_event(w.thread_id, text, key_suffix)]),
        ],
        CaptureCmdView::Flush => flush_actions(w, None).push(CaptureActionView::Acknowledge),
        CaptureCmdView::DrainSettled => seq![CaptureActionView::AwaitSettled],
        CaptureCmdView::Shutdown => flush_actions(w, None).push(CaptureActionView::Report),
    }
}

/// The worker behind a command.
pub open spec fn after_command(w: CaptureWorkerView, cmd: CaptureCmdView) -> CaptureWorkerView {
    match cmd {
        CaptureCmdView::BindTurn { host_turn_id } => CaptureWorkerView {
            binder: TurnBinderView { host_turn_id: Some(host_turn_id), ..w.binder },
            ..w
        },
        CaptureCmdView::Persist { item, provenance, step_index, .. } => if provenance
            == RawItemProvenance::ModelOutput {
            CaptureWorkerView {
                pending: w.pending.push(PendingOutputView { item, step_index }),
                ..w
            }
        } else {
            flushed(w)
        },
        CaptureCmdView::ModelOrThinkingChange {
            previous_model,
            new_model,
            provider,
            api,
            ..
        } => CaptureWorkerView {
            identity: changed_identity(w.identity, previous_model, new_model, provider, api),
            ..flushed(w)
        },
        CaptureCmdView::SetIdentity { identity } => CaptureWorkerView { identity, ..flushed(w) },
        CaptureCmdView::RuntimeNote { .. } => w,
        CaptureCmdView::DrainSettled => w,
        _ => flushed(w),
    }
}

fn push_action(out: &mut Vec<CaptureAction>, action: CaptureAction)
    ensures
        final(out).deep_view() == old(out).deep_view().push(action@),
{
    let ghost before = out.deep_view();
    let ghost view = action@;
    out.push(action);
    assert(out.deep_view() =~= before.push(view));
}

fn one_event(event: MappedEvent) -> (r: Vec<MappedEvent>)
    ensures
        r.deep_view() == seq![event@],
{
    let ghost view = event@;
    let mut v: Vec<MappedEvent> = Vec::new();
    v.push(event);
    assert(v.deep_view() =~= seq![view]);
    v
}

impl CaptureWorker {
    /// A worker that has done nothing. `tracker` knows the keys that the store
    /// holds.
    pub fn new(thread_id: &str, tracker: OccurrenceTracker, identity: ModelIdentity) -> (r: Self)
        ensures
            r@ == (CaptureWorkerView {
                thread_id: thread_id@,
                tracker: tracker@,
                binder: TurnBinderView { host_turn_id: None, published: None },
                pending: Seq::empty(),
                identity: identity@,
                failed: false,
                degraded: false,
            }),
    {
        let pending: Vec<PendingOutput> = Vec::new();
        assert(pending.deep_view() =~= Seq::<PendingOutputView>::empty());
        CaptureWorker {
            thread_id: text(thread_id),
            tracker,
            binder: TurnBinder::new(),
            pending,
            identity,
            failed: false,
            degraded: false,
        }
    }

    /// Takes out all output that has waited, as jobs in the order in which it
    /// came.
    pub fn flush_pending_model_output(&mut self, usage: Option<&TokenUsage>) -> (r: Vec<
        CaptureAction,
    >)
        ensures
            r.deep_view() == flush_actions(old(self)@, usage.deep_view()),
            final(self)@ == flushed(old(self)@),
    {
        let ghost start = self@;
        let ghost all = flush_actions(start, usage.deep_view());
        let mut out: Vec<CaptureAction> = Vec::new();
        assert(out.deep_view() =~= all.take(0));
        let mut i: usize = 0;
        while i < self.pending.len()
            invariant
                i <= self.pending.len(),
                self@ == start,
                all == flush_actions(start, usage.deep_view()),
                out.deep_view() == all.take(i as int),
            decreases self.pending.len() - i,
        {
            let p = &self.pending[i];
            assert(start.pending[i as int] == p@);
            let job = PersistJob {
                item: p.item.clone(),
                provenance: RawItemProvenance::ModelOutput,
                usage: match usage {
                    Some(u) => Some(u.clone()),
                    None => None,
                },
                step_index: p.step_index,
                steer: false,
                identity: self.identity.clone(),
            };
            assert(job@ == pending_job(p@, usage.deep_view(), start.identity));
            push_action(&mut out, CaptureAction::Persist(job));
            assert(all.take(i + 1) =~= all.take(i as int).push(all[i as int]));
            i = i + 1;
        }
        assert(all.take(i as int) =~= all);
        let none: Vec<PendingOutput> = Vec::new();
        assert(none.deep_view() =~= Seq::<PendingOutputView>::empty());
        self.pending = none;
        out
    }

    /// Takes a command and says what to do, in order.
    pub fn take_command(&mut self, cmd: CaptureCmd) -> (r: Vec<CaptureAction>)
        ensures
            r.deep_view() == command_actions(old(self)@, cmd@),
            final(self)@ == after_command(old(self)@, cmd@),
    {
        let ghost start = self@;
        match cmd {
            CaptureCmd::BindTurn { host_turn_id } => {
                self.binder.bind_turn(host_turn_id.as_str());
                let none: Vec<CaptureAction> = Vec::new();
                assert(none.deep_view() =~= Seq::<CaptureActionView>::empty());
                none
            },
            CaptureCmd::Persist { item, provenance, step_index, steer } => {
                if provenance == RawItemProvenance::ModelOutput {
                    let p = PendingOutput { item, step_index };
                    let ghost view = p@;
                    self.pending.push(p);
                    assert(self.pending.deep_view() =~= start.pending.push(view));
                    let none: Vec<CaptureAction> = Vec::new();
                    assert(none.deep_view() =~= Seq::<CaptureActionView>::empty());
                    none
                } else {
                    let mut out = self.flush_pending_model_output(None);
                    let job = PersistJob {
                        item,
                        provenance,
                        usage: None,
                        step_index,
                        steer,
                        identity: self.identity.clone(),
                    };
                    push_action(&mut out, CaptureAction::Persist(job));
                    out
                }
            },
            CaptureCmd::ProviderUsage { usage } => self.flush_pending_model_output(Some(&usage)),
            CaptureCmd::TurnEnd { turn_id, reason, facts } => {
                let mut out = self.flush_pending_model_output(None);
                let event = map_turn_end(
                    self.thread_id.as_str(),
                    turn_id.as_str(),
                    reason.as_str(),
                    &facts,
                );
                push_action(&mut out, CaptureAction::Submit(one_event(event)));
                out
            },
            CaptureCmd::ModelOrThinkingChange {
                previous_model,
                new_model,
                previous_level,
                new_level,
                provider,
                api,
            } => {
                let mut out = self.flush_pending_model_output(None);
                let events = map_model_or_thinking_change(
                    self.thread_id.as_str(),
                    previous_model.as_str(),
                    new_model.as_str(),
                    previous_level.as_str(),
                    new_level.as_str(),
                );
                assert(events.len() == events.deep_view().len());
                if !text_eq(previous_model.as_str(), new_model.as_str()) {
                    self.identity.model = Some(new_model);
                    if let Some(p) = provider {
                        self.identity.provider = Some(p);
                    }
                    self.identity.api = match api {
                        Some(a) => Some(a),
                        None => Some(text(ModelIdentity::RESPONSES_API)),
                    };
                }
                if events.len() > 0 {
                    push_action(&mut out, CaptureAction::Submit(events));
                }
                out
            },
            CaptureCmd::SetIdentity { identity } => {
                let out = self.flush_pending_model_output(None);
                self.identity = identity;
                out
            },
            CaptureCmd::RuntimeNote { text, key_suffix } => {
                let event = map_runtime_note(
                    self.thread_id.as_str(),
                    text.as_str(),
                    key_suffix.as_str(),
                );
                let mut out: Vec<CaptureAction> = Vec::new();
                push_action(&mut out, CaptureAction::Submit(one_event(event)));
                assert(out.deep_view() =~= command_actions(start, cmd@));
                out
            },
            CaptureCmd::Flush => {
                let mut out = self.flush_pending_model_output(None);
                push_action(&mut out, CaptureAction::Acknowledge);
                out
            },
            CaptureCmd::DrainSettled => {
                let mut out: Vec<CaptureAction> = Vec::new();
                push_action(&mut out, CaptureAction::AwaitSettled);
                assert(out.deep_view() =~= command_actions(start, cmd@));
                out
            },
            CaptureCmd::Shutdown => {
                let mut out = self.flush_pending_model_output(None);
                push_action(&mut out, CaptureAction::Report);
                out
            },
        }
    }
}

// ---------------------------------------------------------------------------
// Storing an item
// ---------------------------------------------------------------------------

/// What is to be done to store an item.
#[derive(Debug, PartialEq, Eq)]
pub enum PersistStep {
    /// Nothing.
    Done,
    /// Store these events, and say how that went.
    Submit(Vec<MappedEvent>),
    /// Store this note; how that goes does not matter.
    Note(MappedEvent),
    /// List the stored turns.
    ListTurns,
}

/// What a [`PersistStep`] stands for.
#[verifier::ext_equal]
pub enum PersistStepView {
    Done,
    Submit(Seq<EventView>),
    Note(EventView),
    ListTurns,
}

impl View for PersistStep {
    type V = PersistStepView;

    open spec fn view(&self) -> PersistStepView {
        match self {
            PersistStep::Done => PersistStepView::Done,
            PersistStep::Submit(events) => PersistStepView::Submit(events.deep_view()),
            PersistStep::Note(event) => PersistStepView::Note(event@),
            PersistStep::ListTurns => PersistStepView::ListTurns,
        }
    }
}

/// The occurrence number of the item must be looked up before it is stored.
pub open spec fn needs_lookup(job: PersistJobView) -> bool {
    stable_id(job.item) is None
}

/// The job can be mapped: its item has an identity, or the occurrence number of
/// its own digest can still grow.
pub open spec fn can_map(w: CaptureWorkerView, job: PersistJobView) -> bool {
    w.tracker.has_room_for(job.item)
}

/// The events of a job.
pub open spec fn events_of_job(w: CaptureWorkerView, job: PersistJobView) -> Seq<EventView> {
    job_events(w.thread_id, job, w.tracker.count(digest_of(job.item)))
}

/// What is done for a job, `lookup_error` saying why its occurrence number could
/// not be looked up. An item that could not be looked up is refused, never
/// guessed at.
pub open spec fn begun(
    w: CaptureWorkerView,
    job: PersistJobView,
    lookup_error: Option<Seq<char>>,
) -> PersistStepView {
    if needs_lookup(job) && lookup_error is Some {
        PersistStepView::Note(
            runtime_note_event(
                w.thread_id,
                "LHC capture degraded after anonymous occurrence listing failure: "@
                    + lookup_error->0,
                "occurrence-cap"@,
            ),
        )
    } else if !can_map(w, job) || events_of_job(w, job).len() == 0 {
        PersistStepView::Done
    } else {
        PersistStepView::Submit(events_of_job(w, job))
    }
}

/// The worker once a job was begun.
pub open spec fn after_begin(
    w: CaptureWorkerView,
    job: PersistJobView,
    lookup_error: Option<Seq<char>>,
) -> CaptureWorkerView {
    if needs_lookup(job) && lookup_error is Some {
        CaptureWorkerView { failed: true, degraded: true, ..w }
    } else if !can_map(w, job) {
        CaptureWorkerView { failed: true, ..w }
    } else if stable_id(job.item) is None {
        CaptureWorkerView { tracker: w.tracker.advanced(digest_of(job.item)), ..w }
    } else {
        w
    }
}

/// How the events of an item were stored.
#[derive(Debug, PartialEq, Eq)]
pub enum SubmitOutcome {
    /// They were, and these turns changed.
    Stored(Vec<TurnTransition>),
    /// They were not. `capture_disabled` says that the store gave up.
    Refused { capture_disabled: bool },
}

/// What a [`SubmitOutcome`] stands for.
#[verifier::ext_equal]
pub enum SubmitOutcomeView {
    Stored(Seq<TurnTransitionView>),
    Refused { capture_disabled: bool },
}

impl View for SubmitOutcome {
    type V = SubmitOutcomeView;

    open spec fn view(&self) -> SubmitOutcomeView {
        match self {
            SubmitOutcome::Stored(transitions) => SubmitOutcomeView::Stored(
                transitions.deep_view(),
            ),
            SubmitOutcome::Refused { capture_disabled } => SubmitOutcomeView::Refused {
                capture_disabled: *capture_disabled,
            },
        }
    }
}

/// What follows once the events of an item were submitted.
pub open spec fn submitted(
    w: CaptureWorkerView,
    events: Seq<EventView>,
    outcome: SubmitOutcomeView,
) -> PersistStepView {
    match outcome {
        SubmitOutcomeView::Stored(transitions) => if must_ask(w.binder, events, transitions) {
            PersistStepView::ListTurns
        } else {
            PersistStepView::Done
        },
        SubmitOutcomeView::Refused { capture_disabled } => if capture_disabled {
            PersistStepView::Note(
                runtime_note_event(
                    w.thread_id,
                    "LHC capture permanently disabled after repeated submit failures"@,
                    "disabled"@,
                ),
            )
        } else {
            PersistStepView::Done
        },
    }
}

/// The worker once the events of an item were submitted.
pub open spec fn after_submit(w: CaptureWorkerView, outcome: SubmitOutcomeView) ->
    CaptureWorkerView {
    match outcome {
        SubmitOutcomeView::Stored(transitions) => CaptureWorkerView {
            binder: after_batch(w.binder, transitions),
            ..w
        },
        SubmitOutcomeView::Refused { capture_disabled } => CaptureWorkerView {
            failed: true,
            degraded: w.degraded || capture_disabled,
            ..w
        },
    }
}

/// What the worker says of its end.
pub open spec fn reported(w: CaptureWorkerView) -> CaptureShutdownResult {
    if w.failed || w.degraded {
        CaptureShutdownResult::Failed(CaptureShutdownFailure::PersistenceFailed)
    } else {
        CaptureShutdownResult::Persisted
    }
}

impl PersistJob {
    /// Whether the occurrence number of the item must be looked up before it is
    /// stored: an item without an identity is told apart by it.
    pub fn needs_occurrence_lookup(&self) -> (r: bool)
        ensures
            r == needs_lookup(self@),
    {
        item_stable_id(&self.item).is_none()
    }
}

impl CaptureWorker {
    /// Begins a job, `lookup_error` saying why its occurrence number could not
    /// be looked up. An item whose number has reached its end is dropped and
    /// counts as not stored.
    pub fn persist_item(&mut self, job: &PersistJob, lookup_error: Option<&str>) -> (r: PersistStep)
        ensures
            r@ == begun(old(self)@, job@, lookup_error.deep_view()),
            final(self)@ == after_begin(old(self)@, job@, lookup_error.deep_view()),
    {
        let identified = item_stable_id(&job.item).is_some();
        if !identified {
            if let Some(err) = lookup_error {
                self.failed = true;
                self.degraded = true;
                let mut s = text(
                    "LHC capture degraded after anonymous occurrence listing failure: ",
                );
                s.append(err);
                return PersistStep::Note(
                    map_runtime_note(self.thread_id.as_str(), s.as_str(), "occurrence-cap"),
                );
            }
            if !self.tracker.has_room_for(&job.item) {
                self.failed = true;
                return PersistStep::Done;
            }
        }
        let events = map_job(self.thread_id.as_str(), job, &mut self.tracker);
        assert(events.len() == events.deep_view().len());
        if events.len() == 0 {
            PersistStep::Done
        } else {
            PersistStep::Submit(events)
        }
    }

    /// Takes down how the events of an item were stored.
    pub fn item_submitted(&mut self, events: &Vec<MappedEvent>, outcome: &SubmitOutcome) -> (r:
        PersistStep)
        ensures
            r@ == submitted(old(self)@, events.deep_view(), outcome@),
            final(self)@ == after_submit(old(self)@, outcome@),
    {
        match outcome {
            SubmitOutcome::Stored(transitions) => {
                if self.binder.observe(events, transitions) {
                    PersistStep::ListTurns
                } else {
                    PersistStep::Done
                }
            },
            SubmitOutcome::Refused { capture_disabled } => {
                self.failed = true;
                if *capture_disabled {
                    self.degraded = true;
                    PersistStep::Note(
                        map_runtime_note(
                            self.thread_id.as_str(),
                            "LHC capture permanently disabled after repeated submit failures",
                            "disabled",
                        ),
                    )
                } else {
                    PersistStep::Done
                }
            },
        }
    }

    /// Takes down the stored turns.
    pub fn turns_listed(&mut self, turns: &Vec<TurnRecord>)
        ensures
            final(self)@ == (CaptureWorkerView {
                binder: after_turns(old(self)@.binder, turns.deep_view()),
                ..old(self)@
            }),
    {
        self.binder.observe_turns(turns);
    }

    /// Takes down that events which are no item's were not stored.
    pub fn submit_failed(&mut self)
        ensures
            final(self)@ == (CaptureWorkerView { failed: true, ..old(self)@ }),
    {
        self.failed = true;
    }

    /// What the worker says of its end: that everything is stored only when
    /// nothing failed and nothing was refused.
    pub fn report(&self) -> (r: CaptureShutdownResult)
        ensures
            r == reported(self@),
    {
        if self.failed || self.degraded {
            CaptureShutdownResult::Failed(CaptureShutdownFailure::PersistenceFailed)
        } else {
            CaptureShutdownResult::Persisted
        }
    }
}

// ---------------------------------------------------------------------------
// Laws
// ---------------------------------------------------------------------------

/// The items that some actions store, in order.
pub open spec fn stored_items(actions: Seq<CaptureActionView>) -> Seq<ResponseItemView>
    decreases actions.len(),
{
    if actions.len() == 0 {
        Seq::empty()
    } else {
        match actions.last() {
            CaptureActionView::Persist(job) => stored_items(actions.drop_last()).push(job.item),
            _ => stored_items(actions.drop_last()),
        }
    }
}

/// The items that wait.
pub open spec fn waiting_items(w: CaptureWorkerView) -> Seq<ResponseItemView> {
    w.pending.map_values(|p: PendingOutputView| p.item)
}

/// The item of a command.
pub open spec fn item_of_command(cmd: CaptureCmdView) -> Seq<ResponseItemView> {
    match cmd {
        CaptureCmdView::Persist { item, .. } => seq![item],
        _ => Seq::empty(),
    }
}

proof fn lemma_flush_stores_the_waiting(
    pending: Seq<PendingOutputView>,
    w: CaptureWorkerView,
    usage: Option<TokenUsageView>,
)
    requires
        w.pending == pending,
    ensures
        stored_items(flush_actions(w, usage)) == waiting_items(w),
    decreases pending.len(),
{
    let actions = flush_actions(w, usage);
    if pending.len() > 0 {
        let shorter = CaptureWorkerView { pending: pending.drop_last(), ..w };
        lemma_flush_stores_the_waiting(pending.drop_last(), shorter, usage);
        assert(actions.drop_last() =~= flush_actions(shorter, usage));
        assert(waiting_items(w) =~= waiting_items(shorter).push(pending.last().item));
    } else {
        assert(actions =~= Seq::<CaptureActionView>::empty());
        assert(waiting_items(w) =~= Seq::<ResponseItemView>::empty());
    }
}

/// Every item is stored once, and in the order in which the items came: what a
/// command stores and what waits behind it is what waited before, and then the
/// item of the command.
pub proof fn items_are_stored_in_order(w: CaptureWorkerView, cmd: CaptureCmdView)
    ensures
        stored_items(command_actions(w, cmd)) + waiting_items(after_command(w, cmd))
            == waiting_items(w) + item_of_command(cmd),
{
    let after = after_command(w, cmd);
    let none = Seq::<ResponseItemView>::empty();
    lemma_flush_stores_the_waiting(w.pending, w, None);
    let actions = command_actions(w, cmd);
    if let CaptureCmdView::ProviderUsage { usage } = cmd {
        lemma_flush_stores_the_waiting(w.pending, w, Some(usage));
    }
    assert(waiting_items(flushed(w)) =~= none);
    let flush = flush_actions(w, None);
    assert(forall|a: CaptureActionView| #[trigger] flush.push(a).drop_last() =~= flush);
    assert(stored_items(Seq::<CaptureActionView>::empty()) =~= none);
    match cmd {
        CaptureCmdView::RuntimeNote { .. } => {
            assert(actions.drop_last() =~= Seq::<CaptureActionView>::empty());
        },
        CaptureCmdView::DrainSettled => {
            assert(actions.drop_last() =~= Seq::<CaptureActionView>::empty());
        },
        CaptureCmdView::Persist { item, provenance, .. } => {
            if provenance == RawItemProvenance::ModelOutput {
                assert(waiting_items(after) =~= waiting_items(w).push(item));
            }
        },
        _ => {},
    }
    assert(stored_items(actions) + waiting_items(after) =~= waiting_items(w) + item_of_command(
        cmd,
    ));
}

/// Output of one model is never stored under another: a change of the model
/// stores first what has waited, and under the model that was live.
pub proof fn waiting_output_keeps_its_model(w: CaptureWorkerView, cmd: CaptureCmdView, i: int)
    requires
        0 <= i < command_actions(w, cmd).len(),
        command_actions(w, cmd)[i] is Persist,
    ensures
        command_actions(w, cmd)[i]->Persist_0.identity == w.identity,
        after_command(w, cmd).identity != w.identity ==> after_command(w, cmd).pending.len() == 0,
{
}

/// The usage of a model call goes only with output of the model that has waited
/// for it.
pub proof fn usage_goes_with_waiting_output(w: CaptureWorkerView, cmd: CaptureCmdView, i: int)
    requires
        0 <= i < command_actions(w, cmd).len(),
        command_actions(w, cmd)[i] is Persist,
        command_actions(w, cmd)[i]->Persist_0.usage is Some,
    ensures
        cmd is ProviderUsage,
        command_actions(w, cmd)[i]->Persist_0.provenance == RawItemProvenance::ModelOutput,
        i < w.pending.len(),
{
}

/// A failure is never forgotten: once something was not stored, the worker never
/// says that everything was.
pub proof fn failure_is_never_forgotten(
    w: CaptureWorkerView,
    cmd: CaptureCmdView,
    job: PersistJobView,
    lookup_error: Option<Seq<char>>,
    outcome: SubmitOutcomeView,
)
    requires
        reported(w) is Failed,
    ensures
        reported(after_command(w, cmd)) is Failed,
        reported(after_begin(w, job, lookup_error)) is Failed,
        reported(after_submit(w, outcome)) is Failed,
{
}

/// Whatever is not stored counts as a failure.
pub proof fn refused_items_are_reported(
    w: CaptureWorkerView,
    job: PersistJobView,
    lookup_error: Option<Seq<char>>,
    capture_disabled: bool,
)
    ensures
        needs_lookup(job) && lookup_error is Some ==> reported(
            after_begin(w, job, lookup_error),
        ) is Failed,
        !can_map(w, job) ==> reported(after_begin(w, job, lookup_error)) is Failed,
        reported(after_submit(w, SubmitOutcomeView::Refused { capture_disabled })) is Failed,
{
}

/// A prompt in the middle of a run moves no binding.
pub proof fn steer_moves_no_binding(
    b: TurnBinderView,
    events: Seq<EventView>,
    transitions: Seq<TurnTransitionView>,
)
    requires
        !holds_opening_prompt(events),
        last_opened(transitions, transitions.len() as int) is None,
    ensures
        after_batch(b, transitions) == b,
        !must_ask(b, events, transitions),
{
}

/// A turn of the host that is bound stays bound to the same stored turn, unless
/// another turn is opened.
pub proof fn binding_moves_only_with_a_turn(
    b: TurnBinderView,
    host_turn_id: Seq<char>,
    events: Seq<EventView>,
    transitions: Seq<TurnTransitionView>,
)
    requires
        b.host_turn_id == Some(host_turn_id),
        is_bound(b, host_turn_id),
        last_opened(transitions, transitions.len() as int) is None,
    ensures
        after_batch(b, transitions) == b,
        !must_ask(b, events, transitions),
{
}

/// A stored turn is bound only to the turn of the host that was named last.
pub proof fn bound_turn_was_named(b: TurnBinderView, lhc_turn_id: Seq<char>)
    requires
        b.host_turn_id is Some,
    ensures
        is_bound(with_binding(b, lhc_turn_id), b.host_turn_id->0),
        with_binding(b, lhc_turn_id).published->0.lhc_turn_id == lhc_turn_id,
{
}

/// A prompt in the middle of a run is stored as one, and so is no opening
/// prompt.
pub proof fn steered_prompt_opens_nothing(event: EventView)
    requires
        event.event_kind == "user_prompt"@,
    ensures
        !is_opening_prompt(with_steer(event)),
{
    crate::json::entry_after_write(event.payload, "steer"@, JsonView::Bool(true), "steer"@);
}

} // verus!
