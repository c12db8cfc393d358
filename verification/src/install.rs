//! The capture of a thread, from before it is open to its end, and the commands
//! that the events of the host give rise to.

use vstd::prelude::*;
use vstd::string::*;

use crate::capture::{CaptureCmd, CaptureCmdView};
use crate::capture_intake::{CommandKind, CAPTURE_USER_CAP};
use crate::collections::TextSet;
use crate::compact_continuation::{
    cleared, fresh_guard, recorded, CompactContinuationHysteresis,
    CompactContinuationHysteresisView,
};
use crate::mapping::{
    ModelIdentity, ModelIdentityView, TurnEndFacts, TurnEndFactsView,
};
use crate::protocol::{ResponseItem, ResponseItemView};
use crate::records::{RawItemProvenance, TokenUsage, TokenUsageView};
use crate::rollout::TurnAbortReason;
use crate::text::{text, text_eq};
use crate::timestamps::{iso_of, unix_secs_to_iso};

verus! {

/// How many identities or digests of bodies served earlier are kept.
pub const SESSION_DERIVED_CAP: usize = 512;

/// How many commands may wait for a capture to open: as many as its queue then
/// takes.
pub const PRE_OPEN_CAP: usize = 1023;

/// Why a capture could not be opened.
pub const CAPTURE_OPEN_RUNTIME_UNAVAILABLE: &'static str = "capture open runtime unavailable";

/// Why a capture could not be opened.
pub const CAPTURE_OPEN_FAILED: &'static str = "capture open failed";

/// Why a capture could not be opened.
pub const CAPTURE_OPEN_THREAD_UNAVAILABLE: &'static str = "capture open thread unavailable";

/// Why a capture could not be opened.
pub const CAPTURE_OPEN_ABANDONED: &'static str = "capture open abandoned before settling";

/// A capture that is open: what is known of it here.
#[derive(Debug, PartialEq, Eq)]
pub struct OpenCapture {
    pub thread_id: String,
    /// The directory of its store.
    pub root: Option<String>,
}

/// What a [`OpenCapture`] stands for.
#[verifier::ext_equal]
pub struct OpenCaptureView {
    pub thread_id: Seq<char>,
    pub root: Option<Seq<char>>,
}

impl View for OpenCapture {
    type V = OpenCaptureView;

    open spec fn view(&self) -> OpenCaptureView {
        OpenCaptureView {
            thread_id: self.thread_id.deep_view(),
            root: self.root.deep_view(),
        }
    }
}

impl DeepView for OpenCapture {
    type V = OpenCaptureView;

    open spec fn deep_view(&self) -> OpenCaptureView {
        self@
    }
}

impl Clone for OpenCapture {
    fn clone(&self) -> (r: Self)
        ensures
            r@ == self@,
            r.deep_view() == self.deep_view(),
    {
        OpenCapture {
            thread_id: self.thread_id.clone(),
            root: self.root.clone(),
        }
    }
}

/// Where the capture of a thread stands. Only the first is not settled.
#[derive(Debug, PartialEq, Eq)]
pub enum CaptureState {
    /// Not open yet.
    Opening,
    /// Open.
    Ready(OpenCapture),
    /// It could not be opened, and why.
    Failed(String),
    /// The thread was stopped.
    Stopped,
}

/// What a [`CaptureState`] stands for.
#[verifier::ext_equal]
pub enum CaptureStateView {
    Opening,
    Ready(OpenCaptureView),
    Failed(Seq<char>),
    Stopped,
}

impl View for CaptureState {
    type V = CaptureStateView;

    open spec fn view(&self) -> CaptureStateView {
        match self {
            CaptureState::Opening => CaptureStateView::Opening,
            CaptureState::Ready(x) => CaptureStateView::Ready(x.deep_view()),
            CaptureState::Failed(x) => CaptureStateView::Failed(x.deep_view()),
            CaptureState::Stopped => CaptureStateView::Stopped,
        }
    }
}

impl DeepView for CaptureState {
    type V = CaptureStateView;

    open spec fn deep_view(&self) -> CaptureStateView {
        self@
    }
}

impl Clone for CaptureState {
    fn clone(&self) -> (r: Self)
        ensures
            r@ == self@,
            r.deep_view() == self.deep_view(),
    {
        match self {
            CaptureState::Opening => CaptureState::Opening,
            CaptureState::Ready(x) => CaptureState::Ready(x.clone()),
            CaptureState::Failed(x) => CaptureState::Failed(x.clone()),
            CaptureState::Stopped => CaptureState::Stopped,
        }
    }
}

/// The thread that is read from: its identity and its directory.
#[derive(Debug, PartialEq, Eq)]
pub struct LiveRetrievalThread {
    pub thread_id: String,
    pub root: String,
}

/// What a [`LiveRetrievalThread`] stands for.
#[verifier::ext_equal]
pub struct LiveRetrievalThreadView {
    pub thread_id: Seq<char>,
    pub root: Seq<char>,
}

impl View for LiveRetrievalThread {
    type V = LiveRetrievalThreadView;

    open spec fn view(&self) -> LiveRetrievalThreadView {
        LiveRetrievalThreadView {
            thread_id: self.thread_id.deep_view(),
            root: self.root.deep_view(),
        }
    }
}

impl DeepView for LiveRetrievalThread {
    type V = LiveRetrievalThreadView;

    open spec fn deep_view(&self) -> LiveRetrievalThreadView {
        self@
    }
}

impl Clone for LiveRetrievalThread {
    fn clone(&self) -> (r: Self)
        ensures
            r@ == self@,
            r.deep_view() == self.deep_view(),
    {
        LiveRetrievalThread {
            thread_id: self.thread_id.clone(),
            root: self.root.clone(),
        }
    }
}

/// A command that may have to wait for the capture to open.
#[derive(Debug, PartialEq, Eq)]
pub enum PendingCmd {
    Persist {
        item: ResponseItem,
        provenance: RawItemProvenance,
        step_index: Option<i64>,
        steer: bool,
    },
    ModelOrThinkingChange {
        previous_model: String,
        new_model: String,
        previous_level: String,
        new_level: String,
    },
    ProviderUsage { usage: TokenUsage },
    SetIdentity { identity: ModelIdentity },
    TurnEnd { turn_id: String, reason: String, facts: TurnEndFacts },
    BindTurn { host_turn_id: String },
}

/// What a [`PendingCmd`] stands for.
#[verifier::ext_equal]
pub enum PendingCmdView {
    Persist {
        item: ResponseItemView,
        provenance: RawItemProvenance,
        step_index: Option<i64>,
        steer: bool,
    },
    ModelOrThinkingChange {
        previous_model: Seq<char>,
        new_model: Seq<char>,
        previous_level: Seq<char>,
        new_level: Seq<char>,
    },
    ProviderUsage { usage: TokenUsageView },
    SetIdentity { identity: ModelIdentityView },
    TurnEnd { turn_id: Seq<char>, reason: Seq<char>, facts: TurnEndFactsView },
    BindTurn { host_turn_id: Seq<char> },
}

impl View for PendingCmd {
    type V = PendingCmdView;

    open spec fn view(&self) -> PendingCmdView {
        match self {
            PendingCmd::Persist { item, provenance, step_index, steer } => PendingCmdView::Persist {
                item: item.deep_view(),
                provenance: provenance.deep_view(),
                step_index: step_index.deep_view(),
                steer: steer.deep_view(),
            },
            PendingCmd::ModelOrThinkingChange {
                previous_model,
                new_model,
                previous_level,
                new_level,
            } => PendingCmdView::ModelOrThinkingChange {
                previous_model: previous_model.deep_view(),
                new_model: new_model.deep_view(),
                previous_level: previous_level.deep_view(),
                new_level: new_level.deep_view(),
            },
            PendingCmd::ProviderUsage { usage } => PendingCmdView::ProviderUsage {
                usage: usage.deep_view(),
            },
            PendingCmd::SetIdentity { identity } => PendingCmdView::SetIdentity {
                identity: identity.deep_view(),
            },
            PendingCmd::TurnEnd { turn_id, reason, facts } => PendingCmdView::TurnEnd {
                turn_id: turn_id.deep_view(),
                reason: reason.deep_view(),
                facts: facts.deep_view(),
            },
            PendingCmd::BindTurn { host_turn_id } => PendingCmdView::BindTurn {
                host_turn_id: host_turn_id.deep_view(),
            },
        }
    }
}

impl DeepView for PendingCmd {
    type V = PendingCmdView;

    open spec fn deep_view(&self) -> PendingCmdView {
        self@
    }
}

impl Clone for PendingCmd {
    fn clone(&self) -> (r: Self)
        ensures
            r@ == self@,
            r.deep_view() == self.deep_view(),
    {
        match self {
            PendingCmd::Persist { item, provenance, step_index, steer } => PendingCmd::Persist {
                item: item.clone(),
                provenance: *provenance,
                step_index: step_index.clone(),
                steer: *steer,
            },
            PendingCmd::ModelOrThinkingChange {
                previous_model,
                new_model,
                previous_level,
                new_level,
            } => PendingCmd::ModelOrThinkingChange {
                previous_model: previous_model.clone(),
                new_model: new_model.clone(),
                previous_level: previous_level.clone(),
                new_level: new_level.clone(),
            },
            PendingCmd::ProviderUsage { usage } => PendingCmd::ProviderUsage {
                usage: usage.clone(),
            },
            PendingCmd::SetIdentity { identity } => PendingCmd::SetIdentity {
                identity: identity.clone(),
            },
            PendingCmd::TurnEnd { turn_id, reason, facts } => PendingCmd::TurnEnd {
                turn_id: turn_id.clone(),
                reason: reason.clone(),
                facts: facts.clone(),
            },
            PendingCmd::BindTurn { host_turn_id } => PendingCmd::BindTurn {
                host_turn_id: host_turn_id.clone(),
            },
        }
    }
}

// ---------------------------------------------------------------------------
// States
// ---------------------------------------------------------------------------

impl CaptureState {
    /// Whether waiting for the capture may end.
    pub fn is_settled(&self) -> (r: bool)
        ensures
            r == !(self@ is Opening),
    {
        match self {
            CaptureState::Opening => false,
            _ => true,
        }
    }
}

/// Why nothing can be read from a thread.
#[derive(Debug, Clone, Copy, PartialEq, Eq, Structural)]
pub enum RetrievalLifecycleError {
    /// Its capture is not open yet.
    NotOpen,
    /// Its capture could not be opened.
    OpenFailed,
    /// The thread was stopped.
    Shutdown,
}

/// Why nothing can be read from a thread, in words.
pub open spec fn retrieval_message(e: RetrievalLifecycleError) -> Seq<char> {
    match e {
        RetrievalLifecycleError::NotOpen =>
            "LHC thread is not open yet (capture still starting)"@,
        RetrievalLifecycleError::OpenFailed =>
            "LHC capture failed to open; retrieval unavailable"@,
        RetrievalLifecycleError::Shutdown => "LHC capture has shut down; retrieval unavailable"@,
    }
}

impl RetrievalLifecycleError {
    /// Why nothing can be read from the thread, in words.
    pub fn message(self) -> (r: &'static str)
        ensures
            r@ == retrieval_message(self),
    {
        match self {
            RetrievalLifecycleError::NotOpen =>
                "LHC thread is not open yet (capture still starting)",
            RetrievalLifecycleError::OpenFailed =>
                "LHC capture failed to open; retrieval unavailable",
            RetrievalLifecycleError::Shutdown => "LHC capture has shut down; retrieval unavailable",
        }
    }
}

/// Why an attempt to open a capture came to nothing.
#[derive(Debug, Clone, Copy, PartialEq, Eq, Structural)]
pub enum OpenFailure {
    /// There is no thread to open it on.
    ThreadUnavailable,
    /// There is nothing to run it on.
    RuntimeUnavailable,
    /// The store could not be opened.
    NotOpened,
    /// The attempt ended without a word.
    Abandoned,
}

/// The reason that is shown for a failure.
pub open spec fn failure_reason(f: OpenFailure) -> Seq<char> {
    match f {
        OpenFailure::ThreadUnavailable => CAPTURE_OPEN_THREAD_UNAVAILABLE@,
        OpenFailure::RuntimeUnavailable => CAPTURE_OPEN_RUNTIME_UNAVAILABLE@,
        OpenFailure::NotOpened => CAPTURE_OPEN_FAILED@,
        OpenFailure::Abandoned => CAPTURE_OPEN_ABANDONED@,
    }
}

impl OpenFailure {
    /// The reason that is shown for the failure.
    pub fn reason(self) -> (r: &'static str)
        ensures
            r@ == failure_reason(self),
    {
        match self {
            OpenFailure::ThreadUnavailable => CAPTURE_OPEN_THREAD_UNAVAILABLE,
            OpenFailure::RuntimeUnavailable => CAPTURE_OPEN_RUNTIME_UNAVAILABLE,
            OpenFailure::NotOpened => CAPTURE_OPEN_FAILED,
            OpenFailure::Abandoned => CAPTURE_OPEN_ABANDONED,
        }
    }
}

// ---------------------------------------------------------------------------
// Commands
// ---------------------------------------------------------------------------

/// The kind of a command.
pub open spec fn kind_of(cmd: PendingCmdView) -> CommandKind {
    match cmd {
        PendingCmdView::Persist { .. } => CommandKind::Persist,
        PendingCmdView::ModelOrThinkingChange { .. } => CommandKind::ModelChange,
        PendingCmdView::ProviderUsage { .. } => CommandKind::ProviderUsage,
        PendingCmdView::SetIdentity { .. } => CommandKind::SetIdentity,
        PendingCmdView::TurnEnd { .. } => CommandKind::TurnEnd,
        PendingCmdView::BindTurn { .. } => CommandKind::BindTurn,
    }
}

/// A command as it is sent to the worker. A prompt in the middle of a run has no
/// step; a change that changes nothing is not sent.
pub open spec fn sent_as(cmd: PendingCmdView) -> Option<CaptureCmdView> {
    match cmd {
        PendingCmdView::Persist { item, provenance, step_index, steer } => Some(
            if steer {
                CaptureCmdView::Persist {
                    item,
                    provenance: RawItemProvenance::UserPrompt,
                    step_index: None,
                    steer: true,
                }
            } else {
                CaptureCmdView::Persist { item, provenance, step_index, steer: false }
            },
        ),
        PendingCmdView::ModelOrThinkingChange {
            previous_model,
            new_model,
            previous_level,
            new_level,
        } => if previous_model == new_model && previous_level == new_level {
            None
        } else {
            Some(
                CaptureCmdView::ModelOrThinkingChange {
                    previous_model,
                    new_model,
                    previous_level,
                    new_level,
                    provider: None,
                    api: None,
                },
            )
        },
        PendingCmdView::ProviderUsage { usage } => Some(CaptureCmdView::ProviderUsage { usage }),
        PendingCmdView::SetIdentity { identity } => Some(CaptureCmdView::SetIdentity { identity }),
        PendingCmdView::TurnEnd { turn_id, reason, facts } => Some(
            CaptureCmdView::TurnEnd { turn_id, reason, facts },
        ),
        PendingCmdView::BindTurn { host_turn_id } => Some(
            CaptureCmdView::BindTurn { host_turn_id },
        ),
    }
}

impl PendingCmd {
    /// The kind of the command.
    pub fn kind(&self) -> (r: CommandKind)
        ensures
            r == kind_of(self@),
    {
        match self {
            PendingCmd::Persist { .. } => CommandKind::Persist,
            PendingCmd::ModelOrThinkingChange { .. } => CommandKind::ModelChange,
            PendingCmd::ProviderUsage { .. } => CommandKind::ProviderUsage,
            PendingCmd::SetIdentity { .. } => CommandKind::SetIdentity,
            PendingCmd::TurnEnd { .. } => CommandKind::TurnEnd,
            PendingCmd::BindTurn { .. } => CommandKind::BindTurn,
        }
    }

    /// The command as it is sent to the worker; none where there is nothing to
    /// send.
    pub fn into_capture_cmd(self) -> (r: Option<CaptureCmd>)
        ensures
            r.deep_view() == sent_as(self@),
    {
        match self {
            PendingCmd::Persist { item, provenance, step_index, steer } => if steer {
                Some(
                    CaptureCmd::Persist {
                        item,
                        provenance: RawItemProvenance::UserPrompt,
                        step_index: None,
                        steer: true,
                    },
                )
            } else {
                Some(CaptureCmd::Persist { item, provenance, step_index, steer: false })
            },
            PendingCmd::ModelOrThinkingChange {
                previous_model,
                new_model,
                previous_level,
                new_level,
            } => if text_eq(previous_model.as_str(), new_model.as_str()) && text_eq(
                previous_level.as_str(),
                new_level.as_str(),
            ) {
                None
            } else {
                Some(
                    CaptureCmd::ModelOrThinkingChange {
                        previous_model,
                        new_model,
                        previous_level,
                        new_level,
                        provider: None,
                        api: None,
                    },
                )
            },
            PendingCmd::ProviderUsage { usage } => Some(CaptureCmd::ProviderUsage { usage }),
            PendingCmd::SetIdentity { identity } => Some(CaptureCmd::SetIdentity { identity }),
            PendingCmd::TurnEnd { turn_id, reason, facts } => Some(
                CaptureCmd::TurnEnd { turn_id, reason, facts },
            ),
            PendingCmd::BindTurn { host_turn_id } => Some(CaptureCmd::BindTurn { host_turn_id }),
        }
    }
}

/// The commands that some commands are sent as, in order.
pub open spec fn replayed(cmds: Seq<PendingCmdView>, n: int) -> Seq<CaptureCmdView>
    decreases n,
{
    if n <= 0 {
        Seq::empty()
    } else {
        match sent_as(cmds[n - 1]) {
            Some(cmd) => replayed(cmds, n - 1).push(cmd),
            None => replayed(cmds, n - 1),
        }
    }
}

/// The commands that some commands are sent as, in order.
pub fn replay(cmds: Vec<PendingCmd>) -> (r: Vec<CaptureCmd>)
    ensures
        r.deep_view() == replayed(cmds.deep_view(), cmds.len() as int),
{
    let ghost view = cmds.deep_view();
    let mut out: Vec<CaptureCmd> = Vec::new();
    assert(out.deep_view() =~= replayed(view, 0));
    let mut i: usize = 0;
    while i < cmds.len()
        invariant
            i <= cmds.len(),
            view == cmds.deep_view(),
            out.deep_view() == replayed(view, i as int),
        decreases cmds.len() - i,
    {
        let ghost before = out.deep_view();
        assert(view[i as int] == cmds@[i as int]@);
        if let Some(cmd) = cmds[i].clone().into_capture_cmd() {
            let ghost c = cmd@;
            out.push(cmd);
            assert(out.deep_view() =~= before.push(c));
        }
        i = i + 1;
    }
    out
}

// ---------------------------------------------------------------------------
// Sets in the order in which their members came
// ---------------------------------------------------------------------------

/// The members of a list and then of another, each once.
pub open spec fn appended(a: Seq<Seq<char>>, b: Seq<Seq<char>>) -> Seq<Seq<char>>
    decreases b.len(),
{
    if b.len() == 0 {
        a
    } else {
        let before = appended(a, b.drop_last());
        if before.contains(b.last()) {
            before
        } else {
            before.push(b.last())
        }
    }
}

/// The last `max` members of a list.
pub open spec fn capped(s: Seq<Seq<char>>, max: int) -> Seq<Seq<char>> {
    if s.len() <= max {
        s
    } else {
        s.skip(s.len() - max)
    }
}

/// Those of a list that are not empty.
pub open spec fn without_empty(s: Seq<Seq<char>>) -> Seq<Seq<char>>
    decreases s.len(),
{
    if s.len() == 0 {
        Seq::empty()
    } else if s.last().len() == 0 {
        without_empty(s.drop_last())
    } else {
        without_empty(s.drop_last()).push(s.last())
    }
}

/// A list holds nothing but empty texts.
pub open spec fn all_empty(s: Seq<Seq<char>>) -> bool {
    forall|k: int| 0 <= k < s.len() ==> (#[trigger] s[k]).len() == 0
}

proof fn lemma_nothing_filled(s: Seq<Seq<char>>)
    ensures
        without_empty(s).len() == 0 <==> all_empty(s),
    decreases s.len(),
{
    if s.len() > 0 {
        let front = s.drop_last();
        lemma_nothing_filled(front);
        if all_empty(s) {
            assert(s[s.len() - 1].len() == 0);
            assert forall|k: int| 0 <= k < front.len() implies (#[trigger] front[k]).len() == 0 by {
                assert(s[k].len() == 0);
            }
        }
        if without_empty(s).len() == 0 {
            assert forall|k: int| 0 <= k < s.len() implies (#[trigger] s[k]).len() == 0 by {
                if k < front.len() {
                    assert(front[k].len() == 0);
                }
            }
        }
    }
}

fn keep_filled(v: &Vec<String>) -> (r: Vec<String>)
    ensures
        r.deep_view() == without_empty(v.deep_view()),
{
    let ghost view = v.deep_view();
    let mut out: Vec<String> = Vec::new();
    assert(out.deep_view() =~= without_empty(view.take(0)));
    let mut i: usize = 0;
    while i < v.len()
        invariant
            i <= v.len(),
            view == v.deep_view(),
            out.deep_view() == without_empty(view.take(i as int)),
        decreases v.len() - i,
    {
        let ghost before = out.deep_view();
        assert(view[i as int] == v@[i as int]@);
        assert(view.take(i + 1).drop_last() =~= view.take(i as int));
        if v[i].as_str().unicode_len() > 0 {
            out.push(v[i].clone());
            assert(out.deep_view() =~= before.push(view[i as int]));
        }
        i = i + 1;
    }
    assert(view.take(i as int) =~= view);
    out
}

fn append_texts(set: &mut TextSet, texts: &Vec<String>)
    ensures
        final(set).order() == appended(old(set).order(), texts.deep_view()),
{
    let ghost start = set.order();
    let ghost view = texts.deep_view();
    let mut i: usize = 0;
    assert(view.take(0) =~= Seq::<Seq<char>>::empty());
    while i < texts.len()
        invariant
            i <= texts.len(),
            view == texts.deep_view(),
            set.order() == appended(start, view.take(i as int)),
        decreases texts.len() - i,
    {
        assert(view[i as int] == texts@[i as int]@);
        assert(view.take(i + 1).drop_last() =~= view.take(i as int));
        assert(set@.contains(view[i as int]) == set.order().contains(view[i as int]));
        set.insert(texts[i].as_str());
        i = i + 1;
    }
    assert(view.take(i as int) =~= view);
}

fn append_members(set: &mut TextSet, other: &TextSet)
    ensures
        final(set).order() == appended(old(set).order(), other.order()),
{
    let ghost start = set.order();
    let ghost order = other.order();
    let n: usize = other.len();
    let mut i: usize = 0;
    assert(order.take(0) =~= Seq::<Seq<char>>::empty());
    while i < n
        invariant
            i <= n,
            n == order.len(),
            order == other.order(),
            set.order() == appended(start, order.take(i as int)),
        decreases n - i,
    {
        assert(order.take(i + 1).drop_last() =~= order.take(i as int));
        assert(set@.contains(order[i as int]) == set.order().contains(order[i as int]));
        set.insert(other.at(i).as_str());
        i = i + 1;
    }
    assert(order.take(i as int) =~= order);
}

/// A set of no more than `max` members; the oldest go first.
fn cap_set(set: &TextSet, max: usize) -> (r: TextSet)
    ensures
        r.order() == capped(set.order(), max as int),
{
    let n: usize = set.len();
    if n <= max {
        set.clone()
    } else {
        set.skip(n - max)
    }
}

// ---------------------------------------------------------------------------
// The slot
// ---------------------------------------------------------------------------

/// The capture of one thread: whether it is open, what waits for it, and what
/// was served to the host meanwhile.
#[derive(Debug)]
pub struct LhcCaptureSlot {
    state: CaptureState,
    pending: Vec<PendingCmd>,
    pending_overflow: bool,
    pending_dropped: u64,
    open_scheduled: bool,
    pinned_ids: TextSet,
    pinned_digests: TextSet,
    superseded_ids: TextSet,
    superseded_digests: TextSet,
    mid_turn_hysteresis: CompactContinuationHysteresis,
}

/// What a [`LhcCaptureSlot`] stands for.
#[verifier::ext_equal]
pub struct LhcCaptureSlotView {
    pub state: CaptureStateView,
    /// Commands that wait, in the order in which they came.
    pub pending: Seq<PendingCmdView>,
    /// Whether a command found no place.
    pub pending_overflow: bool,
    pub pending_dropped: u64,
    pub open_scheduled: bool,
    /// Identities of the body that is served now, and of durable records.
    pub pinned_ids: Seq<Seq<char>>,
    pub pinned_digests: Seq<Seq<char>>,
    /// Identities of bodies that were served before.
    pub superseded_ids: Seq<Seq<char>>,
    pub superseded_digests: Seq<Seq<char>>,
    pub mid_turn_hysteresis: CompactContinuationHysteresisView,
}

impl View for LhcCaptureSlot {
    type V = LhcCaptureSlotView;

    closed spec fn view(&self) -> LhcCaptureSlotView {
        LhcCaptureSlotView {
            state: self.state@,
            pending: self.pending.deep_view(),
            pending_overflow: self.pending_overflow,
            pending_dropped: self.pending_dropped,
            open_scheduled: self.open_scheduled,
            pinned_ids: self.pinned_ids.order(),
            pinned_digests: self.pinned_digests.order(),
            superseded_ids: self.superseded_ids.order(),
            superseded_digests: self.superseded_digests.order(),
            mid_turn_hysteresis: self.mid_turn_hysteresis@,
        }
    }
}

/// The identities that a slot knows to have been served.
pub open spec fn derived_ids_of(s: LhcCaptureSlotView) -> Seq<Seq<char>> {
    appended(s.pinned_ids, s.superseded_ids)
}

/// The digests that a slot knows to have been served.
pub open spec fn derived_digests_of(s: LhcCaptureSlotView) -> Seq<Seq<char>> {
    appended(s.pinned_digests, s.superseded_digests)
}

/// Nothing stands twice in a list of what was served.
pub open spec fn nothing_stands_twice(s: LhcCaptureSlotView) -> bool {
    &&& s.pinned_ids.no_duplicates()
    &&& s.pinned_digests.no_duplicates()
    &&& s.superseded_ids.no_duplicates()
    &&& s.superseded_digests.no_duplicates()
}

/// A slot in which nothing happened.
pub open spec fn fresh_slot() -> LhcCaptureSlotView {
    LhcCaptureSlotView {
        state: CaptureStateView::Opening,
        pending: Seq::empty(),
        pending_overflow: false,
        pending_dropped: 0,
        open_scheduled: false,
        pinned_ids: Seq::empty(),
        pinned_digests: Seq::empty(),
        superseded_ids: Seq::empty(),
        superseded_digests: Seq::empty(),
        mid_turn_hysteresis: fresh_guard(),
    }
}

/// The slot once it is settled, unless it was already.
pub open spec fn settled_as(s: LhcCaptureSlotView, state: CaptureStateView) -> LhcCaptureSlotView {
    if s.state is Opening {
        LhcCaptureSlotView { state, ..s }
    } else {
        s
    }
}

/// The slot once the thread was stopped.
pub open spec fn stopped(s: LhcCaptureSlotView) -> LhcCaptureSlotView {
    LhcCaptureSlotView { state: CaptureStateView::Stopped, ..s }
}

/// The slot behind a command that came.
pub open spec fn offered(s: LhcCaptureSlotView, cmd: PendingCmdView) -> LhcCaptureSlotView {
    if !(s.state is Opening) {
        s
    } else if s.pending.len() >= PRE_OPEN_CAP {
        LhcCaptureSlotView {
            pending_overflow: true,
            pending_dropped: if s.pending_dropped == u64::MAX {
                u64::MAX
            } else {
                (s.pending_dropped + 1) as u64
            },
            ..s
        }
    } else {
        LhcCaptureSlotView { pending: s.pending.push(cmd), ..s }
    }
}

/// What is done with a capture that has just been opened.
#[derive(Debug, PartialEq, Eq)]
pub enum FlushStep {
    /// The thread was stopped meanwhile: close it again.
    Abandon,
    /// Send these commands, then ask again.
    Replay { cmds: Vec<PendingCmd>, degrade: bool },
    /// It is in use now.
    Published { degrade: bool },
}

/// What a [`FlushStep`] stands for.
#[verifier::ext_equal]
pub enum FlushStepView {
    Abandon,
    Replay { cmds: Seq<PendingCmdView>, degrade: bool },
    Published { degrade: bool },
}

impl View for FlushStep {
    type V = FlushStepView;

    open spec fn view(&self) -> FlushStepView {
        match self {
            FlushStep::Abandon => FlushStepView::Abandon,
            FlushStep::Replay { cmds, degrade } => FlushStepView::Replay {
                cmds: cmds.deep_view(),
                degrade: *degrade,
            },
            FlushStep::Published { degrade } => FlushStepView::Published { degrade: *degrade },
        }
    }
}

/// What is done with a capture that has just been opened. It is used only once
/// nothing waits any more, and what waits is sent before.
pub open spec fn flush_step_of(s: LhcCaptureSlotView) -> FlushStepView {
    if !(s.state is Opening) {
        FlushStepView::Abandon
    } else if s.pending.len() == 0 {
        FlushStepView::Published { degrade: s.pending_overflow }
    } else {
        FlushStepView::Replay { cmds: s.pending, degrade: s.pending_overflow }
    }
}

/// The slot behind that step.
pub open spec fn after_flush_step(
    s: LhcCaptureSlotView,
    opened: OpenCaptureView,
) -> LhcCaptureSlotView {
    if !(s.state is Opening) {
        s
    } else if s.pending.len() == 0 {
        LhcCaptureSlotView { state: CaptureStateView::Ready(opened), ..s }
    } else {
        LhcCaptureSlotView { pending: Seq::empty(), ..s }
    }
}

/// What is done when a thread is stopped.
#[derive(Debug, PartialEq, Eq)]
pub enum StopStep {
    /// Nothing.
    Nothing,
    /// End the capture.
    Shutdown(OpenCapture),
    /// Nothing; so many commands that waited are lost.
    Dropped(usize),
}

/// What a [`StopStep`] stands for.
#[verifier::ext_equal]
pub enum StopStepView {
    Nothing,
    Shutdown(OpenCaptureView),
    Dropped(nat),
}

impl View for StopStep {
    type V = StopStepView;

    open spec fn view(&self) -> StopStepView {
        match self {
            StopStep::Nothing => StopStepView::Nothing,
            StopStep::Shutdown(opened) => StopStepView::Shutdown(opened@),
            StopStep::Dropped(n) => StopStepView::Dropped(*n as nat),
        }
    }
}

/// The state that a stop goes by: what waiting gave, or, where it took too long,
/// what the slot says now.
pub open spec fn stop_state(s: LhcCaptureSlotView, waited: Option<CaptureStateView>) ->
    CaptureStateView {
    match waited {
        Some(state) => state,
        None => s.state,
    }
}

/// What is done when a thread is stopped.
pub open spec fn stop_step_of(s: LhcCaptureSlotView, waited: Option<CaptureStateView>) ->
    StopStepView {
    match stop_state(s, waited) {
        CaptureStateView::Ready(opened) => StopStepView::Shutdown(opened),
        CaptureStateView::Opening => StopStepView::Dropped(s.pending.len()),
        _ => StopStepView::Nothing,
    }
}

/// The slot behind a stop.
pub open spec fn after_stop(s: LhcCaptureSlotView, waited: Option<CaptureStateView>) ->
    LhcCaptureSlotView {
    if stop_state(s, waited) is Opening {
        LhcCaptureSlotView { pending: Seq::empty(), ..stopped(s) }
    } else {
        stopped(s)
    }
}

/// What the host knows to have been served, once another body is served.
pub open spec fn served_anew(
    s: LhcCaptureSlotView,
    ids: Seq<Seq<char>>,
    digests: Seq<Seq<char>>,
) -> LhcCaptureSlotView {
    LhcCaptureSlotView {
        pinned_ids: appended(Seq::empty(), ids),
        pinned_digests: appended(Seq::empty(), digests),
        superseded_ids: capped(
            appended(s.superseded_ids, s.pinned_ids),
            SESSION_DERIVED_CAP as int,
        ),
        superseded_digests: capped(
            appended(s.superseded_digests, s.pinned_digests),
            SESSION_DERIVED_CAP as int,
        ),
        ..s
    }
}

/// What the host knows to have been served, once a durable record was read.
pub open spec fn known_besides(
    s: LhcCaptureSlotView,
    ids: Seq<Seq<char>>,
    digests: Seq<Seq<char>>,
) -> LhcCaptureSlotView {
    LhcCaptureSlotView {
        pinned_ids: appended(s.pinned_ids, without_empty(ids)),
        pinned_digests: appended(s.pinned_digests, without_empty(digests)),
        ..s
    }
}

impl LhcCaptureSlot {
    /// A slot in which nothing happened.
    pub fn new() -> (r: Self)
        ensures
            r@ == fresh_slot(),
    {
        let pending: Vec<PendingCmd> = Vec::new();
        assert(pending.deep_view() =~= Seq::<PendingCmdView>::empty());
        LhcCaptureSlot {
            state: CaptureState::Opening,
            pending,
            pending_overflow: false,
            pending_dropped: 0,
            open_scheduled: false,
            pinned_ids: TextSet::new(),
            pinned_digests: TextSet::new(),
            superseded_ids: TextSet::new(),
            superseded_digests: TextSet::new(),
            mid_turn_hysteresis: CompactContinuationHysteresis::default(),
        }
    }

    /// Where the capture stands.
    pub fn state(&self) -> (r: CaptureState)
        ensures
            r@ == self@.state,
    {
        self.state.clone()
    }

    /// Claims the right to open the capture; true once.
    pub fn claim_open(&mut self) -> (r: bool)
        ensures
            r == !old(self)@.open_scheduled,
            final(self)@ == (LhcCaptureSlotView { open_scheduled: true, ..old(self)@ }),
    {
        let first = !self.open_scheduled;
        self.open_scheduled = true;
        first
    }

    /// Says that the capture is open. False where the slot is settled already:
    /// then the capture must not be used.
    pub fn publish_ready(&mut self, opened: OpenCapture) -> (r: bool)
        ensures
            r == (old(self)@.state is Opening),
            final(self)@ == settled_as(old(self)@, CaptureStateView::Ready(opened@)),
    {
        if self.state.is_settled() {
            return false;
        }
        self.state = CaptureState::Ready(opened);
        true
    }

    /// Says that the capture could not be opened. False where the slot is
    /// settled already.
    pub fn publish_failed(&mut self, reason: &str) -> (r: bool)
        ensures
            r == (old(self)@.state is Opening),
            final(self)@ == settled_as(old(self)@, CaptureStateView::Failed(reason@)),
    {
        if self.state.is_settled() {
            return false;
        }
        self.state = CaptureState::Failed(text(reason));
        true
    }

    /// Says that an attempt to open the capture came to nothing.
    pub fn open_failed(&mut self, failure: OpenFailure) -> (r: bool)
        ensures
            r == (old(self)@.state is Opening),
            final(self)@ == settled_as(
                old(self)@,
                CaptureStateView::Failed(failure_reason(failure)),
            ),
    {
        self.publish_failed(failure.reason())
    }

    /// Says that the thread was stopped, whatever was before.
    pub fn publish_stopped(&mut self)
        ensures
            final(self)@ == stopped(old(self)@),
    {
        self.state = CaptureState::Stopped;
    }

    /// Says that the thread was stopped, and drops what waits. Gives how many
    /// commands are lost.
    pub fn stop_and_drop_pending(&mut self) -> (r: usize)
        ensures
            r == old(self)@.pending.len(),
            final(self)@ == (LhcCaptureSlotView { pending: Seq::empty(), ..stopped(old(self)@) }),
    {
        let dropped: usize = self.pending.len();
        assert(dropped == self@.pending.len());
        let none: Vec<PendingCmd> = Vec::new();
        assert(none.deep_view() =~= Seq::<PendingCmdView>::empty());
        self.pending = none;
        self.publish_stopped();
        dropped
    }

    /// Stops the thread, `waited` being the state in which waiting for the
    /// capture ended, none where it took too long. A capture that became ready
    /// in the last moment is ended like any other.
    pub fn apply_thread_stop(&mut self, waited: Option<CaptureState>) -> (r: StopStep)
        ensures
            r@ == stop_step_of(old(self)@, waited.deep_view()),
            final(self)@ == after_stop(old(self)@, waited.deep_view()),
    {
        let state = match waited {
            Some(state) => state,
            None => self.state.clone(),
        };
        match state {
            CaptureState::Ready(opened) => {
                self.publish_stopped();
                StopStep::Shutdown(opened)
            },
            CaptureState::Opening => StopStep::Dropped(self.stop_and_drop_pending()),
            _ => {
                self.publish_stopped();
                StopStep::Nothing
            },
        }
    }

    /// The thread to read from. `default_root` is where stores lie unless the
    /// capture says otherwise.
    pub fn resolve_for_retrieval(&self, default_root: &str) -> (r: Result<
        LiveRetrievalThread,
        RetrievalLifecycleError,
    >)
        ensures
            match self@.state {
                CaptureStateView::Ready(opened) => r matches Ok(t) && t@ == (LiveRetrievalThreadView {
                    thread_id: opened.thread_id,
                    root: match opened.root {
                        Some(root) => root,
                        None => default_root@,
                    },
                }),
                CaptureStateView::Opening => r == Err::<
                    LiveRetrievalThread,
                    RetrievalLifecycleError,
                >(RetrievalLifecycleError::NotOpen),
                CaptureStateView::Failed(_) => r == Err::<
                    LiveRetrievalThread,
                    RetrievalLifecycleError,
                >(RetrievalLifecycleError::OpenFailed),
                CaptureStateView::Stopped => r == Err::<
                    LiveRetrievalThread,
                    RetrievalLifecycleError,
                >(RetrievalLifecycleError::Shutdown),
            },
    {
        match &self.state {
            CaptureState::Ready(opened) => Ok(
                LiveRetrievalThread {
                    thread_id: opened.thread_id.clone(),
                    root: match &opened.root {
                        Some(root) => root.clone(),
                        None => text(default_root),
                    },
                },
            ),
            CaptureState::Opening => Err(RetrievalLifecycleError::NotOpen),
            CaptureState::Failed(_) => Err(RetrievalLifecycleError::OpenFailed),
            CaptureState::Stopped => Err(RetrievalLifecycleError::Shutdown),
        }
    }

    /// The capture, when it is open.
    pub fn get(&self) -> (r: Option<OpenCapture>)
        ensures
            r.deep_view() == (match self@.state {
                CaptureStateView::Ready(opened) => Some(opened),
                _ => None,
            }),
    {
        match &self.state {
            CaptureState::Ready(opened) => Some(opened.clone()),
            _ => None,
        }
    }

    /// Takes a command. Gives it back where the capture is open, to be sent now;
    /// else it waits, or is dropped where nothing will ever be sent or there is
    /// no place.
    pub fn buffer_or_handle(&mut self, cmd: PendingCmd) -> (r: Option<PendingCmd>)
        ensures
            r.deep_view() == (if old(self)@.state is Ready {
                Some(cmd@)
            } else {
                None
            }),
            final(self)@ == offered(old(self)@, cmd@),
    {
        match &self.state {
            CaptureState::Ready(_) => {
                return Some(cmd);
            },
            CaptureState::Opening => {},
            _ => {
                return None;
            },
        }
        let ghost before = self.pending.deep_view();
        assert(self.pending.len() == before.len());
        if self.pending.len() >= PRE_OPEN_CAP {
            self.pending_overflow = true;
            if self.pending_dropped < u64::MAX {
                self.pending_dropped = self.pending_dropped + 1;
            }
            return None;
        }
        let ghost view = cmd@;
        self.pending.push(cmd);
        assert(self.pending.deep_view() =~= before.push(view));
        None
    }

    /// Says what is done with a capture that has just been opened: first what
    /// waits is sent, then it is used. Where a command was dropped, the capture
    /// must be closed to further commands before anything is sent.
    pub fn set_and_flush(&mut self, opened: &OpenCapture) -> (r: FlushStep)
        ensures
            r@ == flush_step_of(old(self)@),
            final(self)@ == after_flush_step(old(self)@, opened@),
    {
        if self.state.is_settled() {
            return FlushStep::Abandon;
        }
        let degrade = self.pending_overflow;
        assert(self.pending.len() == self.pending.deep_view().len());
        if self.pending.len() == 0 {
            self.state = CaptureState::Ready(opened.clone());
            return FlushStep::Published { degrade };
        }
        let mut cmds: Vec<PendingCmd> = Vec::new();
        std::mem::swap(&mut cmds, &mut self.pending);
        assert(self.pending.deep_view() =~= Seq::<PendingCmdView>::empty());
        FlushStep::Replay { cmds, degrade }
    }

    /// Takes down what was served once the host holds it for good. What was
    /// served before may be forgotten in time; what is served now never is.
    pub fn mark_derived_after_writeback(&mut self, ids: Vec<String>, digests: Vec<String>) -> (r:
        Result<(), String>)
        ensures
            ({
                if all_empty(ids.deep_view()) && all_empty(digests.deep_view()) {
                    &&& r matches Err(e)
                    &&& e@ == "mark_derived_after_writeback: empty ids and digests"@
                    &&& final(self)@ == old(self)@
                } else {
                    &&& r is Ok
                    &&& final(self)@ == served_anew(
                        old(self)@,
                        without_empty(ids.deep_view()),
                        without_empty(digests.deep_view()),
                    )
                }
            }),
            nothing_stands_twice(old(self)@),
            nothing_stands_twice(final(self)@),
    {
        proof {
            use_type_invariant(&self.pinned_ids);
            use_type_invariant(&self.pinned_digests);
            use_type_invariant(&self.superseded_ids);
            use_type_invariant(&self.superseded_digests);
            lists_hold_nothing_twice(self@, ids.deep_view(), digests.deep_view());
            lemma_nothing_filled(ids.deep_view());
            lemma_nothing_filled(digests.deep_view());
        }
        let ids = keep_filled(&ids);
        let digests = keep_filled(&digests);
        assert(ids.len() == ids.deep_view().len());
        assert(digests.len() == digests.deep_view().len());
        if ids.len() == 0 && digests.len() == 0 {
            return Err(text("mark_derived_after_writeback: empty ids and digests"));
        }
        let mut old_ids = self.superseded_ids.clone();
        append_members(&mut old_ids, &self.pinned_ids);
        self.superseded_ids = cap_set(&old_ids, SESSION_DERIVED_CAP);
        let mut new_ids = TextSet::new();
        append_texts(&mut new_ids, &ids);
        self.pinned_ids = new_ids;
        let mut old_digests = self.superseded_digests.clone();
        append_members(&mut old_digests, &self.pinned_digests);
        self.superseded_digests = cap_set(&old_digests, SESSION_DERIVED_CAP);
        let mut new_digests = TextSet::new();
        append_texts(&mut new_digests, &digests);
        self.pinned_digests = new_digests;
        Ok(())
    }

    /// Takes down what a durable record says was served, besides what is known.
    pub fn ensure_derived_from_durable(&mut self, ids: Vec<String>, digests: Vec<String>)
        ensures
            final(self)@ == known_besides(old(self)@, ids.deep_view(), digests.deep_view()),
    {
        let ids = keep_filled(&ids);
        let digests = keep_filled(&digests);
        let mut new_ids = self.pinned_ids.clone();
        append_texts(&mut new_ids, &ids);
        self.pinned_ids = new_ids;
        let mut new_digests = self.pinned_digests.clone();
        append_texts(&mut new_digests, &digests);
        self.pinned_digests = new_digests;
    }

    /// The identities that are known to have been served.
    pub fn derived_ids(&self) -> (r: TextSet)
        ensures
            r.order() == derived_ids_of(self@),
            r@ == derived_ids_of(self@).to_set(),
            r.order().no_duplicates(),
            nothing_stands_twice(self@),
    {
        proof {
            use_type_invariant(&self.pinned_ids);
            use_type_invariant(&self.pinned_digests);
            use_type_invariant(&self.superseded_ids);
            use_type_invariant(&self.superseded_digests);
            lemma_appended_differs(self@.pinned_ids, self@.superseded_ids);
        }
        let mut all = self.pinned_ids.clone();
        append_members(&mut all, &self.superseded_ids);
        all
    }

    /// The digests that are known to have been served.
    pub fn derived_digests(&self) -> (r: TextSet)
        ensures
            r.order() == derived_digests_of(self@),
            r@ == derived_digests_of(self@).to_set(),
            r.order().no_duplicates(),
            nothing_stands_twice(self@),
    {
        proof {
            use_type_invariant(&self.pinned_ids);
            use_type_invariant(&self.pinned_digests);
            use_type_invariant(&self.superseded_ids);
            use_type_invariant(&self.superseded_digests);
            lemma_appended_differs(self@.pinned_digests, self@.superseded_digests);
        }
        let mut all = self.pinned_digests.clone();
        append_members(&mut all, &self.superseded_digests);
        all
    }

    /// The guard against attempts that reduce nothing.
    pub fn mid_turn_hysteresis(&self) -> (r: CompactContinuationHysteresis)
        ensures
            r@ == self@.mid_turn_hysteresis,
    {
        self.mid_turn_hysteresis.clone()
    }

    /// Disarms the guard behind a compact that was installed.
    pub fn clear_mid_turn_hysteresis(&mut self, attempt_id: &str, pressure: i64, outcome: &str)
        ensures
            final(self)@ == (LhcCaptureSlotView {
                mid_turn_hysteresis: cleared(
                    old(self)@.mid_turn_hysteresis,
                    attempt_id@,
                    pressure,
                    outcome@,
                ),
                ..old(self)@
            }),
    {
        self.mid_turn_hysteresis.clear(attempt_id, pressure, outcome);
    }

    /// Takes an attempt down.
    pub fn record_mid_turn_hysteresis(
        &mut self,
        attempt_id: &str,
        pressure: i64,
        reduced: bool,
        outcome: &str,
    )
        ensures
            final(self)@ == (LhcCaptureSlotView {
                mid_turn_hysteresis: recorded(
                    old(self)@.mid_turn_hysteresis,
                    attempt_id@,
                    pressure,
                    reduced,
                    outcome@,
                ),
                ..old(self)@
            }),
    {
        self.mid_turn_hysteresis.record(attempt_id, pressure, reduced, outcome);
    }
}

// ---------------------------------------------------------------------------
// Steps
// ---------------------------------------------------------------------------

/// The provider cycle of a turn.
#[derive(Debug, Clone, Copy, PartialEq, Eq, Structural)]
pub struct LhcStepIndex {
    /// -1 before the first cycle.
    pub index: i64,
}

/// The index behind one more cycle.
pub open spec fn next_step(step: Option<LhcStepIndex>) -> LhcStepIndex {
    let before = match step {
        Some(s) => s.index as int,
        None => -1,
    };
    LhcStepIndex {
        index: if before == i64::MAX {
            i64::MIN
        } else {
            (before + 1) as i64
        },
    }
}

/// The cycle in progress.
pub open spec fn step_of_turn(step: Option<LhcStepIndex>) -> Option<i64> {
    match step {
        Some(s) => if s.index >= 0 {
            Some(s.index)
        } else {
            None
        },
        None => None,
    }
}

impl LhcStepIndex {
    /// Begins the next cycle of a turn. The first is 0.
    pub fn begin_cycle(turn_store: &mut Option<LhcStepIndex>)
        ensures
            *final(turn_store) == Some(next_step(*old(turn_store))),
    {
        let before: i64 = match turn_store {
            Some(s) => s.index,
            None => -1,
        };
        let index: i64 = if before == i64::MAX {
            i64::MIN
        } else {
            before + 1
        };
        *turn_store = Some(LhcStepIndex { index });
    }

    /// The cycle in progress; none before the first, or outside a turn.
    pub fn current(turn_store: Option<&LhcStepIndex>) -> (r: Option<i64>)
        ensures
            r == step_of_turn(
                match turn_store {
                    Some(s) => Some(*s),
                    None => None,
                },
            ),
    {
        match turn_store {
            Some(s) => if s.index >= 0 {
                Some(s.index)
            } else {
                None
            },
            None => None,
        }
    }
}

// ---------------------------------------------------------------------------
// What the events of the host give rise to
// ---------------------------------------------------------------------------

/// Seconds as a text, when there are any.
pub open spec fn iso_if(secs: Option<i64>) -> Option<Seq<char>> {
    match secs {
        Some(s) => Some(iso_of(s)),
        None => None,
    }
}

/// What the host saw of the end of a turn.
pub open spec fn timing_facts(
    outcome: Option<Seq<char>>,
    outcome_reason: Option<Seq<char>>,
    started_at: Option<i64>,
    completed_at: Option<i64>,
) -> TurnEndFactsView {
    TurnEndFactsView {
        outcome,
        outcome_reason,
        started_at: iso_if(started_at),
        ended_at: iso_if(completed_at),
    }
}

/// What the host saw of the end of a turn, times in seconds since 1970.
pub fn turn_end_timing_facts(
    outcome: Option<&'static str>,
    outcome_reason: Option<String>,
    started_at: Option<i64>,
    completed_at: Option<i64>,
) -> (r: TurnEndFacts)
    ensures
        r@ == timing_facts(
            outcome.deep_view(),
            outcome_reason.deep_view(),
            started_at,
            completed_at,
        ),
{
    TurnEndFacts {
        outcome,
        outcome_reason,
        started_at: match started_at {
            Some(s) => Some(unix_secs_to_iso(s)),
            None => None,
        },
        ended_at: match completed_at {
            Some(s) => Some(unix_secs_to_iso(s)),
            None => None,
        },
    }
}

/// The word for the reason of an abort.
pub open spec fn abort_word(reason: TurnAbortReason) -> Seq<char> {
    match reason {
        TurnAbortReason::Interrupted => "interrupted"@,
        TurnAbortReason::Replaced => "replaced"@,
        TurnAbortReason::ReviewEnded => "review_ended"@,
        TurnAbortReason::BudgetLimited => "budget_limited"@,
    }
}

/// The word for the reason of an abort.
pub fn abort_reason_label(reason: &TurnAbortReason) -> (r: String)
    ensures
        r@ == abort_word(*reason),
{
    match reason {
        TurnAbortReason::Interrupted => text("interrupted"),
        TurnAbortReason::Replaced => text("replaced"),
        TurnAbortReason::ReviewEnded => text("review_ended"),
        TurnAbortReason::BudgetLimited => text("budget_limited"),
    }
}

/// The turn that is under way.
#[derive(Debug, PartialEq, Eq)]
pub struct LhcTurnId(pub String);

/// The identity of the turn that is under way, or a word for none.
pub open spec fn turn_or_unknown(turn: Option<&LhcTurnId>) -> Seq<char> {
    match turn {
        Some(t) => t.0@,
        None => "unknown"@,
    }
}

fn turn_id_or_unknown(turn: Option<&LhcTurnId>) -> (r: String)
    ensures
        r@ == turn_or_unknown(turn),
{
    match turn {
        Some(t) => t.0.clone(),
        None => text("unknown"),
    }
}

/// The command at the start of a turn.
pub fn turn_start_command(turn_id: &str) -> (r: PendingCmd)
    ensures
        r@ == (PendingCmdView::BindTurn { host_turn_id: turn_id@ }),
{
    PendingCmd::BindTurn { host_turn_id: text(turn_id) }
}

/// The command at the end of a turn that was completed.
pub fn turn_stop_command(
    turn: Option<&LhcTurnId>,
    started_at: Option<i64>,
    completed_at: Option<i64>,
) -> (r: PendingCmd)
    ensures
        r@ == (PendingCmdView::TurnEnd {
            turn_id: turn_or_unknown(turn),
            reason: "completed"@,
            facts: timing_facts(Some("completed"@), None, started_at, completed_at),
        }),
{
    PendingCmd::TurnEnd {
        turn_id: turn_id_or_unknown(turn),
        reason: text("completed"),
        facts: turn_end_timing_facts(Some("completed"), None, started_at, completed_at),
    }
}

/// The command at the end of a turn that was aborted.
pub fn turn_abort_command(
    turn: Option<&LhcTurnId>,
    reason: &TurnAbortReason,
    started_at: Option<i64>,
    completed_at: Option<i64>,
) -> (r: PendingCmd)
    ensures
        r@ == (PendingCmdView::TurnEnd {
            turn_id: turn_or_unknown(turn),
            reason: "aborted"@,
            facts: timing_facts(
                Some("aborted"@),
                Some(abort_word(*reason)),
                started_at,
                completed_at,
            ),
        }),
{
    PendingCmd::TurnEnd {
        turn_id: turn_id_or_unknown(turn),
        reason: text("aborted"),
        facts: turn_end_timing_facts(
            Some("aborted"),
            Some(abort_reason_label(reason)),
            started_at,
            completed_at,
        ),
    }
}

/// The command at the end of a turn that failed, `error` saying how.
pub fn turn_error_command(turn_id: &str, error: &str) -> (r: PendingCmd)
    ensures
        r@ == (PendingCmdView::TurnEnd {
            turn_id: turn_id@,
            reason: "error"@,
            facts: timing_facts(Some("aborted"@), Some(error@), None, None),
        }),
{
    PendingCmd::TurnEnd {
        turn_id: text(turn_id),
        reason: text("error"),
        facts: turn_end_timing_facts(Some("aborted"), Some(text(error)), None, None),
    }
}

/// The prompt came in the middle of a run: the host has begun a cycle of the
/// turn. What it says does not matter.
pub open spec fn is_steer(provenance: RawItemProvenance, step_index: Option<i64>) -> bool {
    provenance == RawItemProvenance::UserPrompt && step_index is Some
}

/// The commands for some items.
pub open spec fn item_commands(
    items: Seq<ResponseItemView>,
    provenance: RawItemProvenance,
    step_index: Option<i64>,
) -> Seq<PendingCmdView> {
    items.map_values(
        |item: ResponseItemView|
            PendingCmdView::Persist {
                item,
                provenance,
                step_index,
                steer: is_steer(provenance, step_index),
            },
    )
}

/// The commands for some items that the host has recorded.
pub fn raw_item_commands(
    items: &Vec<ResponseItem>,
    provenance: RawItemProvenance,
    step_index: Option<i64>,
) -> (r: Vec<PendingCmd>)
    ensures
        r.deep_view() == item_commands(items.deep_view(), provenance, step_index),
{
    let ghost view = items.deep_view();
    let steer = provenance == RawItemProvenance::UserPrompt && step_index.is_some();
    let mut out: Vec<PendingCmd> = Vec::new();
    let mut i: usize = 0;
    while i < items.len()
        invariant
            i <= items.len(),
            view == items.deep_view(),
            steer == is_steer(provenance, step_index),
            out.deep_view() =~= item_commands(view.take(i as int), provenance, step_index),
        decreases items.len() - i,
    {
        let ghost before = out.deep_view();
        assert(view[i as int] == items@[i as int]@);
        let cmd = PendingCmd::Persist { item: items[i].clone(), provenance, step_index, steer };
        let ghost c = cmd@;
        out.push(cmd);
        assert(out.deep_view() =~= before.push(c));
        assert(view.take(i + 1) =~= view.take(i as int).push(view[i as int]));
        i = i + 1;
    }
    assert(view.take(i as int) =~= view);
    out
}

/// What is captured of a configuration.
#[derive(Debug, PartialEq, Eq)]
pub struct ModelLabels {
    pub model: String,
    pub provider: String,
    pub thinking_level: String,
}

/// What a [`ModelLabels`] stands for.
#[verifier::ext_equal]
pub struct ModelLabelsView {
    pub model: Seq<char>,
    pub provider: Seq<char>,
    pub thinking_level: Seq<char>,
}

impl View for ModelLabels {
    type V = ModelLabelsView;

    open spec fn view(&self) -> ModelLabelsView {
        ModelLabelsView {
            model: self.model@,
            provider: self.provider@,
            thinking_level: self.thinking_level@,
        }
    }
}

/// Which model some labels name.
pub open spec fn labelled_identity(labels: ModelLabelsView) -> ModelIdentityView {
    ModelIdentityView {
        provider: Some(labels.provider),
        model: Some(labels.model),
        api: Some(ModelIdentity::RESPONSES_API@),
    }
}

/// Which model some labels name.
pub fn identity_of_labels(labels: &ModelLabels) -> (r: ModelIdentity)
    ensures
        r@ == labelled_identity(labels@),
{
    ModelIdentity::new(
        labels.provider.as_str(),
        labels.model.as_str(),
        ModelIdentity::RESPONSES_API,
    )
}

/// The command that says which model is live, when that has changed.
pub open spec fn identity_commands(previous: ModelLabelsView, new: ModelLabelsView) -> Seq<
    PendingCmdView,
> {
    if previous.model != new.model || previous.provider != new.provider {
        seq![PendingCmdView::SetIdentity { identity: labelled_identity(new) }]
    } else {
        Seq::empty()
    }
}

/// The commands for a change of the configuration: which model is live, and what
/// is recorded of the change. Another provider alone is not recorded.
pub open spec fn config_commands(previous: ModelLabelsView, new: ModelLabelsView) -> Seq<
    PendingCmdView,
> {
    if previous.model == new.model && previous.thinking_level == new.thinking_level {
        identity_commands(previous, new)
    } else {
        identity_commands(previous, new).push(
            PendingCmdView::ModelOrThinkingChange {
                previous_model: previous.model,
                new_model: new.model,
                previous_level: previous.thinking_level,
                new_level: new.thinking_level,
            },
        )
    }
}

/// The commands for a change of the configuration, in the order in which they
/// are given.
pub fn config_changed_commands(previous: &ModelLabels, new: &ModelLabels) -> (r: Vec<PendingCmd>)
    ensures
        r.deep_view() == config_commands(previous@, new@),
{
    let same_model = text_eq(previous.model.as_str(), new.model.as_str());
    let same_provider = text_eq(previous.provider.as_str(), new.provider.as_str());
    let same_level = text_eq(previous.thinking_level.as_str(), new.thinking_level.as_str());
    let mut out: Vec<PendingCmd> = Vec::new();
    assert(out.deep_view() =~= Seq::<PendingCmdView>::empty());
    if !same_model || !same_provider {
        let cmd = PendingCmd::SetIdentity { identity: identity_of_labels(new) };
        let ghost c = cmd@;
        out.push(cmd);
        assert(out.deep_view() =~= seq![c]);
    }
    if !same_model || !same_level {
        let ghost before = out.deep_view();
        let cmd = PendingCmd::ModelOrThinkingChange {
            previous_model: previous.model.clone(),
            new_model: new.model.clone(),
            previous_level: previous.thinking_level.clone(),
            new_level: new.thinking_level.clone(),
        };
        let ghost c = cmd@;
        out.push(cmd);
        assert(out.deep_view() =~= before.push(c));
    }
    out
}

// ---------------------------------------------------------------------------
// Laws
// ---------------------------------------------------------------------------

/// What waits for a capture fits into its queue.
pub proof fn waiting_commands_fit_the_queue(s: LhcCaptureSlotView, cmd: PendingCmdView)
    requires
        s.pending.len() <= PRE_OPEN_CAP,
    ensures
        offered(s, cmd).pending.len() <= PRE_OPEN_CAP,
        PRE_OPEN_CAP == CAPTURE_USER_CAP,
{
}

/// A settled slot is never ready or failed anew: of several outcomes the first
/// counts, and a stop is final.
pub proof fn settled_slot_stays_settled(
    s: LhcCaptureSlotView,
    state: CaptureStateView,
    cmd: PendingCmdView,
    opened: OpenCaptureView,
)
    requires
        !(s.state is Opening),
    ensures
        settled_as(s, state) == s,
        after_flush_step(s, opened) == s,
        flush_step_of(s) is Abandon,
        offered(s, cmd) == s,
        stopped(stopped(s)) == stopped(s),
        !(stopped(s).state is Opening),
{
}

/// A thread that is stopped stays stopped, whatever the state of its capture was
/// and however long waiting took.
pub proof fn stop_is_final(
    s: LhcCaptureSlotView,
    waited: Option<CaptureStateView>,
    opened: OpenCaptureView,
    state: CaptureStateView,
)
    ensures
        after_stop(s, waited).state is Stopped,
        after_flush_step(after_stop(s, waited), opened).state is Stopped,
        settled_as(after_stop(s, waited), state).state is Stopped,
        waited is None && s.state is Ready ==> stop_step_of(s, waited) is Shutdown,
{
}

/// Commands are sent in the order in which they came: what waits is sent as a
/// whole and first, and a command that comes meanwhile is sent behind it.
pub proof fn waiting_commands_keep_their_order(
    s: LhcCaptureSlotView,
    cmd: PendingCmdView,
    opened: OpenCaptureView,
)
    requires
        s.state is Opening,
        s.pending.len() < PRE_OPEN_CAP,
    ensures
        flush_step_of(offered(s, cmd)) matches FlushStepView::Replay { cmds, .. } && cmds
            == s.pending.push(cmd),
        after_flush_step(offered(s, cmd), opened).pending.len() == 0,
        after_flush_step(offered(s, cmd), opened).state is Opening,
{
}

/// A capture is used only when nothing waits for it any more.
pub proof fn ready_means_nothing_waits(s: LhcCaptureSlotView, opened: OpenCaptureView)
    requires
        s.state is Opening,
        after_flush_step(s, opened).state is Ready,
    ensures
        s.pending.len() == 0,
        after_flush_step(s, opened).pending.len() == 0,
{
}

/// Once a command was dropped, every later step of the opening says that the
/// capture is degraded: it is never used as a whole one.
pub proof fn dropped_command_degrades_the_capture(
    s: LhcCaptureSlotView,
    cmd: PendingCmdView,
    opened: OpenCaptureView,
)
    ensures
        s.state is Opening && s.pending.len() >= PRE_OPEN_CAP ==> offered(
            s,
            cmd,
        ).pending_overflow,
        s.pending_overflow ==> offered(s, cmd).pending_overflow,
        s.pending_overflow ==> after_flush_step(s, opened).pending_overflow,
        s.pending_overflow ==> (flush_step_of(s) matches FlushStepView::Replay { degrade, .. }
            ==> degrade),
        s.pending_overflow ==> (flush_step_of(s) matches FlushStepView::Published { degrade }
            ==> degrade),
{
}

proof fn lemma_appended_holds(a: Seq<Seq<char>>, b: Seq<Seq<char>>, x: Seq<char>)
    ensures
        appended(a, b).contains(x) == (a.contains(x) || b.contains(x)),
    decreases b.len(),
{
    if b.len() > 0 {
        let before = appended(a, b.drop_last());
        lemma_appended_holds(a, b.drop_last(), x);
        lemma_appended_holds(a, b.drop_last(), b.last());
        assert(b.contains(x) == (b.drop_last().contains(x) || b.last() == x)) by {
            assert(b =~= b.drop_last().push(b.last()));
            if b.contains(x) {
                let i = choose|i: int| 0 <= i < b.len() && b[i] == x;
                if i < b.len() - 1 {
                    assert(b.drop_last()[i] == x);
                }
            }
            if b.drop_last().contains(x) {
                let i = choose|i: int| 0 <= i < b.drop_last().len() && b.drop_last()[i] == x;
                assert(b[i] == x);
            }
            assert(b[b.len() - 1] == b.last());
        }
        if !before.contains(b.last()) {
            assert(before.push(b.last()).contains(x) == (before.contains(x) || b.last() == x)) by {
                let p = before.push(b.last());
                if p.contains(x) {
                    let i = choose|i: int| 0 <= i < p.len() && p[i] == x;
                    if i < before.len() {
                        assert(before[i] == x);
                    }
                }
                if before.contains(x) {
                    let i = choose|i: int| 0 <= i < before.len() && before[i] == x;
                    assert(p[i] == x);
                }
                assert(p[before.len() as int] == b.last());
            }
        }
    } else {
        assert(!b.contains(x));
    }
}

proof fn lemma_appended_differs(a: Seq<Seq<char>>, b: Seq<Seq<char>>)
    requires
        a.no_duplicates(),
    ensures
        appended(a, b).no_duplicates(),
    decreases b.len(),
{
    if b.len() > 0 {
        lemma_appended_differs(a, b.drop_last());
        let before = appended(a, b.drop_last());
        if !before.contains(b.last()) {
            let after = before.push(b.last());
            assert forall|i: int, j: int|
                0 <= i < after.len() && 0 <= j < after.len() && i != j implies after[i]
                != after[j] by {
                if i < before.len() {
                    assert(before.contains(before[i]));
                }
                if j < before.len() {
                    assert(before.contains(before[j]));
                }
            }
        }
    }
}

proof fn lemma_without_empty_holds(s: Seq<Seq<char>>, x: Seq<char>)
    ensures
        without_empty(s).contains(x) == (s.contains(x) && x.len() > 0),
    decreases s.len(),
{
    if s.len() > 0 {
        let front = s.drop_last();
        lemma_without_empty_holds(front, x);
        assert(s =~= front.push(s.last()));
        lemma_push_holds(front, s.last(), x);
        lemma_push_holds(without_empty(front), s.last(), x);
    }
}

proof fn lemma_push_holds(s: Seq<Seq<char>>, last: Seq<char>, x: Seq<char>)
    ensures
        s.push(last).contains(x) == (s.contains(x) || last == x),
{
    let p = s.push(last);
    if p.contains(x) {
        let i = choose|i: int| 0 <= i < p.len() && p[i] == x;
        if i < s.len() {
            assert(s[i] == x);
        }
    }
    if s.contains(x) {
        let i = choose|i: int| 0 <= i < s.len() && s[i] == x;
        assert(p[i] == x);
    }
    assert(p[s.len() as int] == last);
}

/// What is known to have been served, `before` and after `served` was marked:
/// nothing of what was marked is missing, however much it is; the rest was known
/// before, and is no more than the cap; and while what was known fits, all of it
/// is still known.
pub open spec fn is_remembered(
    before: Seq<Seq<char>>,
    served: Seq<Seq<char>>,
    after: Seq<Seq<char>>,
) -> bool {
    &&& after.no_duplicates()
    &&& forall|x: Seq<char>|
        #![trigger served.contains(x)]
        served.contains(x) && x.len() > 0 ==> after.contains(x)
    &&& forall|x: Seq<char>|
        #![trigger after.contains(x)]
        after.contains(x) ==> (served.contains(x) && x.len() > 0) || before.contains(x)
    &&& after.to_set().difference(served.to_set()).len() <= SESSION_DERIVED_CAP
    &&& before.len() <= SESSION_DERIVED_CAP ==> forall|x: Seq<char>|
        #![trigger before.contains(x)]
        before.contains(x) ==> after.contains(x)
}

proof fn lemma_remembered(
    pinned: Seq<Seq<char>>,
    superseded: Seq<Seq<char>>,
    served: Seq<Seq<char>>,
)
    requires
        pinned.no_duplicates(),
        superseded.no_duplicates(),
    ensures
        ({
            let kept = capped(appended(superseded, pinned), SESSION_DERIVED_CAP as int);
            let now = appended(Seq::empty(), without_empty(served));
            &&& kept.no_duplicates()
            &&& now.no_duplicates()
            &&& is_remembered(appended(pinned, superseded), served, appended(now, kept))
        }),
{
    let cap = SESSION_DERIVED_CAP as int;
    let all = appended(superseded, pinned);
    let kept = capped(all, cap);
    let now = appended(Seq::empty(), without_empty(served));
    let before = appended(pinned, superseded);
    let after = appended(now, kept);
    lemma_appended_differs(superseded, pinned);
    lemma_appended_differs(pinned, superseded);
    lemma_appended_differs(Seq::empty(), without_empty(served));
    lemma_appended_differs(now, kept);
    assert forall|x: Seq<char>| kept.contains(x) implies all.contains(x) by {
        let i = choose|i: int| 0 <= i < kept.len() && kept[i] == x;
        if all.len() > cap {
            assert(all[i + (all.len() - cap)] == x);
        }
    }
    assert forall|x: Seq<char>| before.contains(x) == all.contains(x) by {
        lemma_appended_holds(superseded, pinned, x);
        lemma_appended_holds(pinned, superseded, x);
    }
    assert forall|x: Seq<char>| after.contains(x) == ((served.contains(x) && x.len() > 0)
        || kept.contains(x)) by {
        lemma_appended_holds(now, kept, x);
        lemma_appended_holds(Seq::empty(), without_empty(served), x);
        lemma_without_empty_holds(served, x);
    }
    before.unique_seq_to_set();
    all.unique_seq_to_set();
    kept.unique_seq_to_set();
    assert(before.to_set() =~= all.to_set());
    vstd::seq_lib::seq_to_set_is_finite(kept);
    let rest = after.to_set().difference(served.to_set());
    assert(rest.subset_of(kept.to_set())) by {
        assert forall|x: Seq<char>| rest.contains(x) implies kept.to_set().contains(x) by {
            assert(after.contains(x));
        }
    }
    vstd::set_lib::lemma_len_subset(rest, kept.to_set());
}

/// In no list of what was served stands anything twice, from the first on and
/// whatever happens to the slot.
pub proof fn lists_hold_nothing_twice(
    s: LhcCaptureSlotView,
    ids: Seq<Seq<char>>,
    digests: Seq<Seq<char>>,
)
    ensures
        nothing_stands_twice(fresh_slot()),
        nothing_stands_twice(s) ==> nothing_stands_twice(
            served_anew(s, without_empty(ids), without_empty(digests)),
        ),
        nothing_stands_twice(s) ==> nothing_stands_twice(known_besides(s, ids, digests)),
{
    if nothing_stands_twice(s) {
        lemma_remembered(s.pinned_ids, s.superseded_ids, ids);
        lemma_remembered(s.pinned_digests, s.superseded_digests, digests);
        lemma_appended_differs(s.pinned_ids, without_empty(ids));
        lemma_appended_differs(s.pinned_digests, without_empty(digests));
    }
}

/// What is served now is never forgotten, however much it is. Of what was served
/// before no more than the cap is kept besides, and all of it while it fits.
pub proof fn current_body_is_never_forgotten(
    s: LhcCaptureSlotView,
    ids: Seq<Seq<char>>,
    digests: Seq<Seq<char>>,
)
    requires
        nothing_stands_twice(s),
    ensures
        ({
            let after = served_anew(s, without_empty(ids), without_empty(digests));
            &&& is_remembered(derived_ids_of(s), ids, derived_ids_of(after))
            &&& is_remembered(derived_digests_of(s), digests, derived_digests_of(after))
        }),
{
    lemma_remembered(s.pinned_ids, s.superseded_ids, ids);
    lemma_remembered(s.pinned_digests, s.superseded_digests, digests);
}

/// A durable record only ever adds to what is known.
pub proof fn durable_record_only_adds(
    s: LhcCaptureSlotView,
    ids: Seq<Seq<char>>,
    digests: Seq<Seq<char>>,
    x: Seq<char>,
)
    ensures
        ({
            let after = known_besides(s, ids, digests);
            &&& derived_ids_of(after).contains(x) <==> derived_ids_of(s).contains(x) || (
            ids.contains(x) && x.len() > 0)
            &&& derived_digests_of(after).contains(x) <==> derived_digests_of(s).contains(x) || (
            digests.contains(x) && x.len() > 0)
        }),
{
    let after = known_besides(s, ids, digests);
    lemma_without_empty_holds(ids, x);
    lemma_without_empty_holds(digests, x);
    lemma_appended_holds(s.pinned_ids, without_empty(ids), x);
    lemma_appended_holds(s.pinned_digests, without_empty(digests), x);
    lemma_appended_holds(s.pinned_ids, s.superseded_ids, x);
    lemma_appended_holds(s.pinned_digests, s.superseded_digests, x);
    lemma_appended_holds(after.pinned_ids, after.superseded_ids, x);
    lemma_appended_holds(after.pinned_digests, after.superseded_digests, x);
}

/// The cycles of a turn count from 0, without a gap.
pub proof fn cycles_count_from_zero(step: Option<LhcStepIndex>)
    ensures
        step_of_turn(Some(next_step(None))) == Some(0i64),
        step_of_turn(step) matches Some(n) && n < i64::MAX ==> step_of_turn(Some(next_step(step)))
            == Some((step_of_turn(step)->0 + 1) as i64),
{
}

/// Which model is live is said before the change of the model is recorded, and
/// nothing is said where nothing changed.
pub proof fn identity_precedes_the_change(previous: ModelLabelsView, new: ModelLabelsView)
    ensures
        config_commands(previous, previous).len() == 0,
        previous.model != new.model ==> {
            &&& config_commands(previous, new).len() == 2
            &&& config_commands(previous, new)[0] is SetIdentity
            &&& config_commands(previous, new)[1] is ModelOrThinkingChange
        },
{
}

} // verus!
