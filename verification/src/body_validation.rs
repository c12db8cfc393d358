//! Holding the next request body against what a provider accepts, and reducing
//! a body to the best version that can still be sent.
//!
//! Validation detects, it does not veto: every failure it can report has a
//! degradation that leaves a body with legal tool correlation. A pair that
//! cannot be grafted, reasoning that did not survive and content that had to
//! be cut are reported, and the body goes out.

use vstd::prelude::*;
use vstd::string::*;

use crate::json::json_text;
use crate::protocol::{without_provenance, ResponseItem, ResponseItemView};
use crate::text::{
    decimal, decimal_text, holds_text, join, joined, signed_decimal, signed_decimal_text, text,
    text_eq,
};
use crate::wire::{list_to_wire, list_wire, Wire};

verus! {

/// How the size of a body is measured.
pub const BODY_SIZE_SOURCE: &'static str = "codex_materialized_body_o200k_estimate";

// ---------------------------------------------------------------------------
// Types
// ---------------------------------------------------------------------------

/// What a protected call and its output must read like, taken from the live history.
#[derive(Debug, PartialEq, Eq)]
pub struct ProtectedPairExpectation {
    pub call_id: String,
    /// The live call, without host provenance.
    pub call_bytes: String,
    /// The live output, without host provenance.
    pub output_bytes: String,
}

/// What a [`ProtectedPairExpectation`] stands for.
#[verifier::ext_equal]
pub struct ProtectedPairExpectationView {
    pub call_id: Seq<char>,
    pub call_bytes: Seq<char>,
    pub output_bytes: Seq<char>,
}

impl View for ProtectedPairExpectation {
    type V = ProtectedPairExpectationView;

    open spec fn view(&self) -> ProtectedPairExpectationView {
        ProtectedPairExpectationView {
            call_id: self.call_id.deep_view(),
            call_bytes: self.call_bytes.deep_view(),
            output_bytes: self.output_bytes.deep_view(),
        }
    }
}

impl DeepView for ProtectedPairExpectation {
    type V = ProtectedPairExpectationView;

    open spec fn deep_view(&self) -> ProtectedPairExpectationView {
        self@
    }
}

impl Clone for ProtectedPairExpectation {
    fn clone(&self) -> (r: Self)
        ensures
            r@ == self@,
            r.deep_view() == self.deep_view(),
    {
        ProtectedPairExpectation {
            call_id: self.call_id.clone(),
            call_bytes: self.call_bytes.clone(),
            output_bytes: self.output_bytes.clone(),
        }
    }
}

/// What one body is held against.
#[derive(Debug, PartialEq, Eq)]
pub struct BodyValidationSpec {
    pub attempt_id: String,
    /// The protected calls of the response, sorted and each once.
    pub protected_tool_call_ids: Vec<String>,
    /// What each protected pair must read like.
    pub protected_pairs: Vec<ProtectedPairExpectation>,
    /// The signed reasoning that must survive verbatim.
    pub required_encrypted_reasoning: Vec<String>,
    /// The size that the whole body must stay under.
    pub safe_runway_threshold_tokens: Option<i64>,
}

/// What a [`BodyValidationSpec`] stands for.
#[verifier::ext_equal]
pub struct BodyValidationSpecView {
    pub attempt_id: Seq<char>,
    pub protected_tool_call_ids: Seq<Seq<char>>,
    pub protected_pairs: Seq<ProtectedPairExpectationView>,
    pub required_encrypted_reasoning: Seq<Seq<char>>,
    pub safe_runway_threshold_tokens: Option<i64>,
}

impl View for BodyValidationSpec {
    type V = BodyValidationSpecView;

    open spec fn view(&self) -> BodyValidationSpecView {
        BodyValidationSpecView {
            attempt_id: self.attempt_id.deep_view(),
            protected_tool_call_ids: self.protected_tool_call_ids.deep_view(),
            protected_pairs: self.protected_pairs.deep_view(),
            required_encrypted_reasoning: self.required_encrypted_reasoning.deep_view(),
            safe_runway_threshold_tokens: self.safe_runway_threshold_tokens.deep_view(),
        }
    }
}

impl DeepView for BodyValidationSpec {
    type V = BodyValidationSpecView;

    open spec fn deep_view(&self) -> BodyValidationSpecView {
        self@
    }
}

impl Clone for BodyValidationSpec {
    fn clone(&self) -> (r: Self)
        ensures
            r@ == self@,
            r.deep_view() == self.deep_view(),
    {
        BodyValidationSpec {
            attempt_id: self.attempt_id.clone(),
            protected_tool_call_ids: self.protected_tool_call_ids.clone(),
            protected_pairs: self.protected_pairs.clone(),
            required_encrypted_reasoning: self.required_encrypted_reasoning.clone(),
            safe_runway_threshold_tokens: self.safe_runway_threshold_tokens.clone(),
        }
    }
}

/// What a valid body looks like.
#[derive(Debug, Clone, Copy, PartialEq, Eq, Structural)]
pub struct BodyValidationReport {
    pub body_item_count: usize,
    pub body_token_estimate: i64,
    pub safe_runway_threshold_tokens: Option<i64>,
    pub protected_pair_count: usize,
    pub reasoning_preserved_count: usize,
}

/// A protected pair that could not be grafted, and why.
#[derive(Debug, PartialEq, Eq)]
pub struct GraftSkip {
    pub call_id: String,
    pub reason: String,
}

/// What a [`GraftSkip`] stands for.
#[verifier::ext_equal]
pub struct GraftSkipView {
    pub call_id: Seq<char>,
    pub reason: Seq<char>,
}

impl View for GraftSkip {
    type V = GraftSkipView;

    open spec fn view(&self) -> GraftSkipView {
        GraftSkipView {
            call_id: self.call_id.deep_view(),
            reason: self.reason.deep_view(),
        }
    }
}

impl DeepView for GraftSkip {
    type V = GraftSkipView;

    open spec fn deep_view(&self) -> GraftSkipView {
        self@
    }
}

impl Clone for GraftSkip {
    fn clone(&self) -> (r: Self)
        ensures
            r@ == self@,
            r.deep_view() == self.deep_view(),
    {
        GraftSkip {
            call_id: self.call_id.clone(),
            reason: self.reason.clone(),
        }
    }
}

/// Which protected pairs were grafted, and which were left as they were.
#[derive(Debug, PartialEq, Eq)]
pub struct GraftReport {
    /// The calls that now hold the live pair.
    pub grafted: Vec<String>,
    /// The calls that kept the rebuilt pair.
    pub degraded: Vec<GraftSkip>,
}

/// What a [`GraftReport`] stands for.
#[verifier::ext_equal]
pub struct GraftReportView {
    pub grafted: Seq<Seq<char>>,
    pub degraded: Seq<GraftSkipView>,
}

impl View for GraftReport {
    type V = GraftReportView;

    open spec fn view(&self) -> GraftReportView {
        GraftReportView {
            grafted: self.grafted.deep_view(),
            degraded: self.degraded.deep_view(),
        }
    }
}

impl DeepView for GraftReport {
    type V = GraftReportView;

    open spec fn deep_view(&self) -> GraftReportView {
        self@
    }
}

impl Clone for GraftReport {
    fn clone(&self) -> (r: Self)
        ensures
            r@ == self@,
            r.deep_view() == self.deep_view(),
    {
        GraftReport {
            grafted: self.grafted.clone(),
            degraded: self.degraded.clone(),
        }
    }
}

/// What was given up to keep a body sendable.
#[derive(Debug, Clone, Copy, PartialEq, Eq, Structural)]
pub enum BodyDegradationKind {
    /// A call whose output is missing or precedes it.
    DroppedUnpairedToolCall,
    /// An output with no call in the body.
    DroppedOrphanToolOutput,
    /// A second call or output of one identity.
    DroppedDuplicate,
    /// A protected pair that the body does not carry.
    ProtectedPairUnavailable,
    /// A protected pair that does not read like the live one.
    ProtectedPairNotByteStable,
    /// A protected call of which no live pair was captured.
    ProtectedExpectationMissing,
    /// Signed reasoning that did not survive.
    MissingEncryptedReasoning,
    /// Content that was cut to fit under the threshold.
    TruncatedOversizedContent,
    /// Nothing was left to cut, and the body is still too large.
    StillOverThreshold,
}

impl DeepView for BodyDegradationKind {
    type V = BodyDegradationKind;

    open spec fn deep_view(&self) -> BodyDegradationKind {
        *self
    }
}

/// One thing that was given up, in words.
#[derive(Debug, PartialEq, Eq)]
pub struct BodyDegradation {
    pub kind: BodyDegradationKind,
    pub detail: String,
}

/// What a [`BodyDegradation`] stands for.
#[verifier::ext_equal]
pub struct BodyDegradationView {
    pub kind: BodyDegradationKind,
    pub detail: Seq<char>,
}

impl View for BodyDegradation {
    type V = BodyDegradationView;

    open spec fn view(&self) -> BodyDegradationView {
        BodyDegradationView {
            kind: self.kind.deep_view(),
            detail: self.detail.deep_view(),
        }
    }
}

impl DeepView for BodyDegradation {
    type V = BodyDegradationView;

    open spec fn deep_view(&self) -> BodyDegradationView {
        self@
    }
}

impl Clone for BodyDegradation {
    fn clone(&self) -> (r: Self)
        ensures
            r@ == self@,
            r.deep_view() == self.deep_view(),
    {
        BodyDegradation {
            kind: self.kind,
            detail: self.detail.clone(),
        }
    }
}

/// A sendable body, which input items it keeps, and what was given up.
#[derive(Debug, PartialEq, Eq)]
pub struct DegradedBody {
    pub body: Vec<ResponseItem>,
    /// One flag for each input item.
    pub kept: Vec<bool>,
    pub degradations: Vec<BodyDegradation>,
}

/// What a [`DegradedBody`] stands for.
#[verifier::ext_equal]
pub struct DegradedBodyView {
    pub body: Seq<ResponseItemView>,
    pub kept: Seq<bool>,
    pub degradations: Seq<BodyDegradationView>,
}

impl View for DegradedBody {
    type V = DegradedBodyView;

    open spec fn view(&self) -> DegradedBodyView {
        DegradedBodyView {
            body: self.body.deep_view(),
            kept: self.kept.deep_view(),
            degradations: self.degradations.deep_view(),
        }
    }
}

impl DeepView for DegradedBody {
    type V = DegradedBodyView;

    open spec fn deep_view(&self) -> DegradedBodyView {
        self@
    }
}

impl Clone for DegradedBody {
    fn clone(&self) -> (r: Self)
        ensures
            r@ == self@,
            r.deep_view() == self.deep_view(),
    {
        DegradedBody {
            body: self.body.clone(),
            kept: self.kept.clone(),
            degradations: self.degradations.clone(),
        }
    }
}

// ---------------------------------------------------------------------------
// Calls and outputs
// ---------------------------------------------------------------------------

/// The two sides of a tool call.
#[derive(Clone, Copy, PartialEq, Eq, Structural)]
pub enum Side {
    /// The call that the client executes.
    Call,
    /// The output that answers it.
    Output,
}

/// The identity of the call that an item is or answers.
pub open spec fn tool_id(item: ResponseItemView, side: Side) -> Option<Seq<char>> {
    match side {
        Side::Call => match item {
            ResponseItemView::FunctionCall { call_id, .. } => Some(call_id),
            ResponseItemView::CustomToolCall { call_id, .. } => Some(call_id),
            ResponseItemView::LocalShellCall { call_id, .. } => call_id,
            ResponseItemView::ToolSearchCall { call_id, execution, .. } => if execution
                == "client"@ {
                call_id
            } else {
                None
            },
            _ => None,
        },
        Side::Output => match item {
            ResponseItemView::FunctionCallOutput { call_id, .. } => call_id,
            ResponseItemView::CustomToolCallOutput { call_id, .. } => Some(call_id),
            ResponseItemView::ToolSearchOutput { call_id, .. } => call_id,
            _ => None,
        },
    }
}

pub(crate) fn tool_id_ref(item: &ResponseItem, side: Side) -> (r: Option<&String>)
    ensures
        r.deep_view() == tool_id(item@, side),
{
    match side {
        Side::Call => match item {
            ResponseItem::FunctionCall { call_id, .. } => Some(call_id),
            ResponseItem::CustomToolCall { call_id, .. } => Some(call_id),
            ResponseItem::LocalShellCall { call_id, .. } => call_id.as_ref(),
            ResponseItem::ToolSearchCall { call_id, execution, .. } => if text_eq(
                execution.as_str(),
                "client",
            ) {
                call_id.as_ref()
            } else {
                None
            },
            _ => None,
        },
        Side::Output => match item {
            ResponseItem::FunctionCallOutput { call_id, .. } => call_id.as_ref(),
            ResponseItem::CustomToolCallOutput { call_id, .. } => Some(call_id),
            ResponseItem::ToolSearchOutput { call_id, .. } => call_id.as_ref(),
            _ => None,
        },
    }
}

/// The identity of a call that the client executes.
pub fn client_call_id(item: &ResponseItem) -> (r: Option<String>)
    ensures
        r.deep_view() == tool_id(item@, Side::Call),
{
    match tool_id_ref(item, Side::Call) {
        Some(id) => Some(id.clone()),
        None => None,
    }
}

/// The identity of the call that an output answers.
pub fn output_call_id(item: &ResponseItem) -> (r: Option<String>)
    ensures
        r.deep_view() == tool_id(item@, Side::Output),
{
    match tool_id_ref(item, Side::Output) {
        Some(id) => Some(id.clone()),
        None => None,
    }
}

/// The first position at or after `from` whose item is the given side of call
/// `id`; the length when there is none.
pub open spec fn find_from(
    items: Seq<ResponseItemView>,
    side: Side,
    id: Seq<char>,
    from: int,
) -> int
    decreases items.len() - from,
{
    if from < 0 || from >= items.len() {
        items.len() as int
    } else if tool_id(items[from], side) == Some(id) {
        from
    } else {
        find_from(items, side, id, from + 1)
    }
}

/// The first position of the given side of call `id`; the length when none.
pub open spec fn find(items: Seq<ResponseItemView>, side: Side, id: Seq<char>) -> int {
    find_from(items, side, id, 0)
}

/// `find_from` is what it is named for.
pub proof fn lemma_find_from(items: Seq<ResponseItemView>, side: Side, id: Seq<char>, from: int)
    requires
        0 <= from <= items.len(),
    ensures
        from <= find_from(items, side, id, from) <= items.len(),
        find_from(items, side, id, from) < items.len() ==> tool_id(
            items[find_from(items, side, id, from)],
            side,
        ) == Some(id),
        forall|j: int|
            from <= j < find_from(items, side, id, from) ==> tool_id(#[trigger] items[j], side)
                != Some(id),
    decreases items.len() - from,
{
    if from < items.len() && tool_id(items[from], side) != Some(id) {
        lemma_find_from(items, side, id, from + 1);
    }
}

/// `find` is the only position with the property it is named for.
pub proof fn lemma_find_unique(
    items: Seq<ResponseItemView>,
    side: Side,
    id: Seq<char>,
    from: int,
    at: int,
)
    requires
        0 <= from <= at <= items.len(),
        at < items.len() ==> tool_id(items[at], side) == Some(id),
        forall|j: int| from <= j < at ==> tool_id(#[trigger] items[j], side) != Some(id),
    ensures
        find_from(items, side, id, from) == at,
    decreases at - from,
{
    if from < at {
        assert(tool_id(items[from], side) != Some(id));
        lemma_find_unique(items, side, id, from + 1, at);
    }
}

fn has_tool_id(item: &ResponseItem, side: Side, id: &str) -> (r: bool)
    ensures
        r == (tool_id(item@, side) == Some(id@)),
{
    match tool_id_ref(item, side) {
        Some(own) => text_eq(own.as_str(), id),
        None => false,
    }
}

pub(crate) fn position_of(items: &Vec<ResponseItem>, side: Side, id: &str) -> (r: usize)
    ensures
        r == find(items.deep_view(), side, id@),
        r <= items.len(),
{
    let ghost view = items.deep_view();
    let mut i: usize = 0;
    while i < items.len()
        invariant
            i <= items.len(),
            view == items.deep_view(),
            find(view, side, id@) == find_from(view, side, id@, i as int),
        decreases items.len() - i,
    {
        assert(view[i as int] == items@[i as int]@);
        if has_tool_id(&items[i], side, id) {
            return i;
        }
        i = i + 1;
    }
    i
}

/// How many items are the given side of call `id`.
pub open spec fn count(items: Seq<ResponseItemView>, side: Side, id: Seq<char>) -> nat
    decreases items.len(),
{
    if items.len() == 0 {
        0
    } else {
        count(items.drop_last(), side, id) + (if tool_id(items.last(), side) == Some(id) {
            1nat
        } else {
            0nat
        })
    }
}

pub(crate) fn count_of(items: &Vec<ResponseItem>, side: Side, id: &str) -> (r: usize)
    ensures
        r == count(items.deep_view(), side, id@),
{
    let ghost view = items.deep_view();
    let mut n: usize = 0;
    let mut i: usize = 0;
    while i < items.len()
        invariant
            i <= items.len(),
            n <= i,
            view == items.deep_view(),
            n == count(view.take(i as int), side, id@),
        decreases items.len() - i,
    {
        assert(view.take(i + 1).drop_last() =~= view.take(i as int));
        assert(view.take(i + 1).last() == items@[i as int]@);
        if has_tool_id(&items[i], side, id) {
            n = n + 1;
        }
        i = i + 1;
    }
    assert(view.take(i as int) =~= view);
    n
}

// ---------------------------------------------------------------------------
// Normalised items
// ---------------------------------------------------------------------------

/// The JSON notation of an item without host provenance.
pub open spec fn bytes_of(item: ResponseItemView) -> Seq<char> {
    json_text(ResponseItem::wire(without_provenance(item)))
}

/// The JSON notation of an item without host provenance: its identity and the
/// metadata that the host passes through.
pub fn item_bytes_without_id(item: &ResponseItem) -> (r: String)
    ensures
        r@ == bytes_of(item@),
{
    stripped_item(item).to_wire().to_text()
}

fn stripped_item(item: &ResponseItem) -> (r: ResponseItem)
    ensures
        r@ == without_provenance(item@),
{
    let mut stripped = item.clone();
    stripped.strip_provenance();
    stripped
}

/// A copy of an item without host provenance. What goes to the model stays.
pub fn item_without_host_provenance(item: &ResponseItem) -> (r: Result<ResponseItem, String>)
    ensures
        r matches Ok(x) && x@ == without_provenance(item@),
{
    Ok(stripped_item(item))
}

/// The signed reasoning of an item, when it has any.
pub open spec fn signed_reasoning(item: ResponseItemView) -> Option<Seq<char>> {
    match item {
        ResponseItemView::Reasoning { encrypted_content, .. } => match encrypted_content {
            Some(s) => if s.len() > 0 {
                Some(s)
            } else {
                None
            },
            None => None,
        },
        _ => None,
    }
}

fn reasoning_encrypted_content(item: &ResponseItem) -> (r: Option<&String>)
    ensures
        r.deep_view() == signed_reasoning(item@),
{
    match item {
        ResponseItem::Reasoning { encrypted_content, .. } => match encrypted_content {
            Some(s) => if s.as_str().is_empty() {
                None
            } else {
                Some(s)
            },
            None => None,
        },
        _ => None,
    }
}

/// The signed reasoning of some items, in order.
pub open spec fn all_signed_reasoning(items: Seq<ResponseItemView>) -> Seq<Seq<char>>
    decreases items.len(),
{
    if items.len() == 0 {
        Seq::empty()
    } else {
        match signed_reasoning(items.last()) {
            Some(s) => all_signed_reasoning(items.drop_last()).push(s),
            None => all_signed_reasoning(items.drop_last()),
        }
    }
}

pub(crate) fn collect_signed_reasoning(items: &Vec<ResponseItem>, from: usize) -> (r: Vec<String>)
    requires
        from <= items.len(),
    ensures
        r.deep_view() == all_signed_reasoning(items.deep_view().skip(from as int)),
{
    let ghost view = items.deep_view().skip(from as int);
    let mut out: Vec<String> = Vec::new();
    assert(out.deep_view() =~= Seq::<Seq<char>>::empty());
    let mut i: usize = from;
    while i < items.len()
        invariant
            from <= i <= items.len(),
            view == items.deep_view().skip(from as int),
            out.deep_view() == all_signed_reasoning(view.take(i - from)),
        decreases items.len() - i,
    {
        assert(view.take(i + 1 - from).drop_last() =~= view.take(i - from));
        assert(view.take(i + 1 - from).last() == items@[i as int]@);
        let ghost before = out.deep_view();
        if let Some(s) = reasoning_encrypted_content(&items[i]) {
            out.push(s.clone());
            assert(out.deep_view() =~= before.push(s@));
        }
        i = i + 1;
    }
    assert(view.take(i - from) =~= view);
    out
}

// ---------------------------------------------------------------------------
// Expectations
// ---------------------------------------------------------------------------

/// What the pair of call `id` must read like, when the items hold both sides.
pub open spec fn expected_pair(items: Seq<ResponseItemView>, id: Seq<char>) -> Option<
    ProtectedPairExpectationView,
> {
    let call = find(items, Side::Call, id);
    let output = find(items, Side::Output, id);
    if call < items.len() && output < items.len() {
        Some(
            ProtectedPairExpectationView {
                call_id: id,
                call_bytes: bytes_of(items[call]),
                output_bytes: bytes_of(items[output]),
            },
        )
    } else {
        None
    }
}

/// What each pair must read like, of those that the items hold.
pub open spec fn expected_pairs(items: Seq<ResponseItemView>, ids: Seq<Seq<char>>) -> Seq<
    ProtectedPairExpectationView,
>
    decreases ids.len(),
{
    if ids.len() == 0 {
        Seq::empty()
    } else {
        match expected_pair(items, ids.last()) {
            Some(pair) => expected_pairs(items, ids.drop_last()).push(pair),
            None => expected_pairs(items, ids.drop_last()),
        }
    }
}

/// The item is a call with one of the identities.
pub open spec fn is_protected_call(item: ResponseItemView, ids: Seq<Seq<char>>) -> bool {
    match tool_id(item, Side::Call) {
        Some(id) => ids.contains(id),
        None => false,
    }
}

/// The first protected call at or after `from`; the length when there is none.
pub open spec fn first_protected_call(
    items: Seq<ResponseItemView>,
    ids: Seq<Seq<char>>,
    from: int,
) -> int
    decreases items.len() - from,
{
    if from < 0 || from >= items.len() {
        items.len() as int
    } else if is_protected_call(items[from], ids) {
        from
    } else {
        first_protected_call(items, ids, from + 1)
    }
}

/// The item is reasoning or text of the assistant.
pub open spec fn is_model_prose(item: ResponseItemView) -> bool {
    match item {
        ResponseItemView::Reasoning { .. } => true,
        ResponseItemView::Message { role, .. } => role == "assistant"@,
        _ => false,
    }
}

/// Where the run of reasoning and assistant text that ends before `at` begins.
pub open spec fn window_start(items: Seq<ResponseItemView>, at: int) -> int
    decreases at,
{
    if 0 < at <= items.len() && is_model_prose(items[at - 1]) {
        window_start(items, at - 1)
    } else {
        at
    }
}

/// The signed reasoning of the current model window.
pub open spec fn expected_reasoning(items: Seq<ResponseItemView>, ids: Seq<Seq<char>>) -> Seq<
    Seq<char>,
> {
    all_signed_reasoning(items.skip(window_start(items, first_protected_call(items, ids, 0))))
}

/// Takes down what the protected pairs and the signed reasoning of the current
/// model window read like, before anything is changed.
pub fn capture_body_expectations(
    live_items: &Vec<ResponseItem>,
    protected_tool_call_ids: &Vec<String>,
) -> (r: (Vec<ProtectedPairExpectation>, Vec<String>))
    ensures
        r.0.deep_view() == expected_pairs(
            live_items.deep_view(),
            protected_tool_call_ids.deep_view(),
        ),
        r.1.deep_view() == expected_reasoning(
            live_items.deep_view(),
            protected_tool_call_ids.deep_view(),
        ),
{
    let ghost items = live_items.deep_view();
    let ghost ids = protected_tool_call_ids.deep_view();
    let mut pairs: Vec<ProtectedPairExpectation> = Vec::new();
    assert(pairs.deep_view() =~= Seq::<ProtectedPairExpectationView>::empty());
    let mut k: usize = 0;
    while k < protected_tool_call_ids.len()
        invariant
            k <= protected_tool_call_ids.len(),
            items == live_items.deep_view(),
            ids == protected_tool_call_ids.deep_view(),
            pairs.deep_view() == expected_pairs(items, ids.take(k as int)),
        decreases protected_tool_call_ids.len() - k,
    {
        assert(ids.take(k + 1).drop_last() =~= ids.take(k as int));
        assert(ids.take(k + 1).last() == protected_tool_call_ids@[k as int]@);
        let id = protected_tool_call_ids[k].as_str();
        let call: usize = position_of(live_items, Side::Call, id);
        let output: usize = position_of(live_items, Side::Output, id);
        if call < live_items.len() && output < live_items.len() {
            let ghost before = pairs.deep_view();
            let pair = ProtectedPairExpectation {
                call_id: text(id),
                call_bytes: item_bytes_without_id(&live_items[call]),
                output_bytes: item_bytes_without_id(&live_items[output]),
            };
            let ghost view = pair@;
            pairs.push(pair);
            assert(pairs.deep_view() =~= before.push(view));
        }
        k = k + 1;
    }
    assert(ids.take(k as int) =~= ids);
    let mut at: usize = 0;
    let mut found = false;
    while at < live_items.len() && !found
        invariant
            at <= live_items.len(),
            items == live_items.deep_view(),
            ids == protected_tool_call_ids.deep_view(),
            first_protected_call(items, ids, 0) == first_protected_call(items, ids, at as int),
            found ==> at < live_items.len() && is_protected_call(items[at as int], ids),
        decreases live_items.len() - at, (if found {
            0int
        } else {
            1int
        }),
    {
        assert(items[at as int] == live_items@[at as int]@);
        found = match tool_id_ref(&live_items[at], Side::Call) {
            Some(id) => holds_text(protected_tool_call_ids, id.as_str()),
            None => false,
        };
        if !found {
            at = at + 1;
        }
    }
    let ghost first = at as int;
    let mut in_window = true;
    while at > 0 && in_window
        invariant
            at <= live_items.len(),
            items == live_items.deep_view(),
            in_window ==> window_start(items, first) == window_start(items, at as int),
            !in_window ==> window_start(items, first) == at,
        decreases at, (if in_window {
            1int
        } else {
            0int
        }),
    {
        assert(items[at - 1] == live_items@[at - 1]@);
        in_window = match &live_items[at - 1] {
            ResponseItem::Reasoning { .. } => true,
            ResponseItem::Message { role, .. } => text_eq(role.as_str(), "assistant"),
            _ => false,
        };
        if in_window {
            at = at - 1;
        }
    }
    (pairs, collect_signed_reasoning(live_items, at))
}

// ---------------------------------------------------------------------------
// Grafting
// ---------------------------------------------------------------------------

impl GraftReport {
    /// Whether every protected pair was grafted.
    pub fn is_fully_grafted(&self) -> (r: bool)
        ensures
            r == (self@.degraded.len() == 0),
    {
        self.degraded.is_empty()
    }

    /// One line that names every pair that was not grafted, and why.
    pub fn degraded_summary(&self) -> (r: String)
        ensures
            r@ == joined(
                self@.degraded.map_values(|s: GraftSkipView| s.call_id + ": "@ + s.reason),
                "; "@,
            ),
    {
        let mut parts: Vec<String> = Vec::new();
        let mut i: usize = 0;
        while i < self.degraded.len()
            invariant
                i <= self.degraded.len(),
                parts.len() == i,
                forall|k: int|
                    0 <= k < i ==> (#[trigger] parts@[k])@ == self.degraded@[k].call_id@ + ": "@
                        + self.degraded@[k].reason@,
            decreases self.degraded.len() - i,
        {
            let mut s = self.degraded[i].call_id.clone();
            s.append(": ");
            s.append(self.degraded[i].reason.as_str());
            parts.push(s);
            i = i + 1;
        }
        assert(parts.deep_view() =~= self@.degraded.map_values(
            |s: GraftSkipView| s.call_id + ": "@ + s.reason,
        ));
        join(&parts, "; ")
    }
}

impl Default for GraftReport {
    fn default() -> (r: Self)
        ensures
            r@ == (GraftReportView { grafted: Seq::empty(), degraded: Seq::empty() }),
    {
        let r = GraftReport { grafted: Vec::new(), degraded: Vec::new() };
        assert(r@.grafted =~= Seq::empty());
        assert(r@.degraded =~= Seq::empty());
        r
    }
}

/// Why the pair of call `id` cannot be grafted: each side must stand exactly
/// once in the live items and exactly once in the body.
pub open spec fn graft_refusal(
    body: Seq<ResponseItemView>,
    live: Seq<ResponseItemView>,
    id: Seq<char>,
) -> Option<Seq<char>> {
    if count(live, Side::Call, id) != 1 {
        Some("expected exactly 1 live call, found "@ + decimal(count(live, Side::Call, id)))
    } else if count(live, Side::Output, id) != 1 {
        Some("expected exactly 1 live output, found "@ + decimal(count(live, Side::Output, id)))
    } else if count(body, Side::Call, id) != 1 {
        Some(
            "expected exactly 1 call in the materialized body, found "@ + decimal(
                count(body, Side::Call, id),
            ),
        )
    } else if count(body, Side::Output, id) != 1 {
        Some(
            "expected exactly 1 output in the materialized body, found "@ + decimal(
                count(body, Side::Output, id),
            ),
        )
    } else {
        None
    }
}

/// The body with the live pair of call `id` in place of its own.
pub open spec fn with_live_pair(
    body: Seq<ResponseItemView>,
    live: Seq<ResponseItemView>,
    id: Seq<char>,
) -> Seq<ResponseItemView> {
    body.update(
        find(body, Side::Call, id),
        without_provenance(live[find(live, Side::Call, id)]),
    ).update(
        find(body, Side::Output, id),
        without_provenance(live[find(live, Side::Output, id)]),
    )
}

/// The body after grafting the pairs of `ids`, one after the other.
pub open spec fn grafted_body(
    body: Seq<ResponseItemView>,
    live: Seq<ResponseItemView>,
    ids: Seq<Seq<char>>,
) -> Seq<ResponseItemView>
    decreases ids.len(),
{
    if ids.len() == 0 {
        body
    } else {
        let before = grafted_body(body, live, ids.drop_last());
        if graft_refusal(before, live, ids.last()) is None {
            with_live_pair(before, live, ids.last())
        } else {
            before
        }
    }
}

/// The report on grafting the pairs of `ids`, one after the other.
pub open spec fn graft_report(
    body: Seq<ResponseItemView>,
    live: Seq<ResponseItemView>,
    ids: Seq<Seq<char>>,
) -> GraftReportView
    decreases ids.len(),
{
    if ids.len() == 0 {
        GraftReportView { grafted: Seq::empty(), degraded: Seq::empty() }
    } else {
        let before = grafted_body(body, live, ids.drop_last());
        let report = graft_report(body, live, ids.drop_last());
        match graft_refusal(before, live, ids.last()) {
            None => GraftReportView {
                grafted: report.grafted.push(ids.last()),
                degraded: report.degraded,
            },
            Some(reason) => GraftReportView {
                grafted: report.grafted,
                degraded: report.degraded.push(
                    GraftSkipView { call_id: ids.last(), reason },
                ),
            },
        }
    }
}

/// A side that stands once is found.
pub proof fn lemma_count_find(items: Seq<ResponseItemView>, side: Side, id: Seq<char>)
    ensures
        count(items, side, id) > 0 <==> find(items, side, id) < items.len(),
    decreases items.len(),
{
    lemma_find_from(items, side, id, 0);
    if items.len() > 0 {
        lemma_count_find(items.drop_last(), side, id);
        lemma_find_from(items.drop_last(), side, id, 0);
        let f = find(items, side, id);
        let g = find(items.drop_last(), side, id);
        if g < items.len() - 1 {
            assert(tool_id(items[g], side) == Some(id));
            assert(f <= g);
        } else {
            assert forall|j: int| 0 <= j < items.len() - 1 implies tool_id(
                #[trigger] items[j],
                side,
            ) != Some(id) by {
                assert(items.drop_last()[j] == items[j]);
            }
            if tool_id(items.last(), side) == Some(id) {
                lemma_find_unique(items, side, id, 0, items.len() - 1);
            } else {
                lemma_find_unique(items, side, id, 0, items.len() as int);
            }
        }
    }
}

pub(crate) fn counted(prefix: &str, n: usize) -> (r: String)
    ensures
        r@ == prefix@ + decimal(n as nat),
{
    let mut s = text(prefix);
    s.append(decimal_text(n as u128).as_str());
    s
}

fn why_not_grafted(body: &Vec<ResponseItem>, live: &Vec<ResponseItem>, id: &str) -> (r: Option<
    String,
>)
    ensures
        r.deep_view() == graft_refusal(body.deep_view(), live.deep_view(), id@),
{
    let live_calls: usize = count_of(live, Side::Call, id);
    if live_calls != 1 {
        return Some(counted("expected exactly 1 live call, found ", live_calls));
    }
    let live_outputs: usize = count_of(live, Side::Output, id);
    if live_outputs != 1 {
        return Some(counted("expected exactly 1 live output, found ", live_outputs));
    }
    let calls: usize = count_of(body, Side::Call, id);
    if calls != 1 {
        return Some(counted("expected exactly 1 call in the materialized body, found ", calls));
    }
    let outputs: usize = count_of(body, Side::Output, id);
    if outputs != 1 {
        return Some(
            counted("expected exactly 1 output in the materialized body, found ", outputs),
        );
    }
    None
}

/// Puts the live pair of each protected call in place of the rebuilt one.
///
/// Never fails: a pair that cannot be identified on both sides keeps the
/// rebuilt items and is reported.
pub fn graft_live_protected_pairs(
    body: &mut Vec<ResponseItem>,
    live_items: &Vec<ResponseItem>,
    protected_tool_call_ids: &Vec<String>,
) -> (r: GraftReport)
    ensures
        final(body).deep_view() == grafted_body(
            old(body).deep_view(),
            live_items.deep_view(),
            protected_tool_call_ids.deep_view(),
        ),
        r@ == graft_report(
            old(body).deep_view(),
            live_items.deep_view(),
            protected_tool_call_ids.deep_view(),
        ),
{
    let ghost start = body.deep_view();
    let ghost live = live_items.deep_view();
    let ghost ids = protected_tool_call_ids.deep_view();
    let mut report = GraftReport::default();
    let mut k: usize = 0;
    while k < protected_tool_call_ids.len()
        invariant
            k <= protected_tool_call_ids.len(),
            live == live_items.deep_view(),
            ids == protected_tool_call_ids.deep_view(),
            start == old(body).deep_view(),
            body.deep_view() == grafted_body(start, live, ids.take(k as int)),
            report@ == graft_report(start, live, ids.take(k as int)),
        decreases protected_tool_call_ids.len() - k,
    {
        assert(ids.take(k + 1).drop_last() =~= ids.take(k as int));
        assert(ids.take(k + 1).last() == protected_tool_call_ids@[k as int]@);
        let id = protected_tool_call_ids[k].as_str();
        let ghost before = body.deep_view();
        let ghost report_before = report@;
        match why_not_grafted(body, live_items, id) {
            Some(reason) => {
                let skip = GraftSkip { call_id: text(id), reason };
                let ghost view = skip@;
                report.degraded.push(skip);
                assert(report@.degraded =~= report_before.degraded.push(view));
            },
            None => {
                proof {
                    lemma_count_find(live, Side::Call, id@);
                    lemma_count_find(live, Side::Output, id@);
                    lemma_count_find(before, Side::Call, id@);
                    lemma_count_find(before, Side::Output, id@);
                }
                let live_call: usize = position_of(live_items, Side::Call, id);
                let live_output: usize = position_of(live_items, Side::Output, id);
                let call: usize = position_of(body, Side::Call, id);
                let output: usize = position_of(body, Side::Output, id);
                let new_call = stripped_item(&live_items[live_call]);
                let new_output = stripped_item(&live_items[live_output]);
                body.set(call, new_call);
                body.set(output, new_output);
                assert(body.deep_view() =~= with_live_pair(before, live, id@));
                report.grafted.push(text(id));
                assert(report@.grafted =~= report_before.grafted.push(id@));
            },
        }
        k = k + 1;
    }
    assert(ids.take(k as int) =~= ids);
    report
}

// ---------------------------------------------------------------------------
// Size
// ---------------------------------------------------------------------------

/// The JSON notation of a body.
pub open spec fn body_text(items: Seq<ResponseItemView>) -> Seq<char> {
    json_text(list_wire::<ResponseItem>(items))
}

/// `n` is what `f` may say of a text.
pub open spec fn may_estimate<F: Fn(&str) -> i64>(f: F, s: Seq<char>, n: i64) -> bool {
    exists|t: &str| t@ == s && #[trigger] f.ensures((t,), n)
}

/// `f` measures texts: it takes every text, and says the same of the same text.
pub open spec fn is_estimator<F: Fn(&str) -> i64>(f: F) -> bool {
    &&& forall|t: &str| #[trigger] f.requires((t,))
    &&& forall|s: Seq<char>, m: i64, n: i64|
        #[trigger] may_estimate(f, s, m) && #[trigger] may_estimate(f, s, n) ==> m == n
}

/// What `f` says of a text.
pub open spec fn estimated<F: Fn(&str) -> i64>(f: F, s: Seq<char>) -> i64 {
    choose|n: i64| may_estimate(f, s, n)
}

/// What `f` says of a body.
pub open spec fn body_estimate<F: Fn(&str) -> i64>(f: F, items: Seq<ResponseItemView>) -> i64 {
    estimated(f, body_text(items))
}

/// The size of a body: what the estimator says of its JSON notation, in which
/// tool results and every other item count in full.
pub fn estimate_response_items_tokens<F: Fn(&str) -> i64>(
    items: &Vec<ResponseItem>,
    estimate_tokens: &F,
) -> (r: i64)
    requires
        is_estimator(*estimate_tokens),
    ensures
        r == body_estimate(*estimate_tokens, items.deep_view()),
{
    let serialized = list_to_wire(items).to_text();
    let s = serialized.as_str();
    let n: i64 = estimate_tokens(s);
    assert(may_estimate(*estimate_tokens, s@, n));
    n
}

// ---------------------------------------------------------------------------
// Validation
// ---------------------------------------------------------------------------

/// The first of two errors.
pub open spec fn first_error(a: Option<Seq<char>>, b: Option<Seq<char>>) -> Option<Seq<char>> {
    match a {
        Some(e) => Some(e),
        None => b,
    }
}

/// The item at `i` repeats a call or an output that stands earlier.
pub open spec fn duplicate_at(body: Seq<ResponseItemView>, i: int, side: Side) -> bool {
    match tool_id(body[i], side) {
        Some(id) => find(body, side, id) < i,
        None => false,
    }
}

/// The first repeated call or output at or after `i`.
pub open spec fn duplicate_error(body: Seq<ResponseItemView>, i: int) -> Option<Seq<char>>
    decreases body.len() - i,
{
    if i < 0 || i >= body.len() {
        None
    } else if duplicate_at(body, i, Side::Call) {
        Some("duplicate tool call for call_id "@ + tool_id(body[i], Side::Call)->0)
    } else if duplicate_at(body, i, Side::Output) {
        Some("duplicate tool output for call_id "@ + tool_id(body[i], Side::Output)->0)
    } else {
        duplicate_error(body, i + 1)
    }
}

/// The first call at or after `i` whose output is missing or precedes it.
pub open spec fn unpaired_error(body: Seq<ResponseItemView>, i: int) -> Option<Seq<char>>
    decreases body.len() - i,
{
    if i < 0 || i >= body.len() {
        None
    } else {
        match tool_id(body[i], Side::Call) {
            Some(id) => if find(body, Side::Output, id) >= body.len() {
                Some("tool call without output for call_id "@ + id)
            } else if find(body, Side::Output, id) <= i {
                Some("tool output precedes call for call_id "@ + id)
            } else {
                unpaired_error(body, i + 1)
            },
            None => unpaired_error(body, i + 1),
        }
    }
}

/// The first output at or after `i` that answers no call.
pub open spec fn orphan_error(body: Seq<ResponseItemView>, i: int) -> Option<Seq<char>>
    decreases body.len() - i,
{
    if i < 0 || i >= body.len() {
        None
    } else {
        match tool_id(body[i], Side::Output) {
            Some(id) => if find(body, Side::Call, id) >= body.len() {
                Some("orphan tool output for call_id "@ + id)
            } else {
                orphan_error(body, i + 1)
            },
            None => orphan_error(body, i + 1),
        }
    }
}

/// What is wrong with the correlation of calls and outputs.
pub open spec fn correlation_error(body: Seq<ResponseItemView>) -> Option<Seq<char>> {
    first_error(
        duplicate_error(body, 0),
        first_error(unpaired_error(body, 0), orphan_error(body, 0)),
    )
}

/// What is wrong with one protected pair.
pub open spec fn protected_pair_error(
    body: Seq<ResponseItemView>,
    pair: ProtectedPairExpectationView,
) -> Option<Seq<char>> {
    let call = find(body, Side::Call, pair.call_id);
    let output = find(body, Side::Output, pair.call_id);
    if call >= body.len() {
        Some("protected call "@ + pair.call_id + " missing from materialized body"@)
    } else if output >= body.len() {
        Some("protected output "@ + pair.call_id + " missing from materialized body"@)
    } else if output <= call {
        Some("protected pair "@ + pair.call_id + " out of order in materialized body"@)
    } else if bytes_of(body[call]) != pair.call_bytes {
        Some("protected call "@ + pair.call_id + " not byte-stable in materialized body"@)
    } else if bytes_of(body[output]) != pair.output_bytes {
        Some("protected output "@ + pair.call_id + " not byte-stable in materialized body"@)
    } else {
        None
    }
}

/// What is wrong with the protected pairs from the `k`-th on.
pub open spec fn protected_pairs_error(
    body: Seq<ResponseItemView>,
    pairs: Seq<ProtectedPairExpectationView>,
    k: int,
) -> Option<Seq<char>>
    decreases pairs.len() - k,
{
    if k < 0 || k >= pairs.len() {
        None
    } else {
        first_error(
            protected_pair_error(body, pairs[k]),
            protected_pairs_error(body, pairs, k + 1),
        )
    }
}

/// Every text of `required` is one of `present`.
pub open spec fn all_present(required: Seq<Seq<char>>, present: Seq<Seq<char>>) -> bool {
    forall|i: int| 0 <= i < required.len() ==> present.contains(#[trigger] required[i])
}

/// What is wrong with a body, `estimate` being its size: the first failure of
/// correlation, of the protected pairs, of the signed reasoning, of the size.
pub open spec fn body_error(
    body: Seq<ResponseItemView>,
    spec: BodyValidationSpecView,
    estimate: i64,
) -> Option<Seq<char>> {
    first_error(
        correlation_error(body),
        first_error(
            protected_pairs_error(body, spec.protected_pairs, 0),
            if spec.protected_pairs.len() < spec.protected_tool_call_ids.len() {
                Some(
                    "protected expectations incomplete: "@ + decimal(
                        spec.protected_pairs.len(),
                    ) + " of "@ + decimal(spec.protected_tool_call_ids.len())
                        + " pairs captured"@,
                )
            } else if !all_present(
                spec.required_encrypted_reasoning,
                all_signed_reasoning(body),
            ) {
                Some("required encrypted reasoning missing or altered in materialized body"@)
            } else {
                match spec.safe_runway_threshold_tokens {
                    Some(threshold) => if estimate >= threshold {
                        Some(
                            "materialized body "@ + signed_decimal(estimate as int) + " tokens ("@
                                + BODY_SIZE_SOURCE@ + ") is not below safe-runway threshold "@
                                + signed_decimal(threshold as int),
                        )
                    } else {
                        None
                    },
                    None => None,
                }
            },
        ),
    )
}

pub(crate) fn sentence(a: &str, b: &str, c: &str) -> (r: String)
    ensures
        r@ == a@ + b@ + c@,
{
    let mut s = text(a);
    s.append(b);
    s.append(c);
    s
}

pub(crate) fn phrase(a: &str, b: &str) -> (r: String)
    ensures
        r@ == a@ + b@,
{
    let mut s = text(a);
    s.append(b);
    s
}

fn find_correlation_error(body: &Vec<ResponseItem>) -> (r: Option<String>)
    ensures
        r.deep_view() == correlation_error(body.deep_view()),
{
    let ghost view = body.deep_view();
    let mut i: usize = 0;
    while i < body.len()
        invariant
            i <= body.len(),
            view == body.deep_view(),
            duplicate_error(view, 0) == duplicate_error(view, i as int),
        decreases body.len() - i,
    {
        assert(view[i as int] == body@[i as int]@);
        if let Some(id) = tool_id_ref(&body[i], Side::Call) {
            if position_of(body, Side::Call, id.as_str()) < i {
                return Some(phrase("duplicate tool call for call_id ", id.as_str()));
            }
        }
        if let Some(id) = tool_id_ref(&body[i], Side::Output) {
            if position_of(body, Side::Output, id.as_str()) < i {
                return Some(phrase("duplicate tool output for call_id ", id.as_str()));
            }
        }
        i = i + 1;
    }
    i = 0;
    while i < body.len()
        invariant
            i <= body.len(),
            view == body.deep_view(),
            duplicate_error(view, 0) is None,
            unpaired_error(view, 0) == unpaired_error(view, i as int),
        decreases body.len() - i,
    {
        assert(view[i as int] == body@[i as int]@);
        if let Some(id) = tool_id_ref(&body[i], Side::Call) {
            let output: usize = position_of(body, Side::Output, id.as_str());
            if output >= body.len() {
                return Some(phrase("tool call without output for call_id ", id.as_str()));
            }
            if output <= i {
                return Some(phrase("tool output precedes call for call_id ", id.as_str()));
            }
        }
        i = i + 1;
    }
    i = 0;
    while i < body.len()
        invariant
            i <= body.len(),
            view == body.deep_view(),
            duplicate_error(view, 0) is None,
            unpaired_error(view, 0) is None,
            orphan_error(view, 0) == orphan_error(view, i as int),
        decreases body.len() - i,
    {
        assert(view[i as int] == body@[i as int]@);
        if let Some(id) = tool_id_ref(&body[i], Side::Output) {
            if position_of(body, Side::Call, id.as_str()) >= body.len() {
                return Some(phrase("orphan tool output for call_id ", id.as_str()));
            }
        }
        i = i + 1;
    }
    None
}

fn find_pair_error(body: &Vec<ResponseItem>, pair: &ProtectedPairExpectation) -> (r: Option<String>)
    ensures
        r.deep_view() == protected_pair_error(body.deep_view(), pair@),
{
    let id = pair.call_id.as_str();
    let call: usize = position_of(body, Side::Call, id);
    if call >= body.len() {
        return Some(sentence("protected call ", id, " missing from materialized body"));
    }
    let output: usize = position_of(body, Side::Output, id);
    if output >= body.len() {
        return Some(sentence("protected output ", id, " missing from materialized body"));
    }
    if output <= call {
        return Some(sentence("protected pair ", id, " out of order in materialized body"));
    }
    if !text_eq(item_bytes_without_id(&body[call]).as_str(), pair.call_bytes.as_str()) {
        return Some(sentence("protected call ", id, " not byte-stable in materialized body"));
    }
    if !text_eq(item_bytes_without_id(&body[output]).as_str(), pair.output_bytes.as_str()) {
        return Some(sentence("protected output ", id, " not byte-stable in materialized body"));
    }
    None
}

/// Holds the next request body against what a provider accepts and against the
/// live history. In order: every call has exactly one output, behind it, and
/// every output a call; every protected pair reads as it did live; the signed
/// reasoning survives; the body stays under the threshold.
pub fn validate_next_request_body<F: Fn(&str) -> i64>(
    body: &Vec<ResponseItem>,
    spec: &BodyValidationSpec,
    estimate_tokens: &F,
) -> (r: Result<BodyValidationReport, String>)
    requires
        is_estimator(*estimate_tokens),
    ensures
        ({
            let estimate = body_estimate(*estimate_tokens, body.deep_view());
            match r {
                Ok(report) => body_error(body.deep_view(), spec@, estimate) is None && report
                    == (BodyValidationReport {
                    body_item_count: body.len(),
                    body_token_estimate: estimate,
                    safe_runway_threshold_tokens: spec.safe_runway_threshold_tokens,
                    protected_pair_count: spec.protected_pairs.len(),
                    reasoning_preserved_count: spec.required_encrypted_reasoning.len(),
                }),
                Err(e) => body_error(body.deep_view(), spec@, estimate) == Some(e@),
            }
        }),
{
    let ghost view = body.deep_view();
    let ghost pairs = spec.protected_pairs.deep_view();
    if let Some(e) = find_correlation_error(body) {
        return Err(e);
    }
    let mut k: usize = 0;
    while k < spec.protected_pairs.len()
        invariant
            k <= spec.protected_pairs.len(),
            view == body.deep_view(),
            pairs == spec.protected_pairs.deep_view(),
            correlation_error(view) is None,
            protected_pairs_error(view, pairs, 0) == protected_pairs_error(view, pairs, k as int),
        decreases spec.protected_pairs.len() - k,
    {
        assert(pairs[k as int] == spec.protected_pairs@[k as int]@);
        if let Some(e) = find_pair_error(body, &spec.protected_pairs[k]) {
            return Err(e);
        }
        k = k + 1;
    }
    if spec.protected_pairs.len() < spec.protected_tool_call_ids.len() {
        let mut e = counted("protected expectations incomplete: ", spec.protected_pairs.len());
        e.append(" of ");
        e.append(decimal_text(spec.protected_tool_call_ids.len() as u128).as_str());
        e.append(" pairs captured");
        return Err(e);
    }
    let present = collect_signed_reasoning(body, 0);
    assert(view.skip(0) =~= view);
    let ghost required = spec.required_encrypted_reasoning.deep_view();
    let mut q: usize = 0;
    while q < spec.required_encrypted_reasoning.len()
        invariant
            q <= spec.required_encrypted_reasoning.len(),
            view == body.deep_view(),
            pairs == spec.protected_pairs.deep_view(),
            required == spec.required_encrypted_reasoning.deep_view(),
            correlation_error(view) is None,
            protected_pairs_error(view, pairs, 0) is None,
            spec.protected_pairs.len() >= spec.protected_tool_call_ids.len(),
            present.deep_view() == all_signed_reasoning(view),
            forall|i: int| 0 <= i < q ==> present.deep_view().contains(#[trigger] required[i]),
        decreases spec.required_encrypted_reasoning.len() - q,
    {
        assert(required[q as int] == spec.required_encrypted_reasoning@[q as int]@);
        if !holds_text(&present, spec.required_encrypted_reasoning[q].as_str()) {
            return Err(
                text("required encrypted reasoning missing or altered in materialized body"),
            );
        }
        q = q + 1;
    }
    let estimate: i64 = estimate_response_items_tokens(body, estimate_tokens);
    if let Some(threshold) = spec.safe_runway_threshold_tokens {
        if estimate >= threshold {
            let mut e = text("materialized body ");
            e.append(signed_decimal_text(estimate as i128).as_str());
            e.append(" tokens (");
            e.append(BODY_SIZE_SOURCE);
            e.append(") is not below safe-runway threshold ");
            e.append(signed_decimal_text(threshold as i128).as_str());
            return Err(e);
        }
    }
    Ok(
        BodyValidationReport {
            body_item_count: body.len(),
            body_token_estimate: estimate,
            safe_runway_threshold_tokens: spec.safe_runway_threshold_tokens,
            protected_pair_count: spec.protected_pairs.len(),
            reasoning_preserved_count: spec.required_encrypted_reasoning.len(),
        },
    )
}


// ---------------------------------------------------------------------------
// Laws
// ---------------------------------------------------------------------------

/// Provenance is nothing that a call or an output is known by, and taking it
/// away once takes it away for good.
pub proof fn provenance_does_not_identify(item: ResponseItemView)
    ensures
        tool_id(without_provenance(item), Side::Call) == tool_id(item, Side::Call),
        tool_id(without_provenance(item), Side::Output) == tool_id(item, Side::Output),
        without_provenance(without_provenance(item)) == without_provenance(item),
        bytes_of(without_provenance(item)) == bytes_of(item),
{
}

/// Two bodies that hold the same calls and outputs at the same places.
pub open spec fn same_tools(a: Seq<ResponseItemView>, b: Seq<ResponseItemView>) -> bool {
    &&& a.len() == b.len()
    &&& forall|i: int|
        #![trigger a[i]]
        #![trigger b[i]]
        0 <= i < a.len() ==> tool_id(a[i], Side::Call) == tool_id(b[i], Side::Call) && tool_id(
            a[i],
            Side::Output,
        ) == tool_id(b[i], Side::Output)
}

/// Bodies with the same calls and outputs at the same places are searched alike.
pub proof fn lemma_same_tools_find(
    a: Seq<ResponseItemView>,
    b: Seq<ResponseItemView>,
    side: Side,
    id: Seq<char>,
)
    requires
        same_tools(a, b),
    ensures
        find(a, side, id) == find(b, side, id),
{
    lemma_find_from(b, side, id, 0);
    let at = find(b, side, id);
    assert(at < a.len() ==> tool_id(a[at], side) == Some(id)) by {
        if at < a.len() {
            assert(tool_id(b[at], side) == Some(id));
        }
    }
    assert forall|j: int| 0 <= j < at implies tool_id(#[trigger] a[j], side) != Some(id) by {
        assert(tool_id(b[j], side) != Some(id));
    }
    lemma_find_unique(a, side, id, 0, at);
}

/// Grafting replaces items in their places: no call and no output appears,
/// vanishes or moves.
pub proof fn grafting_moves_nothing(
    body: Seq<ResponseItemView>,
    live: Seq<ResponseItemView>,
    ids: Seq<Seq<char>>,
)
    ensures
        same_tools(body, grafted_body(body, live, ids)),
    decreases ids.len(),
{
    if ids.len() > 0 {
        grafting_moves_nothing(body, live, ids.drop_last());
        let before = grafted_body(body, live, ids.drop_last());
        let id = ids.last();
        if graft_refusal(before, live, id) is None {
            lemma_live_pair(before, live, id);
        }
    }
}

/// One graft puts the live pair in place and leaves the rest alone.
proof fn lemma_live_pair(
    body: Seq<ResponseItemView>,
    live: Seq<ResponseItemView>,
    id: Seq<char>,
)
    requires
        graft_refusal(body, live, id) is None,
    ensures
        same_tools(body, with_live_pair(body, live, id)),
        ({
            let after = with_live_pair(body, live, id);
            let call = find(body, Side::Call, id);
            let output = find(body, Side::Output, id);
            &&& 0 <= call < body.len()
            &&& 0 <= output < body.len()
            &&& call != output
            &&& after[call] == without_provenance(live[find(live, Side::Call, id)])
            &&& after[output] == without_provenance(live[find(live, Side::Output, id)])
            &&& forall|i: int|
                0 <= i < body.len() && i != call && i != output ==> #[trigger] after[i] == body[i]
        }),
{
    lemma_count_find(live, Side::Call, id);
    lemma_count_find(live, Side::Output, id);
    lemma_count_find(body, Side::Call, id);
    lemma_count_find(body, Side::Output, id);
    lemma_find_from(live, Side::Call, id, 0);
    lemma_find_from(live, Side::Output, id, 0);
    lemma_find_from(body, Side::Call, id, 0);
    lemma_find_from(body, Side::Output, id, 0);
    provenance_does_not_identify(live[find(live, Side::Call, id)]);
    provenance_does_not_identify(live[find(live, Side::Output, id)]);
}

/// Every protected call is reported once: as grafted, or with the reason why
/// it was not.
pub proof fn every_graft_is_reported(
    body: Seq<ResponseItemView>,
    live: Seq<ResponseItemView>,
    ids: Seq<Seq<char>>,
)
    ensures
        graft_report(body, live, ids).grafted.len() + graft_report(body, live, ids).degraded.len()
            == ids.len(),
    decreases ids.len(),
{
    if ids.len() > 0 {
        every_graft_is_reported(body, live, ids.drop_last());
    }
}

/// The pair of call `id` in a body reads as the pair among the live items.
pub open spec fn reads_as_live(
    body: Seq<ResponseItemView>,
    live: Seq<ResponseItemView>,
    id: Seq<char>,
) -> bool {
    let call = find(body, Side::Call, id);
    let output = find(body, Side::Output, id);
    &&& call < body.len()
    &&& output < body.len()
    &&& bytes_of(body[call]) == bytes_of(live[find(live, Side::Call, id)])
    &&& bytes_of(body[output]) == bytes_of(live[find(live, Side::Output, id)])
}

/// A pair that is reported as grafted reads, byte for byte, as it did live.
pub proof fn grafted_pairs_read_as_live(
    body: Seq<ResponseItemView>,
    live: Seq<ResponseItemView>,
    ids: Seq<Seq<char>>,
)
    ensures
        forall|k: int|
            0 <= k < graft_report(body, live, ids).grafted.len() ==> reads_as_live(
                grafted_body(body, live, ids),
                live,
                #[trigger] graft_report(body, live, ids).grafted[k],
            ),
    decreases ids.len(),
{
    if ids.len() > 0 {
        grafted_pairs_read_as_live(body, live, ids.drop_last());
        let before = grafted_body(body, live, ids.drop_last());
        let after = grafted_body(body, live, ids);
        let earlier = graft_report(body, live, ids.drop_last()).grafted;
        let grafted = graft_report(body, live, ids).grafted;
        let id = ids.last();
        if graft_refusal(before, live, id) is None {
            lemma_live_pair(before, live, id);
            lemma_same_tools_find(before, after, Side::Call, id);
            lemma_same_tools_find(before, after, Side::Output, id);
            provenance_does_not_identify(live[find(live, Side::Call, id)]);
            provenance_does_not_identify(live[find(live, Side::Output, id)]);
            assert(reads_as_live(after, live, id));
            assert forall|k: int| 0 <= k < grafted.len() implies reads_as_live(
                after,
                live,
                #[trigger] grafted[k],
            ) by {
                if k < earlier.len() {
                    let other = earlier[k];
                    assert(grafted[k] == other);
                    assert(reads_as_live(before, live, other));
                    lemma_same_tools_find(before, after, Side::Call, other);
                    lemma_same_tools_find(before, after, Side::Output, other);
                    if other != id {
                        lemma_find_from(before, Side::Call, other, 0);
                        lemma_find_from(before, Side::Output, other, 0);
                        lemma_find_from(before, Side::Call, id, 0);
                        lemma_find_from(before, Side::Output, id, 0);
                        lemma_one_side(before[find(before, Side::Call, other)]);
                        lemma_one_side(before[find(before, Side::Output, other)]);
                        assert(after[find(before, Side::Call, other)] == before[find(
                            before,
                            Side::Call,
                            other,
                        )]);
                        assert(after[find(before, Side::Output, other)] == before[find(
                            before,
                            Side::Output,
                            other,
                        )]);
                    }
                }
            }
        }
    }
}

/// No item is both a call and an output.
pub proof fn lemma_one_side(item: ResponseItemView)
    ensures
        tool_id(item, Side::Call) is None || tool_id(item, Side::Output) is None,
{
}

/// Calls and outputs are correlated: each side of a call stands at most once,
/// every call is followed by its output and every output answers a call.
pub open spec fn is_correlated(body: Seq<ResponseItemView>) -> bool {
    forall|i: int|
        0 <= i < body.len() ==> {
            &&& (tool_id(#[trigger] body[i], Side::Call) matches Some(id) ==> find(
                body,
                Side::Call,
                id,
            ) == i && i < find(body, Side::Output, id) < body.len())
            &&& (tool_id(body[i], Side::Output) matches Some(id) ==> find(body, Side::Output, id)
                == i && find(body, Side::Call, id) < body.len())
        }
}

/// A body passes the correlation checks exactly when it is correlated.
pub proof fn correlation_checks_are_exact(body: Seq<ResponseItemView>)
    ensures
        correlation_error(body) is None <==> is_correlated(body),
{
    lemma_duplicate_error(body, 0);
    lemma_unpaired_error(body, 0);
    lemma_orphan_error(body, 0);
    assert forall|i: int| 0 <= i < body.len() implies {
        &&& (tool_id(#[trigger] body[i], Side::Call) matches Some(id) ==> find(body, Side::Call, id)
            <= i)
        &&& (tool_id(body[i], Side::Output) matches Some(id) ==> find(body, Side::Output, id) <= i)
    } by {
        if let Some(id) = tool_id(body[i], Side::Call) {
            lemma_find_from(body, Side::Call, id, 0);
        }
        if let Some(id) = tool_id(body[i], Side::Output) {
            lemma_find_from(body, Side::Output, id, 0);
        }
    }
    if correlation_error(body) is None {
        assert forall|i: int| 0 <= i < body.len() implies {
            &&& (tool_id(#[trigger] body[i], Side::Call) matches Some(id) ==> find(
                body,
                Side::Call,
                id,
            ) == i && i < find(body, Side::Output, id) < body.len())
            &&& (tool_id(body[i], Side::Output) matches Some(id) ==> find(body, Side::Output, id)
                == i && find(body, Side::Call, id) < body.len())
        } by {
            assert(!duplicate_at(body, i, Side::Call));
            assert(!duplicate_at(body, i, Side::Output));
        }
    }
    if is_correlated(body) {
        assert forall|i: int| 0 <= i < body.len() implies !#[trigger] duplicate_at(
            body,
            i,
            Side::Call,
        ) && !duplicate_at(body, i, Side::Output) by {
            assert(body[i] == body[i]);
        }
    }
}

proof fn lemma_duplicate_error(body: Seq<ResponseItemView>, i: int)
    requires
        0 <= i <= body.len(),
    ensures
        duplicate_error(body, i) is None <==> forall|j: int|
            #![trigger duplicate_at(body, j, Side::Call)]
            #![trigger duplicate_at(body, j, Side::Output)]
            i <= j < body.len() ==> !duplicate_at(body, j, Side::Call) && !duplicate_at(
                body,
                j,
                Side::Output,
            ),
    decreases body.len() - i,
{
    if i < body.len() {
        lemma_duplicate_error(body, i + 1);
        assert(duplicate_at(body, i, Side::Call) || !duplicate_at(body, i, Side::Call));
        assert(duplicate_at(body, i, Side::Output) || !duplicate_at(body, i, Side::Output));
    }
}

proof fn lemma_unpaired_error(body: Seq<ResponseItemView>, i: int)
    requires
        0 <= i <= body.len(),
    ensures
        unpaired_error(body, i) is None <==> forall|j: int|
            i <= j < body.len() ==> (tool_id(#[trigger] body[j], Side::Call) matches Some(id) ==> j
                < find(body, Side::Output, id) < body.len()),
    decreases body.len() - i,
{
    if i < body.len() {
        lemma_unpaired_error(body, i + 1);
        assert(body[i] == body[i]);
    }
}

proof fn lemma_orphan_error(body: Seq<ResponseItemView>, i: int)
    requires
        0 <= i <= body.len(),
    ensures
        orphan_error(body, i) is None <==> forall|j: int|
            i <= j < body.len() ==> (tool_id(#[trigger] body[j], Side::Output) matches Some(id)
                ==> find(body, Side::Call, id) < body.len()),
    decreases body.len() - i,
{
    if i < body.len() {
        lemma_orphan_error(body, i + 1);
        assert(body[i] == body[i]);
    }
}

/// A correlated body stays correlated when items are replaced by items that
/// are known by the same calls; so a graft never breaks a body.
pub proof fn grafting_keeps_correlation(
    body: Seq<ResponseItemView>,
    live: Seq<ResponseItemView>,
    ids: Seq<Seq<char>>,
)
    ensures
        correlation_error(grafted_body(body, live, ids)) is None <==> correlation_error(body)
            is None,
{
    let after = grafted_body(body, live, ids);
    grafting_moves_nothing(body, live, ids);
    if is_correlated(body) {
        lemma_same_tools_correlated(body, after);
    }
    if is_correlated(after) {
        lemma_same_tools_correlated(after, body);
    }
    correlation_checks_are_exact(body);
    correlation_checks_are_exact(after);
}

/// Being correlated is a matter of the calls and outputs alone.
pub proof fn lemma_same_tools_correlated(a: Seq<ResponseItemView>, b: Seq<ResponseItemView>)
    requires
        same_tools(a, b),
        is_correlated(a),
    ensures
        is_correlated(b),
{
    assert forall|i: int| 0 <= i < b.len() implies {
        &&& (tool_id(#[trigger] b[i], Side::Call) matches Some(id) ==> find(b, Side::Call, id) == i
            && i < find(b, Side::Output, id) < b.len())
        &&& (tool_id(b[i], Side::Output) matches Some(id) ==> find(b, Side::Output, id) == i
            && find(b, Side::Call, id) < b.len())
    } by {
        assert(tool_id(a[i], Side::Call) == tool_id(b[i], Side::Call));
        if let Some(id) = tool_id(b[i], Side::Call) {
            lemma_same_tools_find(a, b, Side::Call, id);
            lemma_same_tools_find(a, b, Side::Output, id);
        }
        if let Some(id) = tool_id(b[i], Side::Output) {
            lemma_same_tools_find(a, b, Side::Call, id);
            lemma_same_tools_find(a, b, Side::Output, id);
        }
    }
}

} // verus!
