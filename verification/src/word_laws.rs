//! The words in which outcomes are told.

use vstd::prelude::*;
use vstd::string::*;

use crate::body_degrade::{degradation_text, degradation_word};
use crate::body_validation::{BodyDegradationKind, BodyDegradationView};
use crate::capture_intake::{failure_word, CaptureShutdownFailure};
use crate::compact_bridge::{
    compact_result, marker_event, unavailable_text, LhcCompactUnavailableView,
};
use crate::compact_continuation::attempt_error;
use crate::compact_marker::{note_text, CompactMarkerView};
use crate::database_digest::path_error;
use crate::gating::{root_of, RootChoiceView};
use crate::host_ids::kind_prefix;
use crate::install::{failure_reason, retrieval_message, OpenFailure, RetrievalLifecycleError};
use crate::json::{Entries, JsonView};
use crate::reverse::rebuilt_call;
use crate::reverse_laws::{is_kind, kinds_are_told_by_their_marks, marks, worn};

verus! {

/// Why no compact is to be had is told with the reason, in words of its own.
pub proof fn refused_compacts_are_told(s: Seq<char>)
    ensures
        unavailable_text(LhcCompactUnavailableView::OpenFailed(s)) == "lhc open failed: "@ + s,
        unavailable_text(LhcCompactUnavailableView::NoEvents) == "lhc thread has no events"@,
        unavailable_text(LhcCompactUnavailableView::ArchiveDoesNotCoverHost(s))
            == "archive does not cover host history: "@ + s,
        unavailable_text(LhcCompactUnavailableView::CompactFailed(s)) == "lhc.compact failed: "@
            + s,
        unavailable_text(LhcCompactUnavailableView::EmptyView(s)) == "empty served view: "@ + s,
        unavailable_text(LhcCompactUnavailableView::ViewFetchFailed(s))
            == "get_llm_request_context failed: "@ + s,
        unavailable_text(LhcCompactUnavailableView::Inference(s)) == "inference: "@ + s,
        unavailable_text(LhcCompactUnavailableView::DerivationFailed(s))
            == "lhc derivation failed: "@ + s,
        unavailable_text(LhcCompactUnavailableView::Cancelled) == "lhc compact cancelled"@,
        unavailable_text(LhcCompactUnavailableView::NoReduction(s)) == "lhc compact no reduction: "@
            + s,
{
}

/// What was lost of a body is told by its kind and its detail.
pub proof fn losses_of_a_body_are_told(d: BodyDegradationView)
    ensures
        degradation_text(d) == degradation_word(d.kind) + ": "@ + d.detail,
        degradation_word(BodyDegradationKind::DroppedUnpairedToolCall)
            == "dropped_unpaired_tool_call"@,
        degradation_word(BodyDegradationKind::DroppedOrphanToolOutput)
            == "dropped_orphan_tool_output"@,
        degradation_word(BodyDegradationKind::DroppedDuplicate) == "dropped_duplicate"@,
        degradation_word(BodyDegradationKind::ProtectedPairUnavailable)
            == "protected_pair_unavailable"@,
        degradation_word(BodyDegradationKind::ProtectedPairNotByteStable)
            == "protected_pair_not_byte_stable"@,
        degradation_word(BodyDegradationKind::ProtectedExpectationMissing)
            == "protected_expectation_missing"@,
        degradation_word(BodyDegradationKind::MissingEncryptedReasoning)
            == "missing_encrypted_reasoning"@,
        degradation_word(BodyDegradationKind::TruncatedOversizedContent)
            == "truncated_oversized_content"@,
        degradation_word(BodyDegradationKind::StillOverThreshold) == "still_over_threshold"@,
{
}

/// How the end of a capture failed, why a capture did not open and why nothing can
/// be read from it are told in words of their own.
pub proof fn failed_captures_are_told()
    ensures
        failure_word(CaptureShutdownFailure::EnqueueTimedOut) == "enqueue_timed_out"@,
        failure_word(CaptureShutdownFailure::WorkerClosed) == "worker_closed"@,
        failure_word(CaptureShutdownFailure::AcknowledgementTimedOut)
            == "acknowledgement_timed_out"@,
        failure_word(CaptureShutdownFailure::AcknowledgementDropped) == "acknowledgement_dropped"@,
        failure_word(CaptureShutdownFailure::PersistenceFailed) == "persistence_failed"@,
        failure_word(CaptureShutdownFailure::RuntimeUnavailable) == "runtime_unavailable"@,
        failure_reason(OpenFailure::ThreadUnavailable) == "capture open thread unavailable"@,
        failure_reason(OpenFailure::RuntimeUnavailable) == "capture open runtime unavailable"@,
        failure_reason(OpenFailure::NotOpened) == "capture open failed"@,
        failure_reason(OpenFailure::Abandoned) == "capture open abandoned before settling"@,
        retrieval_message(RetrievalLifecycleError::NotOpen)
            == "LHC thread is not open yet (capture still starting)"@,
        retrieval_message(RetrievalLifecycleError::OpenFailed)
            == "LHC capture failed to open; retrieval unavailable"@,
        retrieval_message(RetrievalLifecycleError::Shutdown)
            == "LHC capture has shut down; retrieval unavailable"@,
{
}

/// A file that is needed and not there is told by its path.
pub proof fn missing_files_are_told(path: Seq<char>, there: bool)
    ensures
        attempt_error(None, there) == Some(
            "LHC root missing; cannot open compact-continuation thread"@,
        ),
        attempt_error(Some(path), false) == Some(
            "LHC thread file missing for compact-continuation: "@ + path,
        ),
        attempt_error(Some(path), true) is None,
        path_error(None, there) == Some("LHC database path is not utf-8"@),
        path_error(Some(path), false) == Some("LHC database missing: "@ + path),
        path_error(Some(path), true) is None,
{
}

/// The stores lie where the environment says, without the white space round it;
/// else at home, else with the profile, else here.
pub proof fn named_root_goes_first(named: Seq<char>, home: bool, profile: bool)
    ensures
        crate::text::trimmed(named).len() > 0 ==> root_of(Some(named), home, profile)
            == RootChoiceView::Override(crate::text::trimmed(named)),
        crate::text::trimmed(named).len() == 0 ==> root_of(Some(named), home, profile) == root_of(
            None,
            home,
            profile,
        ),
        root_of(None, true, profile) == RootChoiceView::Home,
        root_of(None, false, true) == RootChoiceView::UserProfile,
        root_of(None, false, false) == RootChoiceView::CurrentDirectory,
{
}

/// A mark is put into the store as a note of the system, under its own key.
pub proof fn marks_are_stored_as_notes(m: CompactMarkerView)
    ensures
        marker_event(m).event_kind == "runtime_note"@,
        marker_event(m).idempotency_key == Some(m.marker_key),
        marker_event(m).actor == "system"@,
        marker_event(m).payload == seq![("text"@, JsonView::Text(note_text(m)))],
{
}

/// What a compact gives the host is the served body, its mark and its receipt.
pub proof fn compacts_give_what_was_served(
    thread_id: Seq<char>,
    archive_tip: Seq<char>,
    receipt: crate::compact_marker::CompactReceiptView,
    ctx: crate::compact_bridge::LlmRequestContextView,
)
    ensures
        ({
            let r = compact_result(thread_id, archive_tip, receipt, ctx);
            &&& r.body == crate::compact_bridge::body_of(ctx)
            &&& r.receipt == receipt
            &&& r.marker == crate::compact_marker::marker_of(receipt, thread_id, r.body, archive_tip)
        }),
{
}

/// An identity wears the mark of a kind, or of none that the host knows.
pub open spec fn wears(id: Seq<char>, kind: Option<Seq<char>>) -> bool {
    match kind {
        Some(k) => is_kind(k) && marks(id, k),
        None => forall|k: Seq<char>| is_kind(k) ==> !#[trigger] marks(id, k),
    }
}

/// A rebuilt call tells of the identity that it cannot wear, by its kind where that
/// is known, and of no other.
pub proof fn misfits_are_told(
    tool: Seq<char>,
    call_id: Seq<char>,
    arguments: Entries,
    id: Seq<char>,
    kind: Option<Seq<char>>,
    read: Option<JsonView>,
)
    requires
        worn(Some(id)) is Some,
        wears(id, kind),
    ensures
        ({
            let word = match kind {
                Some(k) => "\""@ + k + "\""@,
                None => "unknown"@,
            };
            let notes = rebuilt_call(tool, call_id, arguments, Some(id), read).notes;
            if tool == "local_shell"@ {
                notes == if kind == Some("lsh"@) {
                    Seq::empty()
                } else {
                    seq![
                        "tool_call local_shell id prefix "@ + word
                            + " unrepresentable with LocalShellCall; clearing id"@,
                    ]
                }
            } else if tool == "web_search"@ {
                notes == if kind == Some("ws"@) {
                    Seq::empty()
                } else {
                    seq![
                        "tool_call web_search id prefix "@ + word
                            + " unrepresentable with WebSearchCall; clearing id"@,
                    ]
                }
            } else if tool == "tool_search"@ {
                notes == if kind == Some("tsc"@) {
                    Seq::empty()
                } else {
                    seq![
                        "tool_call tool_search id prefix "@ + word
                            + " unrepresentable with ToolSearchCall; clearing id"@,
                    ]
                }
            } else {
                notes == if kind == Some("fc"@) || kind == Some("ctc"@) {
                    Seq::empty()
                } else {
                    seq![
                        "tool_call id prefix "@ + word
                            + " unrepresentable as FunctionCall/CustomToolCall; id=None"@,
                    ]
                }
            }
        }),
{
    let found = kind_prefix(id);
    if let Some(k) = kind {
        kinds_are_told_by_their_marks(id, k);
        assert(found == Some(k));
    } else if let Some(k) = found {
        kinds_are_told_by_their_marks(id, k);
        assert(false);
    }
    if let Some(k) = kind {
        let quoted = "\""@ + k + "\""@;
        assert forall|before: Seq<char>, after: Seq<char>|
            before + "\""@ + k + "\""@ + after == #[trigger] (before + quoted + after) by {
            assert(before + "\""@ + k + "\""@ + after =~= before + quoted + after);
        }
    }
}

} // verus!
