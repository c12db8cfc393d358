//! Reducing a body to the best version that can still be sent.
//!
//! What would make a provider refuse a body is dropped, what did not survive is
//! reported, and what is too large is cut, so that a body always goes out.

use vstd::prelude::*;
use vstd::string::*;
use vstd::utf8::{
    encode_utf8, encode_utf8_valid_utf8, is_ascii_chars, is_ascii_chars_encode_utf8,
    is_char_boundary, is_char_boundary_start_end_of_seq,
};

use crate::body_validation::{
    all_present, all_signed_reasoning, body_error, body_estimate, bytes_of,
    correlation_checks_are_exact, correlation_error, collect_signed_reasoning, counted,
    duplicate_at, estimate_response_items_tokens, expected_pairs, find, is_correlated, is_estimator,
    item_bytes_without_id, lemma_find_from, lemma_find_unique, lemma_one_side,
    lemma_same_tools_correlated, phrase, position_of, protected_pair_error, protected_pairs_error,
    same_tools, sentence, tool_id, tool_id_ref, BodyDegradation, BodyDegradationKind,
    BodyDegradationView, BodyValidationSpec, BodyValidationSpecView, DegradedBody,
    DegradedBodyView, ProtectedPairExpectation, ProtectedPairExpectationView, Side,
    BODY_SIZE_SOURCE,
};
use crate::byte_text::{
    boundary_at, byte_len, floor_char_boundary, head, head_of, lemma_byte_len_concat, lemma_head,
    text_byte_len,
};
use crate::json::{get_text_member, text_member};
use crate::protocol::{
    ContentItem, ContentItemView, FunctionCallOutputBody, FunctionCallOutputBodyView,
    FunctionCallOutputContentItem, FunctionCallOutputContentItemView, FunctionCallOutputPayload,
    FunctionCallOutputPayloadView, ResponseItem, ResponseItemView,
};
use crate::text::{
    decimal, decimal_text, holds_text, join, joined, signed_decimal, signed_decimal_text, text,
    text_eq,
};
use crate::wire::Wire;

verus! {

// ---------------------------------------------------------------------------
// Degradations in words
// ---------------------------------------------------------------------------

/// The word for a kind of degradation.
pub open spec fn degradation_word(kind: BodyDegradationKind) -> Seq<char> {
    match kind {
        BodyDegradationKind::DroppedUnpairedToolCall => "dropped_unpaired_tool_call"@,
        BodyDegradationKind::DroppedOrphanToolOutput => "dropped_orphan_tool_output"@,
        BodyDegradationKind::DroppedDuplicate => "dropped_duplicate"@,
        BodyDegradationKind::ProtectedPairUnavailable => "protected_pair_unavailable"@,
        BodyDegradationKind::ProtectedPairNotByteStable => "protected_pair_not_byte_stable"@,
        BodyDegradationKind::ProtectedExpectationMissing => "protected_expectation_missing"@,
        BodyDegradationKind::MissingEncryptedReasoning => "missing_encrypted_reasoning"@,
        BodyDegradationKind::TruncatedOversizedContent => "truncated_oversized_content"@,
        BodyDegradationKind::StillOverThreshold => "still_over_threshold"@,
    }
}

impl BodyDegradationKind {
    /// The word for the kind of degradation.
    pub fn as_str(self) -> (r: &'static str)
        ensures
            r@ == degradation_word(self),
    {
        match self {
            BodyDegradationKind::DroppedUnpairedToolCall => "dropped_unpaired_tool_call",
            BodyDegradationKind::DroppedOrphanToolOutput => "dropped_orphan_tool_output",
            BodyDegradationKind::DroppedDuplicate => "dropped_duplicate",
            BodyDegradationKind::ProtectedPairUnavailable => "protected_pair_unavailable",
            BodyDegradationKind::ProtectedPairNotByteStable => "protected_pair_not_byte_stable",
            BodyDegradationKind::ProtectedExpectationMissing => "protected_expectation_missing",
            BodyDegradationKind::MissingEncryptedReasoning => "missing_encrypted_reasoning",
            BodyDegradationKind::TruncatedOversizedContent => "truncated_oversized_content",
            BodyDegradationKind::StillOverThreshold => "still_over_threshold",
        }
    }
}

/// A degradation as a text: its kind, then its detail.
pub open spec fn degradation_text(d: BodyDegradationView) -> Seq<char> {
    degradation_word(d.kind) + ": "@ + d.detail
}

impl BodyDegradation {
    /// The degradation as a text: its kind, then its detail.
    pub fn to_text(&self) -> (r: String)
        ensures
            r@ == degradation_text(self@),
    {
        sentence(self.kind.as_str(), ": ", self.detail.as_str())
    }
}

/// How many degradations a summary spells out.
pub const SUMMARY_DETAIL_LIMIT: usize = 24;

/// A summary of degradations: the first ones in full, and how many more.
pub open spec fn summary_of(list: Seq<BodyDegradationView>) -> Seq<char> {
    let shown = if list.len() <= SUMMARY_DETAIL_LIMIT {
        list
    } else {
        list.take(SUMMARY_DETAIL_LIMIT as int)
    };
    let line = joined(shown.map_values(|d: BodyDegradationView| degradation_text(d)), "; "@);
    if list.len() > SUMMARY_DETAIL_LIMIT {
        line + ("; (+"@ + decimal((list.len() - SUMMARY_DETAIL_LIMIT) as nat) + " more)"@)
    } else {
        line
    }
}

/// One line on a list of degradations, of bounded length.
pub fn degradation_summary(degradations: &Vec<BodyDegradation>) -> (r: String)
    ensures
        r@ == summary_of(degradations.deep_view()),
{
    let ghost list = degradations.deep_view();
    let n: usize = if degradations.len() <= SUMMARY_DETAIL_LIMIT {
        degradations.len()
    } else {
        SUMMARY_DETAIL_LIMIT
    };
    let ghost shown = list.take(n as int);
    let mut parts: Vec<String> = Vec::new();
    let mut i: usize = 0;
    while i < n
        invariant
            i <= n <= degradations.len(),
            parts.len() == i,
            forall|k: int|
                0 <= k < i ==> (#[trigger] parts@[k])@ == degradation_text(degradations@[k]@),
        decreases n - i,
    {
        parts.push(degradations[i].to_text());
        i = i + 1;
    }
    assert(parts.deep_view() =~= shown.map_values(|d: BodyDegradationView| degradation_text(d)));
    let mut line = join(&parts, "; ");
    if degradations.len() > SUMMARY_DETAIL_LIMIT {
        let mut rest = counted("; (+", degradations.len() - SUMMARY_DETAIL_LIMIT);
        rest.append(" more)");
        line.append(rest.as_str());
    } else {
        assert(shown =~= list);
    }
    line
}

impl DegradedBody {
    /// How many input items the body does not keep.
    pub fn dropped_count(&self) -> (r: usize)
        ensures
            r == dropped_flags(self@.kept),
    {
        let ghost kept = self.kept.deep_view();
        let mut n: usize = 0;
        let mut i: usize = 0;
        while i < self.kept.len()
            invariant
                i <= self.kept.len(),
                n <= i,
                kept == self.kept.deep_view(),
                n == dropped_flags(kept.take(i as int)),
            decreases self.kept.len() - i,
        {
            assert(kept.take(i + 1).drop_last() =~= kept.take(i as int));
            if !self.kept[i] {
                n = n + 1;
            }
            i = i + 1;
        }
        assert(kept.take(i as int) =~= kept);
        n
    }

    /// One line on what was given up.
    pub fn summary(&self) -> (r: String)
        ensures
            r@ == summary_of(self@.degradations),
    {
        degradation_summary(&self.degradations)
    }
}

/// How many flags are down.
pub open spec fn dropped_flags(kept: Seq<bool>) -> nat
    decreases kept.len(),
{
    if kept.len() == 0 {
        0
    } else {
        dropped_flags(kept.drop_last()) + (if kept.last() {
            0nat
        } else {
            1nat
        })
    }
}

// ---------------------------------------------------------------------------
// Correlation repair
// ---------------------------------------------------------------------------

/// The item at `i` stays: it belongs to no call, or it is the first call or the
/// first output of a pair whose output stands behind its call.
pub open spec fn keeps(body: Seq<ResponseItemView>, i: int) -> bool {
    match tool_id(body[i], Side::Call) {
        Some(id) => find(body, Side::Call, id) == i && i < find(body, Side::Output, id)
            < body.len(),
        None => match tool_id(body[i], Side::Output) {
            Some(id) => find(body, Side::Output, id) == i && find(body, Side::Call, id) < i,
            None => true,
        },
    }
}

/// The flags of the items that stay.
pub open spec fn kept_flags(body: Seq<ResponseItemView>) -> Seq<bool> {
    Seq::new(body.len(), |i: int| keeps(body, i))
}

/// The items that stay, of the first `n`.
pub open spec fn kept_items(body: Seq<ResponseItemView>, n: int) -> Seq<ResponseItemView>
    decreases n,
{
    if n <= 0 {
        Seq::empty()
    } else if keeps(body, n - 1) {
        kept_items(body, n - 1).push(body[n - 1])
    } else {
        kept_items(body, n - 1)
    }
}

/// A degradation.
pub open spec fn note(kind: BodyDegradationKind, detail: Seq<char>) -> BodyDegradationView {
    BodyDegradationView { kind, detail }
}

/// What is said of a repeated call or output.
pub open spec fn duplicate_note(
    body: Seq<ResponseItemView>,
    i: int,
    side: Side,
) -> BodyDegradationView {
    let id = tool_id(body[i], side)->0;
    note(
        BodyDegradationKind::DroppedDuplicate,
        (match side {
            Side::Call => "duplicate tool call for call_id "@,
            Side::Output => "duplicate tool output for call_id "@,
        }) + id + " at position "@ + decimal(i as nat) + " (kept position "@ + decimal(
            find(body, side, id) as nat,
        ) + ")"@,
    )
}

/// What is said of the repeated calls and outputs among the first `n` items.
pub open spec fn duplicate_notes(body: Seq<ResponseItemView>, n: int) -> Seq<BodyDegradationView>
    decreases n,
{
    if n <= 0 {
        Seq::empty()
    } else {
        let before = duplicate_notes(body, n - 1);
        if duplicate_at(body, n - 1, Side::Call) {
            before.push(duplicate_note(body, n - 1, Side::Call))
        } else if duplicate_at(body, n - 1, Side::Output) {
            before.push(duplicate_note(body, n - 1, Side::Output))
        } else {
            before
        }
    }
}

/// What is said of a first call or output that cannot be paired.
pub open spec fn unpaired_note(body: Seq<ResponseItemView>, i: int) -> Option<BodyDegradationView> {
    match tool_id(body[i], Side::Call) {
        Some(id) => {
            let output = find(body, Side::Output, id);
            if output >= body.len() {
                Some(
                    note(
                        BodyDegradationKind::DroppedUnpairedToolCall,
                        "tool call "@ + id + " at position "@ + decimal(i as nat)
                            + " has no output in the assembled body; dropped the call"@,
                    ),
                )
            } else if output <= i {
                Some(
                    note(
                        BodyDegradationKind::DroppedUnpairedToolCall,
                        "tool output for call_id "@ + id + " precedes its call (output "@
                            + decimal(output as nat) + ", call "@ + decimal(i as nat)
                            + "); dropped both sides"@,
                    ),
                )
            } else {
                None
            }
        },
        None => match tool_id(body[i], Side::Output) {
            Some(id) => if find(body, Side::Call, id) >= body.len() {
                Some(
                    note(
                        BodyDegradationKind::DroppedOrphanToolOutput,
                        "tool output for call_id "@ + id + " at position "@ + decimal(i as nat)
                            + " has no call in the assembled body"@,
                    ),
                )
            } else {
                None
            },
            None => None,
        },
    }
}

/// What is said of the calls and outputs among the first `n` items that cannot
/// be paired.
pub open spec fn unpaired_notes(body: Seq<ResponseItemView>, n: int) -> Seq<BodyDegradationView>
    decreases n,
{
    if n <= 0 {
        Seq::empty()
    } else {
        let before = unpaired_notes(body, n - 1);
        if duplicate_at(body, n - 1, Side::Call) || duplicate_at(body, n - 1, Side::Output) {
            before
        } else {
            match unpaired_note(body, n - 1) {
                Some(d) => before.push(d),
                None => before,
            }
        }
    }
}

fn push_note(list: &mut Vec<BodyDegradation>, kind: BodyDegradationKind, detail: String)
    ensures
        final(list).deep_view() == old(list).deep_view().push(note(kind, detail@)),
{
    let ghost before = list.deep_view();
    let d = BodyDegradation { kind, detail };
    let ghost view = d@;
    list.push(d);
    assert(list.deep_view() =~= before.push(view));
}

fn note_duplicates(body: &Vec<ResponseItem>, notes: &mut Vec<BodyDegradation>)
    requires
        old(notes).deep_view() == Seq::<BodyDegradationView>::empty(),
    ensures
        final(notes).deep_view() == duplicate_notes(body.deep_view(), body.len() as int),
{
    let ghost view = body.deep_view();
    let mut i: usize = 0;
    while i < body.len()
        invariant
            i <= body.len(),
            view == body.deep_view(),
            notes.deep_view() == duplicate_notes(view, i as int),
        decreases body.len() - i,
    {
        assert(view[i as int] == body@[i as int]@);
        proof {
            lemma_one_side(view[i as int]);
        }
        if let Some(id) = tool_id_ref(&body[i], Side::Call) {
            let first: usize = position_of(body, Side::Call, id.as_str());
            if first < i {
                let mut s = sentence(
                    "duplicate tool call for call_id ",
                    id.as_str(),
                    " at position ",
                );
                s.append(decimal_text(i as u128).as_str());
                s.append(" (kept position ");
                s.append(decimal_text(first as u128).as_str());
                s.append(")");
                push_note(notes, BodyDegradationKind::DroppedDuplicate, s);
            }
        }
        if let Some(id) = tool_id_ref(&body[i], Side::Output) {
            let first: usize = position_of(body, Side::Output, id.as_str());
            if first < i {
                let mut s = sentence(
                    "duplicate tool output for call_id ",
                    id.as_str(),
                    " at position ",
                );
                s.append(decimal_text(i as u128).as_str());
                s.append(" (kept position ");
                s.append(decimal_text(first as u128).as_str());
                s.append(")");
                push_note(notes, BodyDegradationKind::DroppedDuplicate, s);
            }
        }
        i = i + 1;
    }
}

/// Notes the calls and outputs that cannot be paired, and says which items stay.
fn note_unpaired(body: &Vec<ResponseItem>, notes: &mut Vec<BodyDegradation>) -> (kept: Vec<bool>)
    ensures
        final(notes).deep_view() == old(notes).deep_view() + unpaired_notes(
            body.deep_view(),
            body.len() as int,
        ),
        kept@ == kept_flags(body.deep_view()),
{
    let ghost view = body.deep_view();
    let ghost start = notes.deep_view();
    let mut kept: Vec<bool> = Vec::new();
    let mut i: usize = 0;
    assert(start + unpaired_notes(view, 0) =~= start);
    while i < body.len()
        invariant
            i <= body.len(),
            view == body.deep_view(),
            notes.deep_view() == start + unpaired_notes(view, i as int),
            kept@ == kept_flags(view).take(i as int),
        decreases body.len() - i,
    {
        assert(view[i as int] == body@[i as int]@);
        proof {
            lemma_one_side(view[i as int]);
        }
        let ghost before = unpaired_notes(view, i as int);
        let mut keep = true;
        if let Some(id) = tool_id_ref(&body[i], Side::Call) {
            proof {
                lemma_find_from(view, Side::Call, id@, 0);
            }
            if position_of(body, Side::Call, id.as_str()) < i {
                keep = false;
            } else {
                let output: usize = position_of(body, Side::Output, id.as_str());
                if output >= body.len() {
                    keep = false;
                    let mut s = sentence("tool call ", id.as_str(), " at position ");
                    s.append(decimal_text(i as u128).as_str());
                    s.append(" has no output in the assembled body; dropped the call");
                    push_note(notes, BodyDegradationKind::DroppedUnpairedToolCall, s);
                } else if output <= i {
                    keep = false;
                    let mut s = sentence(
                        "tool output for call_id ",
                        id.as_str(),
                        " precedes its call (output ",
                    );
                    s.append(decimal_text(output as u128).as_str());
                    s.append(", call ");
                    s.append(decimal_text(i as u128).as_str());
                    s.append("); dropped both sides");
                    push_note(notes, BodyDegradationKind::DroppedUnpairedToolCall, s);
                }
            }
        } else if let Some(id) = tool_id_ref(&body[i], Side::Output) {
            proof {
                lemma_find_from(view, Side::Output, id@, 0);
                lemma_find_from(view, Side::Call, id@, 0);
            }
            if position_of(body, Side::Output, id.as_str()) < i {
                keep = false;
            } else {
                let call: usize = position_of(body, Side::Call, id.as_str());
                if call >= body.len() {
                    keep = false;
                    let mut s = sentence("tool output for call_id ", id.as_str(), " at position ");
                    s.append(decimal_text(i as u128).as_str());
                    s.append(" has no call in the assembled body");
                    push_note(notes, BodyDegradationKind::DroppedOrphanToolOutput, s);
                } else if call >= i {
                    keep = false;
                }
            }
        }
        kept.push(keep);
        assert(keep == keeps(view, i as int));
        assert(notes.deep_view() =~= start + unpaired_notes(view, i + 1));
        i = i + 1;
        assert(kept_flags(view).take(i as int) =~= kept_flags(view).take(i - 1).push(
            kept_flags(view)[i - 1],
        ));
    }
    assert(kept_flags(view).take(i as int) =~= kept_flags(view));
    kept
}

fn clone_kept(body: &Vec<ResponseItem>, kept: &Vec<bool>) -> (r: Vec<ResponseItem>)
    requires
        kept@ == kept_flags(body.deep_view()),
    ensures
        r.deep_view() == kept_items(body.deep_view(), body.len() as int),
{
    let ghost view = body.deep_view();
    let mut out: Vec<ResponseItem> = Vec::new();
    assert(out.deep_view() =~= Seq::<ResponseItemView>::empty());
    let mut i: usize = 0;
    while i < body.len()
        invariant
            i <= body.len(),
            view == body.deep_view(),
            kept@ == kept_flags(view),
            out.deep_view() == kept_items(view, i as int),
        decreases body.len() - i,
    {
        let ghost before = out.deep_view();
        if kept[i] {
            out.push(body[i].clone());
            assert(out.deep_view() =~= before.push(view[i as int]));
        }
        i = i + 1;
    }
    out
}

// ---------------------------------------------------------------------------
// Protected pairs and reasoning
// ---------------------------------------------------------------------------

/// A truth value in words.
pub open spec fn truth(b: bool) -> Seq<char> {
    if b {
        "true"@
    } else {
        "false"@
    }
}

fn truth_word(b: bool) -> (r: &'static str)
    ensures
        r@ == truth(b),
{
    if b {
        "true"
    } else {
        "false"
    }
}

/// What is said of one protected pair: that the body does not carry it, or
/// which of its sides does not read as it did live.
pub open spec fn protected_pair_notes(
    body: Seq<ResponseItemView>,
    pair: ProtectedPairExpectationView,
) -> Seq<BodyDegradationView> {
    let call = find(body, Side::Call, pair.call_id);
    let output = find(body, Side::Output, pair.call_id);
    if call < body.len() && output < body.len() {
        let of_call = if bytes_of(body[call]) != pair.call_bytes {
            seq![
                note(
                    BodyDegradationKind::ProtectedPairNotByteStable,
                    "protected call "@ + pair.call_id
                        + " is not the live provider-native item (LHC-reconstructed pair; same call_id and correlation, provider fields such as status/namespace may be absent)"@,
                ),
            ]
        } else {
            Seq::empty()
        };
        let of_output = if bytes_of(body[output]) != pair.output_bytes {
            seq![
                note(
                    BodyDegradationKind::ProtectedPairNotByteStable,
                    "protected output "@ + pair.call_id
                        + " is not the live provider-native item (LHC-reconstructed pair)"@,
                ),
            ]
        } else {
            Seq::empty()
        };
        of_call + of_output
    } else {
        seq![
            note(
                BodyDegradationKind::ProtectedPairUnavailable,
                "protected pair "@ + pair.call_id
                    + " is not carried by the assembled body (call present: "@ + truth(
                    call < body.len(),
                ) + ", output present: "@ + truth(output < body.len())
                    + "); the next request goes without it"@,
            ),
        ]
    }
}

/// What is said of the first `n` protected pairs.
pub open spec fn protected_notes(
    body: Seq<ResponseItemView>,
    pairs: Seq<ProtectedPairExpectationView>,
    n: int,
) -> Seq<BodyDegradationView>
    decreases n,
{
    if n <= 0 {
        Seq::empty()
    } else {
        protected_notes(body, pairs, n - 1) + protected_pair_notes(body, pairs[n - 1])
    }
}

/// The pair of call `id` was captured.
pub open spec fn is_captured(pairs: Seq<ProtectedPairExpectationView>, id: Seq<char>) -> bool {
    exists|k: int| 0 <= k < pairs.len() && (#[trigger] pairs[k]).call_id == id
}

/// What is said of the first `n` protected calls of which no pair was captured.
pub open spec fn uncaptured_notes(
    pairs: Seq<ProtectedPairExpectationView>,
    ids: Seq<Seq<char>>,
    n: int,
) -> Seq<BodyDegradationView>
    decreases n,
{
    if n <= 0 {
        Seq::empty()
    } else {
        let before = uncaptured_notes(pairs, ids, n - 1);
        if is_captured(pairs, ids[n - 1]) {
            before
        } else {
            before.push(
                note(
                    BodyDegradationKind::ProtectedExpectationMissing,
                    "live capture produced no byte expectation for protected call "@ + ids[n - 1]
                        + "; it cannot be proven, only carried"@,
                ),
            )
        }
    }
}

/// What is said of the first `n` required pieces of reasoning.
pub open spec fn reasoning_notes(
    present: Seq<Seq<char>>,
    required: Seq<Seq<char>>,
    n: int,
) -> Seq<BodyDegradationView>
    decreases n,
{
    if n <= 0 {
        Seq::empty()
    } else {
        let before = reasoning_notes(present, required, n - 1);
        if present.contains(required[n - 1]) {
            before
        } else {
            before.push(
                note(
                    BodyDegradationKind::MissingEncryptedReasoning,
                    "required encrypted reasoning #"@ + decimal((n - 1) as nat) + " ("@ + decimal(
                        byte_len(required[n - 1]),
                    ) + " bytes) did not survive materialization; omitted from the request"@,
                ),
            )
        }
    }
}

fn note_protected_pair(
    body: &Vec<ResponseItem>,
    pair: &ProtectedPairExpectation,
    notes: &mut Vec<BodyDegradation>,
)
    ensures
        final(notes).deep_view() == old(notes).deep_view() + protected_pair_notes(
            body.deep_view(),
            pair@,
        ),
{
    let ghost start = notes.deep_view();
    let id = pair.call_id.as_str();
    let call: usize = position_of(body, Side::Call, id);
    let output: usize = position_of(body, Side::Output, id);
    if call < body.len() && output < body.len() {
        if !text_eq(item_bytes_without_id(&body[call]).as_str(), pair.call_bytes.as_str()) {
            push_note(
                notes,
                BodyDegradationKind::ProtectedPairNotByteStable,
                sentence(
                    "protected call ",
                    id,
                    " is not the live provider-native item (LHC-reconstructed pair; same call_id and correlation, provider fields such as status/namespace may be absent)",
                ),
            );
        }
        if !text_eq(item_bytes_without_id(&body[output]).as_str(), pair.output_bytes.as_str()) {
            push_note(
                notes,
                BodyDegradationKind::ProtectedPairNotByteStable,
                sentence(
                    "protected output ",
                    id,
                    " is not the live provider-native item (LHC-reconstructed pair)",
                ),
            );
        }
    } else {
        let mut s = sentence(
            "protected pair ",
            id,
            " is not carried by the assembled body (call present: ",
        );
        s.append(truth_word(call < body.len()));
        s.append(", output present: ");
        s.append(truth_word(output < body.len()));
        s.append("); the next request goes without it");
        push_note(notes, BodyDegradationKind::ProtectedPairUnavailable, s);
    }
    assert(notes.deep_view() =~= start + protected_pair_notes(body.deep_view(), pair@));
}

fn captured(pairs: &Vec<ProtectedPairExpectation>, id: &str) -> (r: bool)
    ensures
        r == is_captured(pairs.deep_view(), id@),
{
    let ghost view = pairs.deep_view();
    let mut k: usize = 0;
    while k < pairs.len()
        invariant
            k <= pairs.len(),
            view == pairs.deep_view(),
            forall|j: int| 0 <= j < k ==> (#[trigger] view[j]).call_id != id@,
        decreases pairs.len() - k,
    {
        assert(view[k as int] == pairs@[k as int]@);
        if text_eq(pairs[k].call_id.as_str(), id) {
            return true;
        }
        k = k + 1;
    }
    false
}

/// What is said of the protected pairs and the reasoning of a repaired body.
pub open spec fn survival_notes(
    body: Seq<ResponseItemView>,
    spec: BodyValidationSpecView,
) -> Seq<BodyDegradationView> {
    protected_notes(body, spec.protected_pairs, spec.protected_pairs.len() as int)
        + uncaptured_notes(
        spec.protected_pairs,
        spec.protected_tool_call_ids,
        spec.protected_tool_call_ids.len() as int,
    ) + reasoning_notes(
        all_signed_reasoning(body),
        spec.required_encrypted_reasoning,
        spec.required_encrypted_reasoning.len() as int,
    )
}

fn note_survival(
    body: &Vec<ResponseItem>,
    spec: &BodyValidationSpec,
    notes: &mut Vec<BodyDegradation>,
)
    ensures
        final(notes).deep_view() == old(notes).deep_view() + survival_notes(
            body.deep_view(),
            spec@,
        ),
{
    let ghost start = notes.deep_view();
    let ghost view = body.deep_view();
    let ghost pairs = spec.protected_pairs.deep_view();
    let mut k: usize = 0;
    assert(start + protected_notes(view, pairs, 0) =~= start);
    while k < spec.protected_pairs.len()
        invariant
            k <= spec.protected_pairs.len(),
            view == body.deep_view(),
            pairs == spec.protected_pairs.deep_view(),
            notes.deep_view() == start + protected_notes(view, pairs, k as int),
        decreases spec.protected_pairs.len() - k,
    {
        let ghost before = protected_notes(view, pairs, k as int);
        assert(pairs[k as int] == spec.protected_pairs@[k as int]@);
        note_protected_pair(body, &spec.protected_pairs[k], notes);
        assert(notes.deep_view() =~= start + (before + protected_pair_notes(
            view,
            pairs[k as int],
        )));
        k = k + 1;
    }
    let ghost first = notes.deep_view();
    let ghost ids = spec.protected_tool_call_ids.deep_view();
    let mut q: usize = 0;
    assert(first + uncaptured_notes(pairs, ids, 0) =~= first);
    while q < spec.protected_tool_call_ids.len()
        invariant
            q <= spec.protected_tool_call_ids.len(),
            pairs == spec.protected_pairs.deep_view(),
            ids == spec.protected_tool_call_ids.deep_view(),
            notes.deep_view() == first + uncaptured_notes(pairs, ids, q as int),
        decreases spec.protected_tool_call_ids.len() - q,
    {
        let id = spec.protected_tool_call_ids[q].as_str();
        assert(ids[q as int] == id@);
        if !captured(&spec.protected_pairs, id) {
            push_note(
                notes,
                BodyDegradationKind::ProtectedExpectationMissing,
                sentence(
                    "live capture produced no byte expectation for protected call ",
                    id,
                    "; it cannot be proven, only carried",
                ),
            );
        }
        assert(notes.deep_view() =~= first + uncaptured_notes(pairs, ids, q + 1));
        q = q + 1;
    }
    let ghost second = notes.deep_view();
    let present = collect_signed_reasoning(body, 0);
    assert(view.skip(0) =~= view);
    let ghost required = spec.required_encrypted_reasoning.deep_view();
    let mut m: usize = 0;
    assert(second + reasoning_notes(present.deep_view(), required, 0) =~= second);
    while m < spec.required_encrypted_reasoning.len()
        invariant
            m <= spec.required_encrypted_reasoning.len(),
            required == spec.required_encrypted_reasoning.deep_view(),
            notes.deep_view() == second + reasoning_notes(
                present.deep_view(),
                required,
                m as int,
            ),
        decreases spec.required_encrypted_reasoning.len() - m,
    {
        let s = spec.required_encrypted_reasoning[m].as_str();
        assert(required[m as int] == s@);
        if !holds_text(&present, s) {
            let mut t = counted("required encrypted reasoning #", m);
            t.append(" (");
            t.append(decimal_text(text_byte_len(s) as u128).as_str());
            t.append(" bytes) did not survive materialization; omitted from the request");
            push_note(notes, BodyDegradationKind::MissingEncryptedReasoning, t);
        }
        assert(notes.deep_view() =~= second + reasoning_notes(
            present.deep_view(),
            required,
            m + 1,
        ));
        m = m + 1;
    }
    assert(notes.deep_view() =~= start + survival_notes(view, spec@));
}

// ---------------------------------------------------------------------------
// Cutting oversized content
// ---------------------------------------------------------------------------

/// What stands in place of content that was cut.
pub const TRUNCATION_MARKER: &'static str = "\n[lhc-compact: content truncated to fit the request]";

/// A text of no more bytes than this is not cut.
pub const MIN_TRUNCATABLE_TEXT: usize = 512;

/// How often content is cut at most.
pub const MAX_TRUNCATION_ROUNDS: usize = 128;

/// A text that is long enough to be cut.
pub open spec fn is_oversized(s: Seq<char>) -> bool {
    byte_len(s) > MIN_TRUNCATABLE_TEXT
}

/// How many bytes of an oversized text are kept: about half of them, less the
/// marker, up to the end of a character.
pub open spec fn kept_bytes(s: Seq<char>) -> int {
    let half = byte_len(s) as int / 2;
    let marker = byte_len(TRUNCATION_MARKER@) as int;
    boundary_at(
        s,
        if half >= marker {
            half - marker
        } else {
            0
        },
    )
}

/// A text with about half of it cut, where it is oversized.
pub open spec fn halved_text(s: Seq<char>) -> Seq<char> {
    if is_oversized(s) {
        head_of(s, kept_bytes(s)) + TRUNCATION_MARKER@
    } else {
        s
    }
}

/// The free text of a message part.
pub open spec fn content_slot(c: ContentItemView) -> Option<Seq<char>> {
    match c {
        ContentItemView::InputText { text } => Some(text),
        ContentItemView::OutputText { text } => Some(text),
        _ => None,
    }
}

/// The free text of a part of a tool output.
pub open spec fn output_slot(c: FunctionCallOutputContentItemView) -> Option<Seq<char>> {
    match c {
        FunctionCallOutputContentItemView::InputText { text } => Some(text),
        _ => None,
    }
}

/// The free texts of an output.
pub open spec fn payload_slots(output: FunctionCallOutputPayloadView) -> Seq<Option<Seq<char>>> {
    match output.body {
        FunctionCallOutputBodyView::Text(s) => seq![Some(s)],
        FunctionCallOutputBodyView::ContentItems(items) => items.map_values(
            |c: FunctionCallOutputContentItemView| output_slot(c),
        ),
    }
}

/// The parts of an item, each with the free text that the model sees in it.
/// Only messages and tool outputs have such text: what a call hands to a tool
/// is parsed by the provider, so it is never cut.
pub open spec fn text_slots(item: ResponseItemView) -> Seq<Option<Seq<char>>> {
    match item {
        ResponseItemView::Message { content, .. } => content.map_values(
            |c: ContentItemView| content_slot(c),
        ),
        ResponseItemView::FunctionCallOutput { output, .. } => payload_slots(output),
        ResponseItemView::CustomToolCallOutput { output, .. } => payload_slots(output),
        _ => Seq::empty(),
    }
}

/// The bytes of the free texts.
pub open spec fn slot_bytes(slots: Seq<Option<Seq<char>>>) -> nat
    decreases slots.len(),
{
    if slots.len() == 0 {
        0
    } else {
        slot_bytes(slots.drop_last()) + (match slots.last() {
            Some(s) => byte_len(s),
            None => 0,
        })
    }
}

/// The bytes of the free texts that are oversized.
pub open spec fn oversized_bytes(slots: Seq<Option<Seq<char>>>) -> nat
    decreases slots.len(),
{
    if slots.len() == 0 {
        0
    } else {
        oversized_bytes(slots.drop_last()) + (match slots.last() {
            Some(s) => if is_oversized(s) {
                byte_len(s)
            } else {
                0
            },
            None => 0,
        })
    }
}

/// How much of an item can be cut.
pub open spec fn truncatable_len(item: ResponseItemView) -> nat {
    oversized_bytes(text_slots(item))
}

/// A message part with its text cut.
pub open spec fn halved_content(c: ContentItemView) -> ContentItemView {
    match c {
        ContentItemView::InputText { text } => ContentItemView::InputText {
            text: halved_text(text),
        },
        ContentItemView::OutputText { text } => ContentItemView::OutputText {
            text: halved_text(text),
        },
        _ => c,
    }
}

/// A part of a tool output with its text cut.
pub open spec fn halved_output(
    c: FunctionCallOutputContentItemView,
) -> FunctionCallOutputContentItemView {
    match c {
        FunctionCallOutputContentItemView::InputText { text } =>
            FunctionCallOutputContentItemView::InputText { text: halved_text(text) },
        _ => c,
    }
}

/// An output with its texts cut.
pub open spec fn halved_payload(
    output: FunctionCallOutputPayloadView,
) -> FunctionCallOutputPayloadView {
    FunctionCallOutputPayloadView {
        body: match output.body {
            FunctionCallOutputBodyView::Text(s) => FunctionCallOutputBodyView::Text(
                halved_text(s),
            ),
            FunctionCallOutputBodyView::ContentItems(items) =>
                FunctionCallOutputBodyView::ContentItems(
                items.map_values(|c: FunctionCallOutputContentItemView| halved_output(c)),
            ),
        },
        success: output.success,
    }
}

/// An item with its oversized free texts cut by half.
pub open spec fn halved(item: ResponseItemView) -> ResponseItemView {
    match item {
        ResponseItemView::Message {
            id,
            role,
            content,
            phase,
            internal_chat_message_metadata_passthrough,
        } => ResponseItemView::Message {
            id,
            role,
            content: content.map_values(|c: ContentItemView| halved_content(c)),
            phase,
            internal_chat_message_metadata_passthrough,
        },
        ResponseItemView::FunctionCallOutput {
            id,
            call_id,
            name,
            namespace,
            output,
            internal_chat_message_metadata_passthrough,
        } => ResponseItemView::FunctionCallOutput {
            id,
            call_id,
            name,
            namespace,
            output: halved_payload(output),
            internal_chat_message_metadata_passthrough,
        },
        ResponseItemView::CustomToolCallOutput {
            id,
            call_id,
            name,
            output,
            internal_chat_message_metadata_passthrough,
        } => ResponseItemView::CustomToolCallOutput {
            id,
            call_id,
            name,
            output: halved_payload(output),
            internal_chat_message_metadata_passthrough,
        },
        _ => item,
    }
}

fn content_slot_ref(c: &ContentItem) -> (r: Option<&String>)
    ensures
        r.deep_view() == content_slot(c@),
{
    match c {
        ContentItem::InputText { text } => Some(text),
        ContentItem::OutputText { text } => Some(text),
        _ => None,
    }
}

fn output_slot_ref(c: &FunctionCallOutputContentItem) -> (r: Option<&String>)
    ensures
        r.deep_view() == output_slot(c@),
{
    match c {
        FunctionCallOutputContentItem::InputText { text } => Some(text),
        _ => None,
    }
}

/// The bytes of a slot that count: all of them, or only those of an oversized text.
fn slot_len(slot: Option<&String>, all: bool) -> (r: u128)
    ensures
        r == (match slot.deep_view() {
            Some(s) => if all || is_oversized(s) {
                byte_len(s)
            } else {
                0
            },
            None => 0,
        }),
        r <= 0xffff_ffff_ffff_ffff,
{
    match slot {
        Some(s) => {
            let n: usize = text_byte_len(s.as_str());
            if all || n > MIN_TRUNCATABLE_TEXT {
                n as u128
            } else {
                0
            }
        },
        None => 0,
    }
}

/// The bytes of the slots that count.
pub open spec fn counted_bytes(slots: Seq<Option<Seq<char>>>, all: bool) -> nat {
    if all {
        slot_bytes(slots)
    } else {
        oversized_bytes(slots)
    }
}

proof fn lemma_counted_bytes_push(slots: Seq<Option<Seq<char>>>, i: int, all: bool)
    requires
        0 <= i < slots.len(),
    ensures
        counted_bytes(slots.take(i + 1), all) == counted_bytes(slots.take(i), all) + (
        match slots[i] {
            Some(s) => if all || is_oversized(s) {
                byte_len(s)
            } else {
                0
            },
            None => 0,
        }),
{
    assert(slots.take(i + 1).drop_last() =~= slots.take(i));
}

fn content_bytes(content: &Vec<ContentItem>, all: bool) -> (r: u128)
    ensures
        r == counted_bytes(
            content.deep_view().map_values(|c: ContentItemView| content_slot(c)),
            all,
        ),
{
    let ghost slots = content.deep_view().map_values(|c: ContentItemView| content_slot(c));
    let mut n: u128 = 0;
    let mut i: usize = 0;
    while i < content.len()
        invariant
            i <= content.len(),
            slots == content.deep_view().map_values(|c: ContentItemView| content_slot(c)),
            n == counted_bytes(slots.take(i as int), all),
            n <= i * 0xffff_ffff_ffff_ffff,
        decreases content.len() - i,
    {
        proof {
            lemma_counted_bytes_push(slots, i as int, all);
        }
        n = n + slot_len(content_slot_ref(&content[i]), all);
        i = i + 1;
    }
    assert(slots.take(i as int) =~= slots);
    n
}

fn payload_bytes(output: &FunctionCallOutputPayload, all: bool) -> (r: u128)
    ensures
        r == counted_bytes(payload_slots(output@), all),
{
    match &output.body {
        FunctionCallOutputBody::Text(s) => {
            let ghost slots = payload_slots(output@);
            proof {
                lemma_counted_bytes_push(slots, 0, all);
                assert(slots.take(1) =~= slots);
            }
            slot_len(Some(s), all)
        },
        FunctionCallOutputBody::ContentItems(items) => {
            let ghost slots = payload_slots(output@);
            let mut n: u128 = 0;
            let mut i: usize = 0;
            while i < items.len()
                invariant
                    i <= items.len(),
                    slots == items.deep_view().map_values(
                        |c: FunctionCallOutputContentItemView| output_slot(c),
                    ),
                    n == counted_bytes(slots.take(i as int), all),
                    n <= i * 0xffff_ffff_ffff_ffff,
                decreases items.len() - i,
            {
                proof {
                    lemma_counted_bytes_push(slots, i as int, all);
                }
                n = n + slot_len(output_slot_ref(&items[i]), all);
                i = i + 1;
            }
            assert(slots.take(i as int) =~= slots);
            n
        },
    }
}

fn item_text_bytes(item: &ResponseItem, all: bool) -> (r: u128)
    ensures
        r == counted_bytes(text_slots(item@), all),
{
    match item {
        ResponseItem::Message { content, .. } => content_bytes(content, all),
        ResponseItem::FunctionCallOutput { output, .. } => payload_bytes(output, all),
        ResponseItem::CustomToolCallOutput { output, .. } => payload_bytes(output, all),
        _ => 0,
    }
}

fn halve_text(s: &String) -> (r: String)
    ensures
        r@ == halved_text(s@),
{
    let len: usize = text_byte_len(s.as_str());
    if len <= MIN_TRUNCATABLE_TEXT {
        return s.clone();
    }
    let half: usize = len / 2;
    let marker: usize = text_byte_len(TRUNCATION_MARKER);
    let at: usize = if half >= marker {
        half - marker
    } else {
        0
    };
    let keep: usize = floor_char_boundary(s.as_str(), at);
    let mut out = text(head(s.as_str(), keep));
    out.append(TRUNCATION_MARKER);
    out
}

fn halve_content(content: &Vec<ContentItem>) -> (r: Vec<ContentItem>)
    ensures
        r.deep_view() == content.deep_view().map_values(|c: ContentItemView| halved_content(c)),
{
    let mut out: Vec<ContentItem> = Vec::new();
    let mut i: usize = 0;
    while i < content.len()
        invariant
            i <= content.len(),
            out.len() == i,
            forall|k: int| 0 <= k < i ==> (#[trigger] out@[k])@ == halved_content(content@[k]@),
        decreases content.len() - i,
    {
        let part = match &content[i] {
            ContentItem::InputText { text } => ContentItem::InputText { text: halve_text(text) },
            ContentItem::OutputText { text } => ContentItem::OutputText { text: halve_text(text) },
            other => other.clone(),
        };
        out.push(part);
        i = i + 1;
    }
    assert(out.deep_view() =~= content.deep_view().map_values(
        |c: ContentItemView| halved_content(c),
    ));
    out
}

fn halve_payload(output: &FunctionCallOutputPayload) -> (r: FunctionCallOutputPayload)
    ensures
        r@ == halved_payload(output@),
{
    let body = match &output.body {
        FunctionCallOutputBody::Text(s) => FunctionCallOutputBody::Text(halve_text(s)),
        FunctionCallOutputBody::ContentItems(items) => {
            let mut out: Vec<FunctionCallOutputContentItem> = Vec::new();
            let mut i: usize = 0;
            while i < items.len()
                invariant
                    i <= items.len(),
                    out.len() == i,
                    forall|k: int|
                        0 <= k < i ==> (#[trigger] out@[k])@ == halved_output(items@[k]@),
                decreases items.len() - i,
            {
                let part = match &items[i] {
                    FunctionCallOutputContentItem::InputText { text } =>
                        FunctionCallOutputContentItem::InputText { text: halve_text(text) },
                    other => other.clone(),
                };
                out.push(part);
                i = i + 1;
            }
            assert(out.deep_view() =~= items.deep_view().map_values(
                |c: FunctionCallOutputContentItemView| halved_output(c),
            ));
            FunctionCallOutputBody::ContentItems(out)
        },
    };
    FunctionCallOutputPayload { body, success: output.success }
}

/// Cuts every oversized free text of an item by about half.
fn truncate_item_text_by_half(item: &mut ResponseItem)
    ensures
        final(item)@ == halved(old(item)@),
{
    match item {
        ResponseItem::Message { content, .. } => {
            let cut = halve_content(content);
            *content = cut;
        },
        ResponseItem::FunctionCallOutput { output, .. } => {
            let cut = halve_payload(output);
            *output = cut;
        },
        ResponseItem::CustomToolCallOutput { output, .. } => {
            let cut = halve_payload(output);
            *output = cut;
        },
        _ => {},
    }
}

/// The item belongs to a protected call.
pub open spec fn is_protected(item: ResponseItemView, ids: Seq<Seq<char>>) -> bool {
    match tool_id(item, Side::Call) {
        Some(id) => ids.contains(id),
        None => match tool_id(item, Side::Output) {
            Some(id) => ids.contains(id),
            None => false,
        },
    }
}

/// The item at `i` is to be cut rather than the one at `k`: unprotected content
/// goes first, and the largest of its class.
pub open spec fn cut_before(
    body: Seq<ResponseItemView>,
    ids: Seq<Seq<char>>,
    i: int,
    k: int,
) -> bool {
    if is_protected(body[i], ids) == is_protected(body[k], ids) {
        truncatable_len(body[i]) > truncatable_len(body[k])
    } else {
        !is_protected(body[i], ids)
    }
}

/// The item to cut, among the first `n`.
pub open spec fn victim(body: Seq<ResponseItemView>, ids: Seq<Seq<char>>, n: int) -> Option<int>
    decreases n,
{
    if n <= 0 {
        None
    } else if truncatable_len(body[n - 1]) == 0 {
        victim(body, ids, n - 1)
    } else {
        match victim(body, ids, n - 1) {
            Some(k) => if cut_before(body, ids, n - 1, k) {
                Some(n - 1)
            } else {
                Some(k)
            },
            None => Some(n - 1),
        }
    }
}

/// A body after cutting, and in how many rounds.
#[verifier::ext_equal]
pub struct Trimmed {
    pub body: Seq<ResponseItemView>,
    pub rounds: nat,
}

/// A body cut, item after item, until it is smaller than the threshold, nothing
/// is left to cut or the rounds are used up.
pub open spec fn trimmed<F: Fn(&str) -> i64>(
    f: F,
    body: Seq<ResponseItemView>,
    ids: Seq<Seq<char>>,
    threshold: i64,
    rounds_left: nat,
) -> Trimmed
    decreases rounds_left,
{
    if body_estimate(f, body) < threshold || rounds_left == 0 {
        Trimmed { body, rounds: 0 }
    } else {
        match victim(body, ids, body.len() as int) {
            None => Trimmed { body, rounds: 1 },
            Some(k) => {
                let rest = trimmed(
                    f,
                    body.update(k, halved(body[k])),
                    ids,
                    threshold,
                    (rounds_left - 1) as nat,
                );
                Trimmed { body: rest.body, rounds: rest.rounds + 1 }
            },
        }
    }
}

/// The victim is an item that can be cut.
pub proof fn lemma_victim(body: Seq<ResponseItemView>, ids: Seq<Seq<char>>, n: int)
    requires
        0 <= n <= body.len(),
    ensures
        match victim(body, ids, n) {
            Some(k) => {
                &&& 0 <= k < n
                &&& truncatable_len(body[k]) > 0
                &&& forall|i: int|
                    0 <= i < n && truncatable_len(#[trigger] body[i]) > 0 ==> !cut_before(
                        body,
                        ids,
                        i,
                        k,
                    )
            },
            None => forall|i: int| 0 <= i < n ==> truncatable_len(#[trigger] body[i]) == 0,
        },
    decreases n,
{
    if n > 0 {
        lemma_victim(body, ids, n - 1);
    }
}

/// Whether an item belongs to a protected call.
fn belongs_to_protected(item: &ResponseItem, ids: &Vec<String>) -> (r: bool)
    ensures
        r == is_protected(item@, ids.deep_view()),
{
    match tool_id_ref(item, Side::Call) {
        Some(id) => holds_text(ids, id.as_str()),
        None => match tool_id_ref(item, Side::Output) {
            Some(id) => holds_text(ids, id.as_str()),
            None => false,
        },
    }
}

fn find_victim(body: &Vec<ResponseItem>, ids: &Vec<String>) -> (r: Option<usize>)
    ensures
        match r {
            Some(k) => k < body.len() && victim(
                body.deep_view(),
                ids.deep_view(),
                body.len() as int,
            ) == Some(k as int),
            None => victim(body.deep_view(), ids.deep_view(), body.len() as int) is None,
        },
{
    let ghost view = body.deep_view();
    let ghost id_view = ids.deep_view();
    let mut best: Option<(bool, u128, usize)> = None;
    let mut i: usize = 0;
    while i < body.len()
        invariant
            i <= body.len(),
            view == body.deep_view(),
            id_view == ids.deep_view(),
            match best {
                Some((protected, len, k)) => {
                    &&& k < i
                    &&& victim(view, id_view, i as int) == Some(k as int)
                    &&& protected == is_protected(view[k as int], id_view)
                    &&& len == truncatable_len(view[k as int])
                },
                None => victim(view, id_view, i as int) is None,
            },
        decreases body.len() - i,
    {
        assert(view[i as int] == body@[i as int]@);
        let protected = belongs_to_protected(&body[i], ids);
        let len: u128 = item_text_bytes(&body[i], false);
        if len > 0 {
            let better = match best {
                None => true,
                Some((best_protected, best_len, _)) => if protected == best_protected {
                    len > best_len
                } else {
                    !protected
                },
            };
            if better {
                best = Some((protected, len, i));
            }
        }
        i = i + 1;
    }
    match best {
        Some((_, _, k)) => Some(k),
        None => None,
    }
}

/// What an item is called.
pub open spec fn label_of(item: ResponseItemView) -> Seq<char> {
    match tool_id(item, Side::Call) {
        Some(id) => "tool call "@ + id,
        None => match tool_id(item, Side::Output) {
            Some(id) => "tool output "@ + id,
            None => match item {
                ResponseItemView::Message { role, .. } => role + " message"@,
                ResponseItemView::Reasoning { .. } => "reasoning"@,
                _ => match text_member(<ResponseItem as Wire>::wire(item), "type"@) {
                    Some(tag) => tag,
                    None => "item"@,
                },
            },
        },
    }
}

fn item_label(item: &ResponseItem) -> (r: String)
    ensures
        r@ == label_of(item@),
{
    if let Some(id) = tool_id_ref(item, Side::Call) {
        return phrase("tool call ", id.as_str());
    }
    if let Some(id) = tool_id_ref(item, Side::Output) {
        return phrase("tool output ", id.as_str());
    }
    match item {
        ResponseItem::Message { role, .. } => phrase(role.as_str(), " message"),
        ResponseItem::Reasoning { .. } => text("reasoning"),
        _ => match get_text_member(&item.to_wire(), "type") {
            Some(tag) => tag.clone(),
            None => text("item"),
        },
    }
}

/// What is said of the items that were cut, among the first `n`.
pub open spec fn cut_notes(
    before: Seq<ResponseItemView>,
    after: Seq<ResponseItemView>,
    ids: Seq<Seq<char>>,
    threshold: i64,
    n: int,
) -> Seq<BodyDegradationView>
    decreases n,
{
    if n <= 0 {
        Seq::empty()
    } else {
        let earlier = cut_notes(before, after, ids, threshold, n - 1);
        let removed = slot_bytes(text_slots(before[n - 1])) - slot_bytes(
            text_slots(after[n - 1]),
        );
        if removed > 0 {
            earlier.push(
                note(
                    BodyDegradationKind::TruncatedOversizedContent,
                    label_of(after[n - 1]) + " at position "@ + decimal((n - 1) as nat) + (
                    if is_protected(after[n - 1], ids) {
                        " (protected pair: nothing unprotected left to cut)"@
                    } else {
                        ""@
                    }) + ": cut "@ + decimal(removed as nat) + " bytes to fit under threshold "@
                        + signed_decimal(threshold as int) + " ("@ + BODY_SIZE_SOURCE@ + ")"@,
                ),
            )
        } else {
            earlier
        }
    }
}

/// What is said of a body that could not be made small enough.
pub open spec fn size_notes(estimate: i64, rounds: nat, threshold: i64) -> Seq<
    BodyDegradationView,
> {
    if estimate >= threshold {
        seq![
            note(
                BodyDegradationKind::StillOverThreshold,
                "body is "@ + signed_decimal(estimate as int) + " tokens after "@ + decimal(rounds)
                    + " truncation rounds, threshold "@ + signed_decimal(threshold as int) + " ("@
                    + BODY_SIZE_SOURCE@
                    + "); sending anyway - the provider is the final authority"@,
            ),
        ]
    } else {
        Seq::empty()
    }
}

/// The best version of a body that can still be sent.
pub open spec fn degraded_body<F: Fn(&str) -> i64>(
    f: F,
    body: Seq<ResponseItemView>,
    spec: BodyValidationSpecView,
) -> DegradedBodyView {
    let n = body.len() as int;
    let repaired = kept_items(body, n);
    let notes = duplicate_notes(body, n) + unpaired_notes(body, n) + survival_notes(
        repaired,
        spec,
    );
    let ids = spec.protected_tool_call_ids;
    match spec.safe_runway_threshold_tokens {
        None => DegradedBodyView { body: repaired, kept: kept_flags(body), degradations: notes },
        Some(threshold) => {
            let cut = trimmed(f, repaired, ids, threshold, MAX_TRUNCATION_ROUNDS as nat);
            DegradedBodyView {
                body: cut.body,
                kept: kept_flags(body),
                degradations: notes + cut_notes(
                    repaired,
                    cut.body,
                    ids,
                    threshold,
                    repaired.len() as int,
                ) + size_notes(body_estimate(f, cut.body), cut.rounds, threshold),
            }
        },
    }
}

/// Cuts a body until it is small enough; gives its size and the rounds taken.
fn trim<F: Fn(&str) -> i64>(
    body: &mut Vec<ResponseItem>,
    ids: &Vec<String>,
    threshold: i64,
    estimate_tokens: &F,
) -> (r: (i64, usize))
    requires
        is_estimator(*estimate_tokens),
    ensures
        ({
            let cut = trimmed(
                *estimate_tokens,
                old(body).deep_view(),
                ids.deep_view(),
                threshold,
                MAX_TRUNCATION_ROUNDS as nat,
            );
            &&& final(body).deep_view() == cut.body
            &&& final(body).len() == old(body).len()
            &&& r.1 == cut.rounds
            &&& r.0 == body_estimate(*estimate_tokens, cut.body)
        }),
{
    let ghost f = *estimate_tokens;
    let ghost start = body.deep_view();
    let ghost id_view = ids.deep_view();
    let ghost whole = trimmed(f, start, id_view, threshold, MAX_TRUNCATION_ROUNDS as nat);
    let mut estimate: i64 = estimate_response_items_tokens(body, estimate_tokens);
    let mut rounds: usize = 0;
    while estimate >= threshold && rounds < MAX_TRUNCATION_ROUNDS
        invariant_except_break
            ({
                let rest = trimmed(
                    f,
                    body.deep_view(),
                    id_view,
                    threshold,
                    (MAX_TRUNCATION_ROUNDS - rounds) as nat,
                );
                whole.body == rest.body && whole.rounds == rest.rounds + rounds
            }),
        invariant
            f == *estimate_tokens,
            is_estimator(f),
            id_view == ids.deep_view(),
            rounds <= MAX_TRUNCATION_ROUNDS,
            body.len() == start.len(),
            estimate == body_estimate(f, body.deep_view()),
        ensures
            whole.body == body.deep_view(),
            whole.rounds == rounds,
        decreases MAX_TRUNCATION_ROUNDS - rounds,
    {
        let ghost before = body.deep_view();
        match find_victim(body, ids) {
            None => {
                rounds = rounds + 1;
                break ;
            },
            Some(k) => {
                rounds = rounds + 1;
                let mut item = body[k].clone();
                truncate_item_text_by_half(&mut item);
                let ghost cut = item@;
                body.set(k, item);
                assert(body.deep_view() =~= before.update(k as int, halved(before[k as int])));
                estimate = estimate_response_items_tokens(body, estimate_tokens);
            },
        }
    }
    (estimate, rounds)
}

fn note_cuts(
    before: &Vec<ResponseItem>,
    after: &Vec<ResponseItem>,
    ids: &Vec<String>,
    threshold: i64,
    notes: &mut Vec<BodyDegradation>,
)
    requires
        before.len() == after.len(),
    ensures
        final(notes).deep_view() == old(notes).deep_view() + cut_notes(
            before.deep_view(),
            after.deep_view(),
            ids.deep_view(),
            threshold,
            before.len() as int,
        ),
{
    let ghost start = notes.deep_view();
    let ghost b = before.deep_view();
    let ghost a = after.deep_view();
    let ghost id_view = ids.deep_view();
    let mut i: usize = 0;
    assert(start + cut_notes(b, a, id_view, threshold, 0) =~= start);
    while i < before.len()
        invariant
            i <= before.len(),
            before.len() == after.len(),
            b == before.deep_view(),
            a == after.deep_view(),
            id_view == ids.deep_view(),
            notes.deep_view() == start + cut_notes(b, a, id_view, threshold, i as int),
        decreases before.len() - i,
    {
        assert(b[i as int] == before@[i as int]@);
        assert(a[i as int] == after@[i as int]@);
        let was: u128 = item_text_bytes(&before[i], true);
        let is: u128 = item_text_bytes(&after[i], true);
        if was > is {
            let mut s = item_label(&after[i]);
            s.append(" at position ");
            s.append(decimal_text(i as u128).as_str());
            if belongs_to_protected(&after[i], ids) {
                s.append(" (protected pair: nothing unprotected left to cut)");
            } else {
                s.append("");
            }
            s.append(": cut ");
            s.append(decimal_text(was - is).as_str());
            s.append(" bytes to fit under threshold ");
            s.append(signed_decimal_text(threshold as i128).as_str());
            s.append(" (");
            s.append(BODY_SIZE_SOURCE);
            s.append(")");
            push_note(notes, BodyDegradationKind::TruncatedOversizedContent, s);
        }
        assert(notes.deep_view() =~= start + cut_notes(b, a, id_view, threshold, i + 1));
        i = i + 1;
    }
}

/// Reduces a body to the best version that can still be sent.
///
/// In this order: repeated calls and outputs, outputs without a call and calls
/// whose output is missing or precedes them are dropped; protected pairs and
/// signed reasoning that did not survive are reported; the largest texts are
/// cut, those of protected calls last, until the body is smaller than the
/// threshold.
pub fn degrade_body_to_best_available<F: Fn(&str) -> i64>(
    body: &Vec<ResponseItem>,
    spec: &BodyValidationSpec,
    estimate_tokens: &F,
) -> (r: DegradedBody)
    requires
        is_estimator(*estimate_tokens),
    ensures
        r@ == degraded_body(*estimate_tokens, body.deep_view(), spec@),
{
    let ghost view = body.deep_view();
    let ghost n = body.len() as int;
    let mut notes: Vec<BodyDegradation> = Vec::new();
    assert(notes.deep_view() =~= Seq::<BodyDegradationView>::empty());
    note_duplicates(body, &mut notes);
    let kept = note_unpaired(body, &mut notes);
    let mut out = clone_kept(body, &kept);
    note_survival(&out, spec, &mut notes);
    assert(kept.deep_view() =~= kept_flags(view));
    if let Some(threshold) = spec.safe_runway_threshold_tokens {
        let before = out.clone();
        assert(before.deep_view() =~= out.deep_view());
        let (estimate, rounds) = trim(
            &mut out,
            &spec.protected_tool_call_ids,
            threshold,
            estimate_tokens,
        );
        note_cuts(&before, &out, &spec.protected_tool_call_ids, threshold, &mut notes);
        let ghost so_far = notes.deep_view();
        if estimate >= threshold {
            let mut s = text("body is ");
            s.append(signed_decimal_text(estimate as i128).as_str());
            s.append(" tokens after ");
            s.append(decimal_text(rounds as u128).as_str());
            s.append(" truncation rounds, threshold ");
            s.append(signed_decimal_text(threshold as i128).as_str());
            s.append(" (");
            s.append(BODY_SIZE_SOURCE);
            s.append("); sending anyway - the provider is the final authority");
            push_note(&mut notes, BodyDegradationKind::StillOverThreshold, s);
        }
        assert(notes.deep_view() =~= so_far + size_notes(estimate, rounds as nat, threshold));
    }
    DegradedBody { body: out, kept, degradations: notes }
}

// ---------------------------------------------------------------------------
// Laws
// ---------------------------------------------------------------------------

/// Where the kept items among the first `n` come from.
spec fn origins(body: Seq<ResponseItemView>, n: int) -> Seq<int>
    decreases n,
{
    if n <= 0 {
        Seq::empty()
    } else if keeps(body, n - 1) {
        origins(body, n - 1).push(n - 1)
    } else {
        origins(body, n - 1)
    }
}

proof fn lemma_origins(body: Seq<ResponseItemView>, n: int)
    requires
        0 <= n <= body.len(),
    ensures
        ({
            let from = origins(body, n);
            let kept = kept_items(body, n);
            &&& from.len() == kept.len()
            &&& forall|p: int|
                0 <= p < from.len() ==> 0 <= #[trigger] from[p] < n && keeps(body, from[p])
                    && kept[p] == body[from[p]]
            &&& forall|p: int, q: int| 0 <= p < q < from.len() ==> from[p] < from[q]
            &&& forall|i: int| 0 <= i < n && keeps(body, i) ==> #[trigger] from.contains(i)
        }),
    decreases n,
{
    if n > 0 {
        lemma_origins(body, n - 1);
        let before = origins(body, n - 1);
        let from = origins(body, n);
        assert forall|i: int| 0 <= i < n && keeps(body, i) implies #[trigger] from.contains(i) by {
            if i < n - 1 {
                assert(before.contains(i));
                let p = choose|p: int| 0 <= p < before.len() && before[p] == i;
                assert(from[p] == i);
            } else {
                assert(from[from.len() - 1] == i);
            }
        }
    }
}

/// The items that are kept are correlated.
pub proof fn kept_items_are_correlated(body: Seq<ResponseItemView>)
    ensures
        is_correlated(kept_items(body, body.len() as int)),
{
    let n = body.len() as int;
    let kept = kept_items(body, n);
    let from = origins(body, n);
    lemma_origins(body, n);
    assert forall|p: int| 0 <= p < kept.len() implies {
        &&& (tool_id(#[trigger] kept[p], Side::Call) matches Some(id) ==> find(kept, Side::Call, id)
            == p && p < find(kept, Side::Output, id) < kept.len())
        &&& (tool_id(kept[p], Side::Output) matches Some(id) ==> find(kept, Side::Output, id) == p
            && find(kept, Side::Call, id) < kept.len())
    } by {
        let i = from[p];
        lemma_one_side(body[i]);
        if let Some(id) = tool_id(body[i], Side::Call) {
            let o = find(body, Side::Output, id);
            lemma_find_from(body, Side::Output, id, 0);
            lemma_one_side(body[o]);
            assert(keeps(body, o));
            assert(from.contains(o));
            let q = choose|q: int| 0 <= q < from.len() && from[q] == o;
            lemma_kept_find(body, Side::Call, id, p);
            lemma_kept_find(body, Side::Output, id, q);
            assert(p < q) by {
                if q < p {
                    assert(from[q] < from[p]);
                }
            }
        }
        if let Some(id) = tool_id(body[i], Side::Output) {
            let c = find(body, Side::Call, id);
            lemma_find_from(body, Side::Call, id, 0);
            lemma_one_side(body[c]);
            assert(keeps(body, c));
            assert(from.contains(c));
            let q = choose|q: int| 0 <= q < from.len() && from[q] == c;
            lemma_kept_find(body, Side::Output, id, p);
            lemma_kept_find(body, Side::Call, id, q);
        }
    }
}

/// A side of a call that is kept is found where it is kept.
proof fn lemma_kept_find(body: Seq<ResponseItemView>, side: Side, id: Seq<char>, p: int)
    requires
        0 <= p < kept_items(body, body.len() as int).len(),
        tool_id(kept_items(body, body.len() as int)[p], side) == Some(id),
    ensures
        find(kept_items(body, body.len() as int), side, id) == p,
{
    let n = body.len() as int;
    let kept = kept_items(body, n);
    let from = origins(body, n);
    lemma_origins(body, n);
    assert(from[p] == from[p]);
    lemma_one_side(body[from[p]]);
    assert(find(body, side, id) == from[p]);
    assert forall|j: int| 0 <= j < p implies tool_id(#[trigger] kept[j], side) != Some(id) by {
        assert(from[j] < from[p]);
        lemma_one_side(body[from[j]]);
        if tool_id(kept[j], side) == Some(id) {
            assert(find(body, side, id) == from[j]);
        }
    }
    lemma_find_unique(kept, side, id, 0, p);
}

/// Cutting does not touch what an item is known by.
pub proof fn cutting_does_not_identify(item: ResponseItemView)
    ensures
        tool_id(halved(item), Side::Call) == tool_id(item, Side::Call),
        tool_id(halved(item), Side::Output) == tool_id(item, Side::Output),
{
}

/// Cutting a body moves nothing: every item stays in its place.
pub proof fn cutting_moves_nothing<F: Fn(&str) -> i64>(
    f: F,
    body: Seq<ResponseItemView>,
    ids: Seq<Seq<char>>,
    threshold: i64,
    rounds_left: nat,
)
    ensures
        same_tools(body, trimmed(f, body, ids, threshold, rounds_left).body),
    decreases rounds_left,
{
    if body_estimate(f, body) >= threshold && rounds_left > 0 {
        lemma_victim(body, ids, body.len() as int);
        if let Some(k) = victim(body, ids, body.len() as int) {
            let cut = body.update(k, halved(body[k]));
            cutting_does_not_identify(body[k]);
            cutting_moves_nothing(f, cut, ids, threshold, (rounds_left - 1) as nat);
            let last = trimmed(f, cut, ids, threshold, (rounds_left - 1) as nat).body;
            assert forall|i: int|
                #![trigger body[i]]
                #![trigger last[i]]
                0 <= i < body.len() implies tool_id(body[i], Side::Call) == tool_id(
                last[i],
                Side::Call,
            ) && tool_id(body[i], Side::Output) == tool_id(last[i], Side::Output) by {
                assert(tool_id(cut[i], Side::Call) == tool_id(last[i], Side::Call));
            }
        }
    }
}

/// A degraded body always passes the correlation checks of a valid body,
/// whatever it was made of: it can be sent.
pub proof fn degraded_body_is_correlated<F: Fn(&str) -> i64>(
    f: F,
    body: Seq<ResponseItemView>,
    spec: BodyValidationSpecView,
)
    ensures
        correlation_error(degraded_body(f, body, spec).body) is None,
{
    let repaired = kept_items(body, body.len() as int);
    kept_items_are_correlated(body);
    if let Some(threshold) = spec.safe_runway_threshold_tokens {
        let ids = spec.protected_tool_call_ids;
        cutting_moves_nothing(f, repaired, ids, threshold, MAX_TRUNCATION_ROUNDS as nat);
        lemma_same_tools_correlated(repaired, degraded_body(f, body, spec).body);
    }
    correlation_checks_are_exact(degraded_body(f, body, spec).body);
}

/// One flag for each item of the input says whether the body still has it.
pub proof fn kept_flags_count_the_body<F: Fn(&str) -> i64>(
    f: F,
    body: Seq<ResponseItemView>,
    spec: BodyValidationSpecView,
)
    ensures
        degraded_body(f, body, spec).kept.len() == body.len(),
        degraded_body(f, body, spec).body.len() + dropped_flags(degraded_body(f, body, spec).kept)
            == body.len(),
{
    lemma_kept_count(body, body.len() as int);
    assert(kept_flags(body).take(body.len() as int) =~= kept_flags(body));
    if let Some(threshold) = spec.safe_runway_threshold_tokens {
        cutting_moves_nothing(
            f,
            kept_items(body, body.len() as int),
            spec.protected_tool_call_ids,
            threshold,
            MAX_TRUNCATION_ROUNDS as nat,
        );
    }
}

proof fn lemma_kept_count(body: Seq<ResponseItemView>, n: int)
    requires
        0 <= n <= body.len(),
    ensures
        kept_items(body, n).len() + dropped_flags(kept_flags(body).take(n)) == n,
    decreases n,
{
    if n > 0 {
        lemma_kept_count(body, n - 1);
        assert(kept_flags(body).take(n).drop_last() =~= kept_flags(body).take(n - 1));
    }
}

/// Without a size limit, item `i` of the input is in the degraded body, as it
/// is, exactly when its flag says so.
pub proof fn unlimited_body_holds_the_kept_items<F: Fn(&str) -> i64>(
    f: F,
    body: Seq<ResponseItemView>,
    spec: BodyValidationSpecView,
    i: int,
)
    requires
        spec.safe_runway_threshold_tokens is None,
        0 <= i < body.len(),
    ensures
        degraded_body(f, body, spec).kept[i] ==> degraded_body(f, body, spec).body.contains(
            body[i],
        ),
        forall|p: int|
            0 <= p < degraded_body(f, body, spec).body.len() ==> body.contains(
                #[trigger] degraded_body(f, body, spec).body[p],
            ),
{
    let n = body.len() as int;
    let kept = kept_items(body, n);
    let from = origins(body, n);
    lemma_origins(body, n);
    if keeps(body, i) {
        assert(from.contains(i));
        let p = choose|p: int| 0 <= p < from.len() && from[p] == i;
        assert(kept[p] == body[i]);
    }
    assert forall|p: int| 0 <= p < kept.len() implies body.contains(#[trigger] kept[p]) by {
        assert(kept[p] == body[from[p]]);
    }
}

/// A correlated body loses nothing to the repair.
pub proof fn correlated_body_is_kept(body: Seq<ResponseItemView>)
    requires
        correlation_error(body) is None,
    ensures
        kept_items(body, body.len() as int) == body,
        kept_flags(body) == Seq::new(body.len(), |i: int| true),
        duplicate_notes(body, body.len() as int) == Seq::<BodyDegradationView>::empty(),
        unpaired_notes(body, body.len() as int) == Seq::<BodyDegradationView>::empty(),
{
    correlation_checks_are_exact(body);
    lemma_correlated_prefix(body, body.len() as int);
    assert(body.take(body.len() as int) =~= body);
    assert forall|i: int| 0 <= i < body.len() implies keeps(body, i) by {
        lemma_correlated_keeps(body, i);
    }
    assert(kept_flags(body) =~= Seq::new(body.len(), |i: int| true));
}

proof fn lemma_correlated_keeps(body: Seq<ResponseItemView>, i: int)
    requires
        is_correlated(body),
        0 <= i < body.len(),
    ensures
        keeps(body, i),
        !duplicate_at(body, i, Side::Call),
        !duplicate_at(body, i, Side::Output),
        unpaired_note(body, i) is None,
{
    lemma_one_side(body[i]);
    if let Some(id) = tool_id(body[i], Side::Output) {
        let c = find(body, Side::Call, id);
        lemma_find_from(body, Side::Call, id, 0);
        assert(tool_id(body[c], Side::Call) == Some(id));
    }
}

proof fn lemma_correlated_prefix(body: Seq<ResponseItemView>, n: int)
    requires
        is_correlated(body),
        0 <= n <= body.len(),
    ensures
        kept_items(body, n) == body.take(n),
        duplicate_notes(body, n) == Seq::<BodyDegradationView>::empty(),
        unpaired_notes(body, n) == Seq::<BodyDegradationView>::empty(),
    decreases n,
{
    if n > 0 {
        lemma_correlated_prefix(body, n - 1);
        lemma_correlated_keeps(body, n - 1);
        assert(body.take(n) =~= body.take(n - 1).push(body[n - 1]));
    } else {
        assert(body.take(n) =~= Seq::<ResponseItemView>::empty());
    }
}

/// A valid body whose protected calls were all captured goes out as it is,
/// and nothing is reported.
proof fn lemma_valid_body<F: Fn(&str) -> i64>(
    f: F,
    body: Seq<ResponseItemView>,
    spec: BodyValidationSpecView,
)
    requires
        body_error(body, spec, body_estimate(f, body)) is None,
        forall|k: int|
            0 <= k < spec.protected_tool_call_ids.len() ==> is_captured(
                spec.protected_pairs,
                #[trigger] spec.protected_tool_call_ids[k],
            ),
    ensures
        degraded_body(f, body, spec).body == body,
        degraded_body(f, body, spec).degradations == Seq::<BodyDegradationView>::empty(),
        degraded_body(f, body, spec).kept == Seq::new(body.len(), |i: int| true),
{
    correlated_body_is_kept(body);
    let none = Seq::<BodyDegradationView>::empty();
    lemma_no_protected_notes(body, spec.protected_pairs, spec.protected_pairs.len() as int);
    lemma_no_uncaptured_notes(
        spec.protected_pairs,
        spec.protected_tool_call_ids,
        spec.protected_tool_call_ids.len() as int,
    );
    lemma_no_reasoning_notes(
        all_signed_reasoning(body),
        spec.required_encrypted_reasoning,
        spec.required_encrypted_reasoning.len() as int,
    );
    assert(none + none =~= none);
    if let Some(threshold) = spec.safe_runway_threshold_tokens {
        lemma_no_cut_notes(
            body,
            spec.protected_tool_call_ids,
            threshold,
            body.len() as int,
        );
    }
}

proof fn lemma_no_protected_notes(
    body: Seq<ResponseItemView>,
    pairs: Seq<ProtectedPairExpectationView>,
    n: int,
)
    requires
        protected_pairs_error(body, pairs, 0) is None,
        0 <= n <= pairs.len(),
    ensures
        protected_notes(body, pairs, n) == Seq::<BodyDegradationView>::empty(),
    decreases n,
{
    if n > 0 {
        lemma_no_protected_notes(body, pairs, n - 1);
        lemma_no_pair_error(body, pairs, 0, n - 1);
        assert(protected_notes(body, pairs, n) =~= Seq::<BodyDegradationView>::empty());
    }
}

proof fn lemma_no_pair_error(
    body: Seq<ResponseItemView>,
    pairs: Seq<ProtectedPairExpectationView>,
    k: int,
    at: int,
)
    requires
        protected_pairs_error(body, pairs, k) is None,
        0 <= k <= at < pairs.len(),
    ensures
        protected_pair_error(body, pairs[at]) is None,
    decreases at - k,
{
    if k < at {
        lemma_no_pair_error(body, pairs, k + 1, at);
    }
}

proof fn lemma_no_uncaptured_notes(
    pairs: Seq<ProtectedPairExpectationView>,
    ids: Seq<Seq<char>>,
    n: int,
)
    requires
        0 <= n <= ids.len(),
        forall|k: int| 0 <= k < ids.len() ==> is_captured(pairs, #[trigger] ids[k]),
    ensures
        uncaptured_notes(pairs, ids, n) == Seq::<BodyDegradationView>::empty(),
    decreases n,
{
    if n > 0 {
        lemma_no_uncaptured_notes(pairs, ids, n - 1);
    }
}

proof fn lemma_no_reasoning_notes(present: Seq<Seq<char>>, required: Seq<Seq<char>>, n: int)
    requires
        all_present(required, present),
        0 <= n <= required.len(),
    ensures
        reasoning_notes(present, required, n) == Seq::<BodyDegradationView>::empty(),
    decreases n,
{
    if n > 0 {
        lemma_no_reasoning_notes(present, required, n - 1);
    }
}

proof fn lemma_no_cut_notes(
    body: Seq<ResponseItemView>,
    ids: Seq<Seq<char>>,
    threshold: i64,
    n: int,
)
    ensures
        cut_notes(body, body, ids, threshold, n) == Seq::<BodyDegradationView>::empty(),
    decreases n,
{
    if n > 0 {
        lemma_no_cut_notes(body, ids, threshold, n - 1);
    }
}

/// The calls of some pairs.
pub open spec fn pair_ids(pairs: Seq<ProtectedPairExpectationView>) -> Seq<Seq<char>> {
    pairs.map_values(|pair: ProtectedPairExpectationView| pair.call_id)
}

/// Nothing is given up exactly when the body is valid, and then the body goes
/// out as it is. Every protected call is named once, and every pair that was
/// captured is that of one of them, each once.
pub proof fn clean_body_is_untouched<F: Fn(&str) -> i64>(
    f: F,
    body: Seq<ResponseItemView>,
    spec: BodyValidationSpecView,
)
    requires
        spec.protected_tool_call_ids.no_duplicates(),
        pair_ids(spec.protected_pairs).no_duplicates(),
        forall|k: int|
            0 <= k < spec.protected_pairs.len() ==> spec.protected_tool_call_ids.contains(
                (#[trigger] spec.protected_pairs[k]).call_id,
            ),
    ensures
        degraded_body(f, body, spec).degradations.len() == 0 <==> body_error(
            body,
            spec,
            body_estimate(f, body),
        ) is None,
        degraded_body(f, body, spec).degradations.len() == 0 ==> degraded_body(f, body, spec).body
            == body && degraded_body(f, body, spec).kept == Seq::new(body.len(), |i: int| true),
{
    if body_error(body, spec, body_estimate(f, body)) is None {
        lemma_all_captured(spec.protected_pairs, spec.protected_tool_call_ids);
        lemma_valid_body(f, body, spec);
    }
    if degraded_body(f, body, spec).degradations.len() == 0 {
        lemma_nothing_given_up(f, body, spec);
        lemma_all_captured(spec.protected_pairs, spec.protected_tool_call_ids);
        lemma_valid_body(f, body, spec);
    }
}

/// What is captured of the live history for calls that are each named once is as
/// the law on clean bodies asks for: every pair is that of one of the calls, each
/// once.
pub proof fn captured_pairs_are_of_the_calls(live: Seq<ResponseItemView>, ids: Seq<Seq<char>>)
    requires
        ids.no_duplicates(),
    ensures
        pair_ids(expected_pairs(live, ids)).no_duplicates(),
        forall|k: int|
            0 <= k < expected_pairs(live, ids).len() ==> ids.contains(
                (#[trigger] expected_pairs(live, ids)[k]).call_id,
            ),
    decreases ids.len(),
{
    let pairs = expected_pairs(live, ids);
    if ids.len() > 0 {
        let front = ids.drop_last();
        let before = expected_pairs(live, front);
        assert(front.no_duplicates());
        captured_pairs_are_of_the_calls(live, front);
        assert forall|k: int| 0 <= k < pairs.len() implies ids.contains(
            (#[trigger] pairs[k]).call_id,
        ) by {
            if k < before.len() {
                assert(front.contains(before[k].call_id));
                let j = choose|j: int| 0 <= j < front.len() && front[j] == before[k].call_id;
                assert(ids[j] == pairs[k].call_id);
            } else {
                assert(ids[ids.len() - 1] == pairs[k].call_id);
            }
        }
        let all = pair_ids(pairs);
        assert forall|i: int, j: int| 0 <= i < all.len() && 0 <= j < all.len() && i != j implies
            all[i] != all[j] by {
            let (low, high) = if i < j {
                (i, j)
            } else {
                (j, i)
            };
            assert(pairs[low] == before[low]);
            assert(pair_ids(before)[low] == all[low]);
            if high < before.len() {
                assert(pair_ids(before)[high] == all[high]);
            } else {
                assert(front.contains(before[low].call_id));
                let k = choose|k: int| 0 <= k < front.len() && front[k] == before[low].call_id;
                assert(ids[k] != ids[ids.len() - 1]);
            }
        }
    }
}

/// As many pairs as calls, all different and all of the calls: every call was
/// captured.
proof fn lemma_all_captured(pairs: Seq<ProtectedPairExpectationView>, ids: Seq<Seq<char>>)
    requires
        ids.no_duplicates(),
        pair_ids(pairs).no_duplicates(),
        forall|k: int| 0 <= k < pairs.len() ==> ids.contains((#[trigger] pairs[k]).call_id),
        pairs.len() >= ids.len(),
    ensures
        forall|k: int| 0 <= k < ids.len() ==> is_captured(pairs, #[trigger] ids[k]),
{
    let own = pair_ids(pairs);
    own.unique_seq_to_set();
    ids.unique_seq_to_set();
    assert(own.to_set().subset_of(ids.to_set())) by {
        assert forall|id: Seq<char>| own.to_set().contains(id) implies ids.to_set().contains(
            id,
        ) by {
            let k = choose|k: int| 0 <= k < own.len() && own[k] == id;
            assert(ids.contains(pairs[k].call_id));
        }
    }
    vstd::seq_lib::seq_to_set_is_finite(own);
    vstd::seq_lib::seq_to_set_is_finite(ids);
    vstd::set_lib::lemma_len_subset(own.to_set(), ids.to_set());
    vstd::set_lib::lemma_subset_equality(own.to_set(), ids.to_set());
    assert forall|k: int| 0 <= k < ids.len() implies is_captured(pairs, #[trigger] ids[k]) by {
        assert(ids.to_set().contains(ids[k]));
        assert(own.to_set().contains(ids[k]));
        let j = choose|j: int| 0 <= j < own.len() && own[j] == ids[k];
        assert(pairs[j].call_id == ids[k]);
    }
}

/// A body of which nothing was given up is valid.
proof fn lemma_nothing_given_up<F: Fn(&str) -> i64>(
    f: F,
    body: Seq<ResponseItemView>,
    spec: BodyValidationSpecView,
)
    requires
        spec.protected_tool_call_ids.no_duplicates(),
        degraded_body(f, body, spec).degradations.len() == 0,
    ensures
        body_error(body, spec, body_estimate(f, body)) is None,
{
    let n = body.len() as int;
    let pairs = spec.protected_pairs;
    let ids = spec.protected_tool_call_ids;
    lemma_unnoted_is_correlated(body);
    correlation_checks_are_exact(body);
    correlated_body_is_kept(body);
    assert(survival_notes(body, spec).len() == 0);
    assert forall|k: int| 0 <= k < pairs.len() implies protected_pair_error(
        body,
        #[trigger] pairs[k],
    ) is None by {
        lemma_unnoted_pair(body, pairs, pairs.len() as int, k);
        let call = find(body, Side::Call, pairs[k].call_id);
        lemma_find_from(body, Side::Call, pairs[k].call_id, 0);
        assert(tool_id(body[call], Side::Call) == Some(pairs[k].call_id));
    }
    lemma_pairs_without_error(body, pairs, 0);
    lemma_unnoted_ids(pairs, ids, ids.len() as int);
    lemma_captured_count(pairs, ids);
    lemma_unnoted_reasoning(
        all_signed_reasoning(body),
        spec.required_encrypted_reasoning,
        spec.required_encrypted_reasoning.len() as int,
    );
    if let Some(threshold) = spec.safe_runway_threshold_tokens {
        let rounds = MAX_TRUNCATION_ROUNDS as nat;
        let cut = trimmed(f, body, ids, threshold, rounds);
        assert(cut_notes(body, cut.body, ids, threshold, n).len() == 0);
        assert(size_notes(body_estimate(f, cut.body), cut.rounds, threshold).len() == 0);
        if body_estimate(f, body) >= threshold {
            lemma_victim(body, ids, n);
            if let Some(k) = victim(body, ids, n) {
                let next = body.update(k, halved(body[k]));
                cutting_shrinks_an_item(body[k]);
                lemma_trimmed_shrinks(f, next, ids, threshold, (rounds - 1) as nat);
                assert(cut.body == trimmed(f, next, ids, threshold, (rounds - 1) as nat).body);
                assert(slot_bytes(text_slots(cut.body[k])) <= slot_bytes(text_slots(next[k])));
                lemma_cut_is_noted(body, cut.body, ids, threshold, n, k);
            }
        }
    }
}

proof fn lemma_unnoted_is_correlated(body: Seq<ResponseItemView>)
    requires
        duplicate_notes(body, body.len() as int).len() == 0,
        unpaired_notes(body, body.len() as int).len() == 0,
    ensures
        is_correlated(body),
{
    assert forall|i: int| 0 <= i < body.len() implies {
        &&& (tool_id(#[trigger] body[i], Side::Call) matches Some(id) ==> find(body, Side::Call, id)
            == i && i < find(body, Side::Output, id) < body.len())
        &&& (tool_id(body[i], Side::Output) matches Some(id) ==> find(body, Side::Output, id) == i
            && find(body, Side::Call, id) < body.len())
    } by {
        lemma_unnoted_item(body, body.len() as int, i);
        lemma_one_side(body[i]);
        if let Some(id) = tool_id(body[i], Side::Call) {
            lemma_find_from(body, Side::Call, id, 0);
        }
        if let Some(id) = tool_id(body[i], Side::Output) {
            lemma_find_from(body, Side::Output, id, 0);
        }
    }
}

proof fn lemma_unnoted_item(body: Seq<ResponseItemView>, n: int, i: int)
    requires
        duplicate_notes(body, n).len() == 0,
        unpaired_notes(body, n).len() == 0,
        0 <= i < n <= body.len(),
    ensures
        !duplicate_at(body, i, Side::Call),
        !duplicate_at(body, i, Side::Output),
        unpaired_note(body, i) is None,
    decreases n,
{
    if i < n - 1 {
        lemma_unnoted_item(body, n - 1, i);
    }
}

proof fn lemma_unnoted_pair(
    body: Seq<ResponseItemView>,
    pairs: Seq<ProtectedPairExpectationView>,
    n: int,
    k: int,
)
    requires
        protected_notes(body, pairs, n).len() == 0,
        0 <= k < n <= pairs.len(),
    ensures
        protected_pair_notes(body, pairs[k]).len() == 0,
    decreases n,
{
    if k < n - 1 {
        lemma_unnoted_pair(body, pairs, n - 1, k);
    }
}

proof fn lemma_pairs_without_error(
    body: Seq<ResponseItemView>,
    pairs: Seq<ProtectedPairExpectationView>,
    k: int,
)
    requires
        0 <= k <= pairs.len(),
        forall|j: int|
            0 <= j < pairs.len() ==> protected_pair_error(body, #[trigger] pairs[j]) is None,
    ensures
        protected_pairs_error(body, pairs, k) is None,
    decreases pairs.len() - k,
{
    if k < pairs.len() {
        lemma_pairs_without_error(body, pairs, k + 1);
    }
}

proof fn lemma_unnoted_ids(
    pairs: Seq<ProtectedPairExpectationView>,
    ids: Seq<Seq<char>>,
    n: int,
)
    requires
        uncaptured_notes(pairs, ids, n).len() == 0,
        0 <= n <= ids.len(),
    ensures
        forall|k: int| 0 <= k < n ==> is_captured(pairs, #[trigger] ids[k]),
    decreases n,
{
    if n > 0 {
        lemma_unnoted_ids(pairs, ids, n - 1);
    }
}

/// There are no fewer pairs than calls that were captured.
proof fn lemma_captured_count(pairs: Seq<ProtectedPairExpectationView>, ids: Seq<Seq<char>>)
    requires
        ids.no_duplicates(),
        forall|k: int| 0 <= k < ids.len() ==> is_captured(pairs, #[trigger] ids[k]),
    ensures
        ids.len() <= pairs.len(),
{
    let own = pair_ids(pairs);
    ids.unique_seq_to_set();
    own.lemma_cardinality_of_set();
    vstd::seq_lib::seq_to_set_is_finite(own);
    assert(ids.to_set().subset_of(own.to_set())) by {
        assert forall|id: Seq<char>| ids.to_set().contains(id) implies own.to_set().contains(
            id,
        ) by {
            let k = choose|k: int| 0 <= k < ids.len() && ids[k] == id;
            assert(is_captured(pairs, ids[k]));
            let j = choose|j: int| 0 <= j < pairs.len() && (#[trigger] pairs[j]).call_id == id;
            assert(own[j] == id);
        }
    }
    vstd::set_lib::lemma_len_subset(ids.to_set(), own.to_set());
}

proof fn lemma_unnoted_reasoning(present: Seq<Seq<char>>, required: Seq<Seq<char>>, n: int)
    requires
        reasoning_notes(present, required, n).len() == 0,
        0 <= n <= required.len(),
    ensures
        forall|i: int| 0 <= i < n ==> present.contains(#[trigger] required[i]),
    decreases n,
{
    if n > 0 {
        lemma_unnoted_reasoning(present, required, n - 1);
    }
}

/// No item has more text after cutting.
proof fn lemma_trimmed_shrinks<F: Fn(&str) -> i64>(
    f: F,
    body: Seq<ResponseItemView>,
    ids: Seq<Seq<char>>,
    threshold: i64,
    rounds_left: nat,
)
    ensures
        ({
            let cut = trimmed(f, body, ids, threshold, rounds_left).body;
            &&& cut.len() == body.len()
            &&& forall|i: int|
                0 <= i < body.len() ==> slot_bytes(text_slots(#[trigger] cut[i])) <= slot_bytes(
                    text_slots(body[i]),
                )
        }),
    decreases rounds_left,
{
    if body_estimate(f, body) >= threshold && rounds_left > 0 {
        lemma_victim(body, ids, body.len() as int);
        if let Some(k) = victim(body, ids, body.len() as int) {
            let next = body.update(k, halved(body[k]));
            cutting_shrinks_an_item(body[k]);
            lemma_trimmed_shrinks(f, next, ids, threshold, (rounds_left - 1) as nat);
            let cut = trimmed(f, body, ids, threshold, rounds_left).body;
            assert forall|i: int| 0 <= i < body.len() implies slot_bytes(
                text_slots(#[trigger] cut[i]),
            ) <= slot_bytes(text_slots(body[i])) by {
                assert(slot_bytes(text_slots(cut[i])) <= slot_bytes(text_slots(next[i])));
            }
        }
    }
}

proof fn lemma_cut_is_noted(
    before: Seq<ResponseItemView>,
    after: Seq<ResponseItemView>,
    ids: Seq<Seq<char>>,
    threshold: i64,
    n: int,
    k: int,
)
    requires
        0 <= k < n,
        slot_bytes(text_slots(after[k])) < slot_bytes(text_slots(before[k])),
    ensures
        cut_notes(before, after, ids, threshold, n).len() > 0,
    decreases n,
{
    if k < n - 1 {
        lemma_cut_is_noted(before, after, ids, threshold, n - 1, k);
    }
}

/// A text that is cut loses at least half of its bytes.
pub proof fn cutting_halves_a_text(s: Seq<char>)
    requires
        is_oversized(s),
    ensures
        2 * byte_len(halved_text(s)) <= byte_len(s),
{
    reveal_strlit("\n[lhc-compact: content truncated to fit the request]");
    assert(is_ascii_chars(TRUNCATION_MARKER@));
    is_ascii_chars_encode_utf8(TRUNCATION_MARKER@);
    let half = byte_len(s) as int / 2;
    let marker = byte_len(TRUNCATION_MARKER@) as int;
    lemma_boundary(s, half - marker);
    lemma_head(s, kept_bytes(s));
    lemma_byte_len_concat(head_of(s, kept_bytes(s)), TRUNCATION_MARKER@);
}

/// `boundary_at` is a character boundary, not beyond where it was asked for.
proof fn lemma_boundary(s: Seq<char>, at: int)
    requires
        0 <= at <= byte_len(s),
    ensures
        0 <= boundary_at(s, at) <= at,
        is_char_boundary(encode_utf8(s), boundary_at(s, at)),
    decreases at,
{
    encode_utf8_valid_utf8(s);
    is_char_boundary_start_end_of_seq(encode_utf8(s));
    if 0 < at < byte_len(s) && !is_char_boundary(encode_utf8(s), at) {
        lemma_boundary(s, at - 1);
    }
}

/// No character boundary lies between `boundary_at` and where it was asked for.
proof fn lemma_last_boundary(s: Seq<char>, at: int, b: int)
    requires
        0 <= at < byte_len(s),
        boundary_at(s, at) < b <= at,
    ensures
        !is_char_boundary(encode_utf8(s), b),
    decreases at,
{
    if at > 0 && !is_char_boundary(encode_utf8(s), at) && b < at {
        lemma_last_boundary(s, at - 1, b);
    }
}

/// Of an oversized text as many whole characters are kept as fit into half of its
/// bytes together with the marker.
pub proof fn lemma_kept_bytes(s: Seq<char>)
    requires
        is_oversized(s),
    ensures
        0 <= kept_bytes(s),
        kept_bytes(s) + byte_len(TRUNCATION_MARKER@) <= byte_len(s) / 2,
        is_char_boundary(encode_utf8(s), kept_bytes(s)),
        forall|b: int|
            kept_bytes(s) < b && b + byte_len(TRUNCATION_MARKER@) <= byte_len(s) / 2
                ==> !#[trigger] is_char_boundary(encode_utf8(s), b),
{
    reveal_strlit("\n[lhc-compact: content truncated to fit the request]");
    assert(is_ascii_chars(TRUNCATION_MARKER@));
    is_ascii_chars_encode_utf8(TRUNCATION_MARKER@);
    let half = byte_len(s) as int / 2;
    let marker = byte_len(TRUNCATION_MARKER@) as int;
    lemma_boundary(s, half - marker);
    assert forall|b: int|
        kept_bytes(s) < b && b + byte_len(TRUNCATION_MARKER@) <= byte_len(s)
            / 2 implies !#[trigger] is_char_boundary(encode_utf8(s), b) by {
        lemma_last_boundary(s, half - marker, b);
    }
}

/// The slots of an item with its oversized texts cut.
spec fn halved_slot(slot: Option<Seq<char>>) -> Option<Seq<char>> {
    match slot {
        Some(s) => Some(halved_text(s)),
        None => None,
    }
}

proof fn lemma_halved_slots(item: ResponseItemView)
    ensures
        text_slots(halved(item)) == text_slots(item).map_values(
            |slot: Option<Seq<char>>| halved_slot(slot),
        ),
{
    let after = text_slots(halved(item));
    let expected = text_slots(item).map_values(|slot: Option<Seq<char>>| halved_slot(slot));
    assert(after.len() == expected.len());
    assert forall|i: int| 0 <= i < after.len() implies after[i] == expected[i] by {
        assert(expected[i] == halved_slot(text_slots(item)[i]));
    }
    assert(after =~= expected);
}

proof fn lemma_halved_slot_bytes(slots: Seq<Option<Seq<char>>>)
    ensures
        slot_bytes(slots.map_values(|slot: Option<Seq<char>>| halved_slot(slot))) <= slot_bytes(
            slots,
        ),
        oversized_bytes(slots) > 0 ==> slot_bytes(
            slots.map_values(|slot: Option<Seq<char>>| halved_slot(slot)),
        ) < slot_bytes(slots),
    decreases slots.len(),
{
    if slots.len() > 0 {
        let g = |slot: Option<Seq<char>>| halved_slot(slot);
        lemma_halved_slot_bytes(slots.drop_last());
        assert(slots.map_values(g).drop_last() =~= slots.drop_last().map_values(g));
        assert(slots.map_values(g).last() == halved_slot(slots.last()));
        if let Some(s) = slots.last() {
            if is_oversized(s) {
                cutting_halves_a_text(s);
            }
        }
    }
}

/// An item that can be cut has less text after it was cut; no item has more.
pub proof fn cutting_shrinks_an_item(item: ResponseItemView)
    ensures
        slot_bytes(text_slots(halved(item))) <= slot_bytes(text_slots(item)),
        truncatable_len(item) > 0 ==> slot_bytes(text_slots(halved(item))) < slot_bytes(
            text_slots(item),
        ),
{
    lemma_halved_slots(item);
    lemma_halved_slot_bytes(text_slots(item));
}

/// Protected content is cut only when no other content is left to cut, and of
/// each class the largest content goes first.
pub proof fn unprotected_content_is_cut_first(
    body: Seq<ResponseItemView>,
    ids: Seq<Seq<char>>,
    i: int,
)
    requires
        0 <= i < body.len(),
        truncatable_len(body[i]) > 0,
    ensures
        victim(body, ids, body.len() as int) matches Some(k) && 0 <= k < body.len() && {
            &&& is_protected(body[k], ids) ==> is_protected(body[i], ids)
            &&& is_protected(body[k], ids) == is_protected(body[i], ids) ==> truncatable_len(
                body[i],
            ) <= truncatable_len(body[k])
        },
{
    lemma_victim(body, ids, body.len() as int);
}

/// A body that is still too large after cutting, with rounds to spare, has
/// nothing left that could be cut.
pub proof fn cutting_stops_only_when_nothing_is_left<F: Fn(&str) -> i64>(
    f: F,
    body: Seq<ResponseItemView>,
    ids: Seq<Seq<char>>,
    threshold: i64,
    rounds_left: nat,
)
    ensures
        ({
            let cut = trimmed(f, body, ids, threshold, rounds_left);
            &&& cut.rounds <= rounds_left
            &&& body_estimate(f, cut.body) >= threshold && cut.rounds < rounds_left ==> forall|i: int|
                0 <= i < cut.body.len() ==> truncatable_len(#[trigger] cut.body[i]) == 0
        }),
    decreases rounds_left,
{
    if body_estimate(f, body) >= threshold && rounds_left > 0 {
        lemma_victim(body, ids, body.len() as int);
        if let Some(k) = victim(body, ids, body.len() as int) {
            cutting_stops_only_when_nothing_is_left(
                f,
                body.update(k, halved(body[k])),
                ids,
                threshold,
                (rounds_left - 1) as nat,
            );
        }
    }
}

} // verus!
