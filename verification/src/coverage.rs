//! Whether the store holds what the host holds: by identity, never by text.

use vstd::prelude::*;
use vstd::string::*;

use crate::collections::{TextMap, TextSet};
use crate::compact_marker::{
    content_digest, content_identity_digest, derived_digests_from_archive, derived_ids_from_archive,
    leading_field, recent_markers, records_digest, records_id,
};
use crate::host_ids::{escape_at, escape_at_start, first_field, hex_pair};
use crate::idempotency::{
    digest_of, event_key, item_digest, item_stable_id, key_char, key_escaped,
    key_escaped_has_no_separator, lemma_key_escaped_first, part_suffix, stable_id,
    OccurrenceTracker, OccurrenceTrackerView,
};
use crate::mapping::{item_events, item_key, map_item, EventView, MappedEvent, MessageEventInput};
use crate::protocol::{ResponseItem, ResponseItemView};
use crate::records::{EventRecord, EventRecordView, RawItemProvenance};
use crate::text::{
    after_occurrence, after_prefix, cut, decimal, decimal_text, join, joined, lemma_cut_pair,
    lemma_first_from_unique, split_once, strip_prefix, text, text_after, text_eq,
};

verus! {

// ---------------------------------------------------------------------------
// Identities in keys
// ---------------------------------------------------------------------------

/// A text with its escapes taken back, each by itself.
pub open spec fn decoded(s: Seq<char>) -> Seq<char>
    decreases s.len(),
{
    if s.len() == 0 {
        Seq::empty()
    } else {
        match escape_at_start(s) {
            Some(b) => seq![b as char] + decoded(s.skip(3)),
            None => seq![s[0]] + decoded(s.skip(1)),
        }
    }
}

/// Takes back the escapes of an identity in a key.
pub fn decode_thread_id(encoded: &str) -> (r: String)
    ensures
        r@ == decoded(encoded@),
{
    let chars = crate::text::chars_of(encoded);
    let ghost all = chars@;
    let mut out = String::new();
    let mut i: usize = 0;
    assert(all.skip(0) =~= all);
    assert(out@ + decoded(all.skip(0)) =~= decoded(all));
    while i < chars.len()
        invariant
            i <= chars.len(),
            all == chars@,
            out@ + decoded(all.skip(i as int)) == decoded(all),
        decreases chars.len() - i,
    {
        let ghost before = out@;
        let ghost rest = all.skip(i as int);
        match escape_at(&chars, i) {
            Some(b) => {
                out.push(b as char);
                assert(rest.skip(3) =~= all.skip(i + 3));
                assert(out@ + decoded(rest.skip(3)) =~= before + decoded(rest));
                i = i + 3;
            },
            None => {
                out.push(chars[i]);
                assert(rest[0] == all[i as int]);
                assert(rest.skip(1) =~= all.skip(i + 1));
                assert(out@ + decoded(rest.skip(1)) =~= before + decoded(rest));
                i = i + 1;
            },
        }
    }
    assert(all.skip(i as int) =~= Seq::<char>::empty());
    assert(out@ + Seq::<char>::empty() =~= out@);
    out
}

/// The identity of the host item in a key of the store.
pub open spec fn archive_id(key: Seq<char>) -> Option<Seq<char>> {
    match after_prefix(key, "codex:"@) {
        Some(rest) => match cut(rest, ':') {
            Some((_, tail)) => match after_prefix(tail, "id:"@) {
                Some(fields) => if leading_field(fields).len() == 0 {
                    None
                } else {
                    Some(decoded(leading_field(fields)))
                },
                None => None,
            },
            None => None,
        },
        None => None,
    }
}

/// The identity of the host item in a key of the store, when the key was made
/// from one.
pub fn parse_host_id_from_archive_key(key: &str) -> (r: Option<String>)
    ensures
        r.deep_view() == archive_id(key@),
{
    let rest = match strip_prefix(key, "codex:") {
        Some(rest) => rest,
        None => {
            return None;
        },
    };
    let tail = match split_once(rest.as_str(), ':') {
        Some((_, tail)) => tail,
        None => {
            return None;
        },
    };
    match strip_prefix(tail.as_str(), "id:") {
        Some(fields) => {
            let id = first_field(fields.as_str());
            if id.as_str().unicode_len() == 0 {
                None
            } else {
                Some(decode_thread_id(id.as_str()))
            }
        },
        None => None,
    }
}

/// Some event of the store was made from the item with this identity.
pub open spec fn archive_holds(events: Seq<EventRecordView>, id: Seq<char>) -> bool {
    exists|k: int|
        0 <= k < events.len() && archive_id((#[trigger] events[k]).idempotency_key) == Some(id)
}

/// The identities of the host items in the store.
pub fn archive_host_item_ids(events: &Vec<EventRecord>) -> (r: TextSet)
    ensures
        forall|id: Seq<char>| #[trigger]
            r@.contains(id) == archive_holds(events.deep_view(), id),
{
    let ghost view = events.deep_view();
    let mut out = TextSet::new();
    let mut k: usize = 0;
    while k < events.len()
        invariant
            k <= events.len(),
            view == events.deep_view(),
            forall|id: Seq<char>| #[trigger]
                out@.contains(id) == exists|j: int|
                    0 <= j < k && archive_id((#[trigger] view[j]).idempotency_key) == Some(id),
        decreases events.len() - k,
    {
        assert(view[k as int] == events@[k as int]@);
        if let Some(id) = parse_host_id_from_archive_key(events[k].idempotency_key.as_str()) {
            out.insert(id.as_str());
        }
        k = k + 1;
    }
    out
}

/// The digest in the key of an item without an identity.
pub open spec fn anon_digest(key: Seq<char>) -> Option<Seq<char>> {
    match after_occurrence(key, ":anon:"@) {
        Some(rest) => Some(leading_field(rest)),
        None => None,
    }
}

fn find_anon_digest(key: &str) -> (r: Option<String>)
    ensures
        r.deep_view() == anon_digest(key@),
{
    match text_after(key, ":anon:") {
        Some(rest) => Some(first_field(rest.as_str())),
        None => None,
    }
}

// ---------------------------------------------------------------------------
// Classes
// ---------------------------------------------------------------------------

/// What the store owes to an item of the host.
#[derive(Debug, Clone, Copy, PartialEq, Eq, Structural)]
pub enum CoverageClass {
    /// It must be held: the provider sees it.
    Required,
    /// It is left out by design.
    Excluded,
    /// It cannot be held, and must not be lost in silence.
    Unrepresentable,
}

/// What the store owes to an item.
pub open spec fn class_of(item: ResponseItemView) -> CoverageClass {
    match item {
        ResponseItemView::Message { role, .. } => if role == "user"@ || role == "assistant"@ {
            CoverageClass::Required
        } else {
            CoverageClass::Excluded
        },
        ResponseItemView::Compaction { .. } => CoverageClass::Excluded,
        ResponseItemView::ContextCompaction { .. } => CoverageClass::Excluded,
        ResponseItemView::CompactionTrigger { .. } => CoverageClass::Excluded,
        ResponseItemView::Other => CoverageClass::Unrepresentable,
        _ => CoverageClass::Required,
    }
}

/// What the store owes to an item of the host. Reasoning, calls and results
/// must be held like messages of the user and the assistant; what a compact of
/// the host itself left behind, and other messages, need not be.
pub fn classify_coverage(item: &ResponseItem) -> (r: CoverageClass)
    ensures
        r == class_of(item@),
{
    match item {
        ResponseItem::Message { role, .. } => if text_eq(role.as_str(), "user") || text_eq(
            role.as_str(),
            "assistant",
        ) {
            CoverageClass::Required
        } else {
            CoverageClass::Excluded
        },
        ResponseItem::Compaction { .. } => CoverageClass::Excluded,
        ResponseItem::ContextCompaction { .. } => CoverageClass::Excluded,
        ResponseItem::CompactionTrigger { .. } => CoverageClass::Excluded,
        ResponseItem::Other => CoverageClass::Unrepresentable,
        _ => CoverageClass::Required,
    }
}

/// The store must hold the item.
pub open spec fn is_candidate(item: ResponseItemView) -> bool {
    class_of(item) == CoverageClass::Required
}

fn is_coverage_candidate(item: &ResponseItem) -> (r: bool)
    ensures
        r == is_candidate(item@),
{
    classify_coverage(item) == CoverageClass::Required
}

/// The name of the kind of an item.
pub open spec fn kind_name(item: ResponseItemView) -> Seq<char> {
    match item {
        ResponseItemView::Message { .. } => "Message"@,
        ResponseItemView::AgentMessage { .. } => "AgentMessage"@,
        ResponseItemView::Reasoning { .. } => "Reasoning"@,
        ResponseItemView::LocalShellCall { .. } => "LocalShellCall"@,
        ResponseItemView::FunctionCall { .. } => "FunctionCall"@,
        ResponseItemView::FunctionCallOutput { .. } => "FunctionCallOutput"@,
        ResponseItemView::CustomToolCall { .. } => "CustomToolCall"@,
        ResponseItemView::CustomToolCallOutput { .. } => "CustomToolCallOutput"@,
        ResponseItemView::ToolSearchCall { .. } => "ToolSearchCall"@,
        ResponseItemView::ToolSearchOutput { .. } => "ToolSearchOutput"@,
        ResponseItemView::WebSearchCall { .. } => "WebSearchCall"@,
        ResponseItemView::ImageGenerationCall { .. } => "ImageGenerationCall"@,
        ResponseItemView::AdditionalTools { .. } => "AdditionalTools"@,
        ResponseItemView::Compaction { .. } => "Compaction"@,
        ResponseItemView::ContextCompaction { .. } => "ContextCompaction"@,
        ResponseItemView::CompactionTrigger { .. } => "CompactionTrigger"@,
        ResponseItemView::Other => "Other"@,
    }
}

fn host_item_kind_name(item: &ResponseItem) -> (r: &'static str)
    ensures
        r@ == kind_name(item@),
{
    match item {
        ResponseItem::Message { .. } => "Message",
        ResponseItem::AgentMessage { .. } => "AgentMessage",
        ResponseItem::Reasoning { .. } => "Reasoning",
        ResponseItem::LocalShellCall { .. } => "LocalShellCall",
        ResponseItem::FunctionCall { .. } => "FunctionCall",
        ResponseItem::FunctionCallOutput { .. } => "FunctionCallOutput",
        ResponseItem::CustomToolCall { .. } => "CustomToolCall",
        ResponseItem::CustomToolCallOutput { .. } => "CustomToolCallOutput",
        ResponseItem::ToolSearchCall { .. } => "ToolSearchCall",
        ResponseItem::ToolSearchOutput { .. } => "ToolSearchOutput",
        ResponseItem::WebSearchCall { .. } => "WebSearchCall",
        ResponseItem::ImageGenerationCall { .. } => "ImageGenerationCall",
        ResponseItem::AdditionalTools { .. } => "AdditionalTools",
        ResponseItem::Compaction { .. } => "Compaction",
        ResponseItem::ContextCompaction { .. } => "ContextCompaction",
        ResponseItem::CompactionTrigger { .. } => "CompactionTrigger",
        ResponseItem::Other => "Other",
    }
}

/// The kinds of those of the first `n` items that cannot be held.
pub open spec fn lost_kinds(items: Seq<ResponseItemView>, n: int) -> Seq<Seq<char>>
    decreases n,
{
    if n <= 0 {
        Seq::empty()
    } else if class_of(items[n - 1]) == CoverageClass::Unrepresentable {
        lost_kinds(items, n - 1).push(kind_name(items[n - 1]))
    } else {
        lost_kinds(items, n - 1)
    }
}

/// Why a history cannot be held as a whole.
pub open spec fn unrepresentable_gap(items: Seq<ResponseItemView>) -> Option<Seq<char>> {
    let lost = lost_kinds(items, items.len() as int);
    if lost.len() == 0 {
        None
    } else {
        Some(
            "host history contains "@ + decimal(lost.len())
                + " item type(s) LHC cannot safely round-trip: "@ + joined(lost, ", "@),
        )
    }
}

/// Why a history cannot be held as a whole, when some item of it cannot be.
pub fn unrepresentable_host_items_gap(host_items: &Vec<ResponseItem>) -> (r: Option<String>)
    ensures
        r.deep_view() == unrepresentable_gap(host_items.deep_view()),
{
    let ghost view = host_items.deep_view();
    let mut lost: Vec<String> = Vec::new();
    assert(lost.deep_view() =~= lost_kinds(view, 0));
    let mut i: usize = 0;
    while i < host_items.len()
        invariant
            i <= host_items.len(),
            view == host_items.deep_view(),
            lost.deep_view() == lost_kinds(view, i as int),
        decreases host_items.len() - i,
    {
        let ghost before = lost.deep_view();
        assert(view[i as int] == host_items@[i as int]@);
        if classify_coverage(&host_items[i]) == CoverageClass::Unrepresentable {
            lost.push(text(host_item_kind_name(&host_items[i])));
            assert(lost.deep_view() =~= before.push(kind_name(view[i as int])));
        }
        i = i + 1;
    }
    if lost.len() == 0 {
        return None;
    }
    let mut s = text("host history contains ");
    s.append(decimal_text(lost.len() as u128).as_str());
    s.append(" item type(s) LHC cannot safely round-trip: ");
    s.append(join(&lost, ", ").as_str());
    Some(s)
}

// ---------------------------------------------------------------------------
// What was served before
// ---------------------------------------------------------------------------

/// What is known to have been served, and so is no history of its own.
#[derive(Debug)]
pub struct DerivedProvenance {
    /// Identities that the host gave to served items.
    pub ids: TextSet,
    /// Digests of served items, for those without an identity.
    pub digests: TextSet,
}

/// What a [`DerivedProvenance`] stands for.
#[verifier::ext_equal]
pub struct DerivedProvenanceView {
    pub ids: Set<Seq<char>>,
    pub digests: Set<Seq<char>>,
}

impl View for DerivedProvenance {
    type V = DerivedProvenanceView;

    open spec fn view(&self) -> DerivedProvenanceView {
        DerivedProvenanceView { ids: self.ids@, digests: self.digests@ }
    }
}

impl Clone for DerivedProvenance {
    fn clone(&self) -> (r: Self)
        ensures
            r@ == self@,
    {
        DerivedProvenance { ids: self.ids.clone(), digests: self.digests.clone() }
    }
}

/// Nothing was served.
pub open spec fn nothing_served() -> DerivedProvenanceView {
    DerivedProvenanceView { ids: Set::empty(), digests: Set::empty() }
}

impl Default for DerivedProvenance {
    fn default() -> (r: Self)
        ensures
            r@ == nothing_served(),
    {
        DerivedProvenance { ids: TextSet::new(), digests: TextSet::new() }
    }
}

/// What a session knows to have been served, and what the markers of the store
/// record besides.
pub open spec fn served(
    session: DerivedProvenanceView,
    events: Seq<EventRecordView>,
) -> DerivedProvenanceView {
    DerivedProvenanceView {
        ids: Set::new(
            |id: Seq<char>| session.ids.contains(id) || records_id(recent_markers(events), id),
        ),
        digests: Set::new(
            |d: Seq<char>| session.digests.contains(d) || records_digest(recent_markers(events), d),
        ),
    }
}

fn insert_members(set: &mut TextSet, other: &TextSet)
    ensures
        forall|s: Seq<char>| #[trigger]
            final(set)@.contains(s) == (old(set)@.contains(s) || other@.contains(s)),
{
    let ghost start = set@;
    let ghost order = other.order();
    let n: usize = other.len();
    let mut i: usize = 0;
    while i < n
        invariant
            i <= n,
            n == order.len(),
            order == other.order(),
            forall|s: Seq<char>| #[trigger]
                set@.contains(s) == (start.contains(s) || exists|j: int|
                    0 <= j < i && #[trigger] order[j] == s),
        decreases n - i,
    {
        set.insert(other.at(i).as_str());
        i = i + 1;
    }
    assert forall|s: Seq<char>| #[trigger]
        set@.contains(s) == (start.contains(s) || other@.contains(s)) by {
        if other@.contains(s) {
            assert(order.contains(s));
        }
    }
}

impl DerivedProvenance {
    /// What a session knows to have been served, and what the markers of the
    /// store record besides.
    pub fn from_session_and_archive(
        session_ids: &TextSet,
        session_digests: &TextSet,
        events: &Vec<EventRecord>,
    ) -> (r: Self)
        ensures
            r@ == served(
                (DerivedProvenanceView { ids: session_ids@, digests: session_digests@ }),
                events.deep_view(),
            ),
    {
        let mut ids = derived_ids_from_archive(events);
        insert_members(&mut ids, session_ids);
        let mut digests = derived_digests_from_archive(events);
        insert_members(&mut digests, session_digests);
        let r = DerivedProvenance { ids, digests };
        proof {
            let s = served(
                (DerivedProvenanceView { ids: session_ids@, digests: session_digests@ }),
                events.deep_view(),
            );
            assert(r@.ids =~= s.ids);
            assert(r@.digests =~= s.digests);
        }
        r
    }
}

// ---------------------------------------------------------------------------
// What is missing
// ---------------------------------------------------------------------------

/// How many of the first `n` events were made from an item without an identity
/// and with this digest.
pub open spec fn stored_count(events: Seq<EventRecordView>, digest: Seq<char>, n: int) -> nat
    decreases n,
{
    if n <= 0 {
        0
    } else {
        stored_count(events, digest, n - 1) + (if anon_digest(events[n - 1].idempotency_key)
            == Some(digest) {
            1nat
        } else {
            0nat
        })
    }
}

/// The item has no identity to be found by, and must be found by its digest.
pub open spec fn needs_digest(item: ResponseItemView, derived: DerivedProvenanceView) -> bool {
    is_candidate(item) && stable_id(item) is None && !derived.digests.contains(content_digest(item))
}

/// How many of the first `n` items must be found by this digest.
pub open spec fn needed_count(
    items: Seq<ResponseItemView>,
    derived: DerivedProvenanceView,
    digest: Seq<char>,
    n: int,
) -> nat
    decreases n,
{
    if n <= 0 {
        0
    } else {
        needed_count(items, derived, digest, n - 1) + (if needs_digest(items[n - 1], derived)
            && digest_of(items[n - 1]) == digest {
            1nat
        } else {
            0nat
        })
    }
}

/// The store must hold the item at `i` and does not. An item with an identity
/// is held when the store has that identity, and is not looked for when it was
/// served. One without is held as long as the store has as many with its digest
/// as the history up to it.
pub open spec fn is_missing(
    items: Seq<ResponseItemView>,
    i: int,
    events: Seq<EventRecordView>,
    derived: DerivedProvenanceView,
) -> bool {
    is_candidate(items[i]) && match stable_id(items[i]) {
        Some(id) => !derived.ids.contains(id) && !archive_holds(events, id),
        None => needs_digest(items[i], derived) && needed_count(
            items,
            derived,
            digest_of(items[i]),
            i,
        ) >= stored_count(events, digest_of(items[i]), events.len() as int),
    }
}

/// Those of the first `n` items that are missing.
pub open spec fn missing_of(
    items: Seq<ResponseItemView>,
    events: Seq<EventRecordView>,
    derived: DerivedProvenanceView,
    n: int,
) -> Seq<ResponseItemView>
    decreases n,
{
    if n <= 0 {
        Seq::empty()
    } else if is_missing(items, n - 1, events, derived) {
        missing_of(items, events, derived, n - 1).push(items[n - 1])
    } else {
        missing_of(items, events, derived, n - 1)
    }
}

/// The items that are missing.
pub open spec fn missing_items(
    items: Seq<ResponseItemView>,
    events: Seq<EventRecordView>,
    derived: DerivedProvenanceView,
) -> Seq<ResponseItemView> {
    missing_of(items, events, derived, items.len() as int)
}

/// What a table of counts says of a digest.
spec fn counted(counts: Map<Seq<char>, usize>, digest: Seq<char>) -> int {
    if counts.contains_key(digest) {
        counts[digest] as int
    } else {
        0
    }
}

/// How many stored items with a digest are left for the items from `i` on.
spec fn left_for(
    items: Seq<ResponseItemView>,
    events: Seq<EventRecordView>,
    derived: DerivedProvenanceView,
    digest: Seq<char>,
    i: int,
) -> int {
    let stored = stored_count(events, digest, events.len() as int);
    let needed = needed_count(items, derived, digest, i);
    if stored > needed {
        stored - needed
    } else {
        0
    }
}

fn count_stored(events: &Vec<EventRecord>) -> (r: TextMap<usize>)
    ensures
        forall|d: Seq<char>| #[trigger]
            counted(r@, d) == stored_count(events.deep_view(), d, events.len() as int),
{
    let ghost view = events.deep_view();
    let mut counts: TextMap<usize> = TextMap::new();
    let mut k: usize = 0;
    while k < events.len()
        invariant
            k <= events.len(),
            view == events.deep_view(),
            forall|d: Seq<char>| #[trigger] counted(counts@, d) == stored_count(view, d, k as int),
            forall|d: Seq<char>| #[trigger] counted(counts@, d) <= k,
        decreases events.len() - k,
    {
        assert(view[k as int] == events@[k as int]@);
        let ghost before = counts@;
        if let Some(digest) = find_anon_digest(events[k].idempotency_key.as_str()) {
            let seen: usize = match counts.get(digest.as_str()) {
                Some(n) => *n,
                None => 0,
            };
            assert(seen == counted(counts@, digest@));
            counts.insert(digest.as_str(), seen + 1);
        }
        assert forall|d: Seq<char>| #[trigger]
            counted(counts@, d) == stored_count(view, d, k + 1) && counted(counts@, d) <= k
                + 1 by {
            assert(counted(before, d) == stored_count(view, d, k as int));
        }
        k = k + 1;
    }
    counts
}

/// The items of the host that the store must hold and does not, when it is
/// known what was served before.
pub fn host_items_missing_from_archive_with_provenance(
    host_items: &Vec<ResponseItem>,
    events: &Vec<EventRecord>,
    derived: &DerivedProvenance,
) -> (r: Vec<ResponseItem>)
    ensures
        r.deep_view() == missing_items(host_items.deep_view(), events.deep_view(), derived@),
{
    let ghost view = host_items.deep_view();
    let ghost event_view = events.deep_view();
    let archive_ids = archive_host_item_ids(events);
    let mut left = count_stored(events);
    let mut missing: Vec<ResponseItem> = Vec::new();
    assert(missing.deep_view() =~= missing_of(view, event_view, derived@, 0));
    let mut i: usize = 0;
    while i < host_items.len()
        invariant
            i <= host_items.len(),
            view == host_items.deep_view(),
            event_view == events.deep_view(),
            forall|id: Seq<char>| #[trigger]
                archive_ids@.contains(id) == archive_holds(event_view, id),
            forall|d: Seq<char>| #[trigger]
                counted(left@, d) == left_for(view, event_view, derived@, d, i as int),
            missing.deep_view() == missing_of(view, event_view, derived@, i as int),
        decreases host_items.len() - i,
    {
        let ghost before = missing.deep_view();
        let ghost left_before = left@;
        let item = &host_items[i];
        assert(view[i as int] == item@);
        let mut found = true;
        if is_coverage_candidate(item) {
            match item_stable_id(item) {
                Some(id) => {
                    found = derived.ids.contains(id.as_str()) || archive_ids.contains(id.as_str());
                },
                None => {
                    if !derived.digests.contains(content_identity_digest(item).as_str()) {
                        let digest = item_digest(item);
                        let count: usize = match left.get(digest.as_str()) {
                            Some(n) => *n,
                            None => 0,
                        };
                        assert(count == counted(left@, digest@));
                        if count > 0 {
                            left.insert(digest.as_str(), count - 1);
                        } else {
                            found = false;
                        }
                    }
                },
            }
        }
        proof {
            let d = digest_of(view[i as int]);
            assert(counted(left_before, d) == left_for(view, event_view, derived@, d, i as int));
            assert(found == !is_missing(view, i as int, event_view, derived@));
            assert forall|d: Seq<char>| #[trigger]
                counted(left@, d) == left_for(view, event_view, derived@, d, i + 1) by {
                assert(counted(left_before, d) == left_for(
                    view,
                    event_view,
                    derived@,
                    d,
                    i as int,
                ));
            }
        }
        if !found {
            missing.push(item.clone());
            assert(missing.deep_view() =~= before.push(view[i as int]));
        }
        i = i + 1;
    }
    missing
}

/// The items of the host that the store must hold and does not.
pub fn host_items_missing_from_archive(
    host_items: &Vec<ResponseItem>,
    events: &Vec<EventRecord>,
) -> (r: Vec<ResponseItem>)
    ensures
        r.deep_view() == missing_items(
            host_items.deep_view(),
            events.deep_view(),
            nothing_served(),
        ),
{
    host_items_missing_from_archive_with_provenance(
        host_items,
        events,
        &DerivedProvenance::default(),
    )
}

/// The items that are missing when only digests of served items are known.
pub fn host_items_missing_from_archive_with_derived(
    host_items: &Vec<ResponseItem>,
    events: &Vec<EventRecord>,
    session_digests: &TextSet,
) -> (r: Vec<ResponseItem>)
    ensures
        r.deep_view() == missing_items(
            host_items.deep_view(),
            events.deep_view(),
            (DerivedProvenanceView { ids: Set::empty(), digests: session_digests@ }),
        ),
{
    let derived = DerivedProvenance { ids: TextSet::new(), digests: session_digests.clone() };
    host_items_missing_from_archive_with_provenance(host_items, events, &derived)
}

/// How many of the first `n` items the store must hold.
pub open spec fn candidate_count(items: Seq<ResponseItemView>, n: int) -> nat
    decreases n,
{
    if n <= 0 {
        0
    } else {
        candidate_count(items, n - 1) + (if is_candidate(items[n - 1]) {
            1nat
        } else {
            0nat
        })
    }
}

fn count_candidates(items: &Vec<ResponseItem>) -> (r: usize)
    ensures
        r == candidate_count(items.deep_view(), items.len() as int),
{
    let ghost view = items.deep_view();
    let mut n: usize = 0;
    let mut i: usize = 0;
    while i < items.len()
        invariant
            i <= items.len(),
            view == items.deep_view(),
            n == candidate_count(view, i as int),
            n <= i,
        decreases items.len() - i,
    {
        assert(view[i as int] == items@[i as int]@);
        if is_coverage_candidate(&items[i]) {
            n = n + 1;
        }
        i = i + 1;
    }
    n
}

/// Why the store does not cover the host.
pub open spec fn coverage_gap(
    items: Seq<ResponseItemView>,
    events: Seq<EventRecordView>,
    derived: DerivedProvenanceView,
) -> Option<Seq<char>> {
    match unrepresentable_gap(items) {
        Some(reason) => Some(reason),
        None => {
            let missing = missing_items(items, events, derived);
            let candidates = candidate_count(items, items.len() as int);
            if missing.len() == 0 {
                None
            } else if events.len() == 0 {
                Some(
                    "host has "@ + decimal(candidates)
                        + " provider-bearing candidate(s) but archive is empty (resume/fork without import?)"@,
                )
            } else {
                Some(
                    decimal(missing.len()) + "/"@ + decimal(candidates)
                        + " host provider-bearing item(s) missing from archive by identity (derived_excluded="@
                        + decimal(derived.ids.len() + derived.digests.len()) + ")"@,
                )
            }
        },
    }
}

/// Why the store does not cover the host, when it is known what was served.
pub fn host_history_coverage_gap_with_provenance(
    host_items: &Vec<ResponseItem>,
    events: &Vec<EventRecord>,
    derived: &DerivedProvenance,
) -> (r: Option<String>)
    ensures
        r.deep_view() == coverage_gap(host_items.deep_view(), events.deep_view(), derived@),
{
    if let Some(reason) = unrepresentable_host_items_gap(host_items) {
        return Some(reason);
    }
    let missing = host_items_missing_from_archive_with_provenance(host_items, events, derived);
    if missing.len() == 0 {
        return None;
    }
    let candidates: usize = count_candidates(host_items);
    if events.len() == 0 {
        let mut s = text("host has ");
        s.append(decimal_text(candidates as u128).as_str());
        s.append(
            " provider-bearing candidate(s) but archive is empty (resume/fork without import?)",
        );
        return Some(s);
    }
    let excluded: u128 = derived.ids.len() as u128 + derived.digests.len() as u128;
    let mut s = decimal_text(missing.len() as u128);
    s.append("/");
    s.append(decimal_text(candidates as u128).as_str());
    s.append(
        " host provider-bearing item(s) missing from archive by identity (derived_excluded=",
    );
    s.append(decimal_text(excluded).as_str());
    s.append(")");
    Some(s)
}

/// Why the store does not cover the host.
pub fn host_history_coverage_gap(
    host_items: &Vec<ResponseItem>,
    events: &Vec<EventRecord>,
) -> (r: Option<String>)
    ensures
        r.deep_view() == coverage_gap(
            host_items.deep_view(),
            events.deep_view(),
            nothing_served(),
        ),
{
    host_history_coverage_gap_with_provenance(host_items, events, &DerivedProvenance::default())
}

/// Why the store does not cover the host, when only digests of served items are
/// known.
pub fn host_history_coverage_gap_with_derived(
    host_items: &Vec<ResponseItem>,
    events: &Vec<EventRecord>,
    session_digests: &TextSet,
) -> (r: Option<String>)
    ensures
        r.deep_view() == coverage_gap(
            host_items.deep_view(),
            events.deep_view(),
            (DerivedProvenanceView { ids: Set::empty(), digests: session_digests@ }),
        ),
{
    let derived = DerivedProvenance { ids: TextSet::new(), digests: session_digests.clone() };
    host_history_coverage_gap_with_provenance(host_items, events, &derived)
}

// ---------------------------------------------------------------------------
// Import
// ---------------------------------------------------------------------------

/// Where an item that is imported came from.
pub open spec fn import_provenance(item: ResponseItemView) -> RawItemProvenance {
    match item {
        ResponseItemView::Message { role, .. } => if role == "user"@ {
            RawItemProvenance::UserPrompt
        } else if role == "assistant"@ {
            RawItemProvenance::ModelOutput
        } else {
            RawItemProvenance::HostContext
        },
        ResponseItemView::Reasoning { .. } => RawItemProvenance::ModelOutput,
        ResponseItemView::FunctionCall { .. } => RawItemProvenance::ModelOutput,
        ResponseItemView::FunctionCallOutput { .. } => RawItemProvenance::ModelOutput,
        ResponseItemView::LocalShellCall { .. } => RawItemProvenance::ModelOutput,
        ResponseItemView::CustomToolCall { .. } => RawItemProvenance::ModelOutput,
        ResponseItemView::CustomToolCallOutput { .. } => RawItemProvenance::ModelOutput,
        ResponseItemView::ToolSearchCall { .. } => RawItemProvenance::ModelOutput,
        ResponseItemView::ToolSearchOutput { .. } => RawItemProvenance::ModelOutput,
        ResponseItemView::WebSearchCall { .. } => RawItemProvenance::ModelOutput,
        ResponseItemView::ImageGenerationCall { .. } => RawItemProvenance::ModelOutput,
        _ => RawItemProvenance::HostContext,
    }
}

fn provenance_of_import(item: &ResponseItem) -> (r: RawItemProvenance)
    ensures
        r == import_provenance(item@),
{
    match item {
        ResponseItem::Message { role, .. } => if text_eq(role.as_str(), "user") {
            RawItemProvenance::UserPrompt
        } else if text_eq(role.as_str(), "assistant") {
            RawItemProvenance::ModelOutput
        } else {
            RawItemProvenance::HostContext
        },
        ResponseItem::Reasoning { .. } => RawItemProvenance::ModelOutput,
        ResponseItem::FunctionCall { .. } => RawItemProvenance::ModelOutput,
        ResponseItem::FunctionCallOutput { .. } => RawItemProvenance::ModelOutput,
        ResponseItem::LocalShellCall { .. } => RawItemProvenance::ModelOutput,
        ResponseItem::CustomToolCall { .. } => RawItemProvenance::ModelOutput,
        ResponseItem::CustomToolCallOutput { .. } => RawItemProvenance::ModelOutput,
        ResponseItem::ToolSearchCall { .. } => RawItemProvenance::ModelOutput,
        ResponseItem::ToolSearchOutput { .. } => RawItemProvenance::ModelOutput,
        ResponseItem::WebSearchCall { .. } => RawItemProvenance::ModelOutput,
        ResponseItem::ImageGenerationCall { .. } => RawItemProvenance::ModelOutput,
        _ => RawItemProvenance::HostContext,
    }
}

/// What an import does: which events it submits, one batch for each item, and
/// the error with which it then ends.
#[derive(Debug, PartialEq, Eq)]
pub struct ImportPlan {
    pub batches: Vec<Vec<MessageEventInput>>,
    pub error: Option<String>,
}

/// What a [`ImportPlan`] stands for.
#[verifier::ext_equal]
pub struct ImportPlanView {
    pub batches: Seq<Seq<EventView>>,
    pub error: Option<Seq<char>>,
}

impl View for ImportPlan {
    type V = ImportPlanView;

    open spec fn view(&self) -> ImportPlanView {
        ImportPlanView { batches: self.batches.deep_view(), error: self.error.deep_view() }
    }
}

/// The tracker behind an item.
pub open spec fn tracker_behind(
    tracker: OccurrenceTrackerView,
    item: ResponseItemView,
) -> OccurrenceTrackerView {
    if stable_id(item) is None {
        tracker.advanced(digest_of(item))
    } else {
        tracker
    }
}

/// The tracker behind the first `n` items that are imported.
pub open spec fn import_tracker(
    items: Seq<ResponseItemView>,
    tracker: OccurrenceTrackerView,
    n: int,
) -> OccurrenceTrackerView
    decreases n,
{
    if n <= 0 {
        tracker
    } else if is_candidate(items[n - 1]) {
        tracker_behind(import_tracker(items, tracker, n - 1), items[n - 1])
    } else {
        import_tracker(items, tracker, n - 1)
    }
}

/// The events that the item at `i` gives rise to when it is imported.
pub open spec fn import_events(
    thread_id: Seq<char>,
    items: Seq<ResponseItemView>,
    tracker: OccurrenceTrackerView,
    i: int,
) -> Seq<EventView> {
    item_events(
        item_key(
            thread_id,
            items[i],
            import_tracker(items, tracker, i).count(digest_of(items[i])),
        ),
        items[i],
        import_provenance(items[i]),
        None,
    )
}

/// The error of an import that meets an item without events.
pub open spec fn import_error(item: ResponseItemView) -> Seq<char> {
    "cannot safely import host "@ + kind_name(item)
        + " into archive (mapper produced zero events)"@
}

/// What an import of the first `n` items does. It ends at the first item that
/// must be held and gives rise to nothing.
pub open spec fn plan_of(
    thread_id: Seq<char>,
    items: Seq<ResponseItemView>,
    tracker: OccurrenceTrackerView,
    n: int,
) -> ImportPlanView
    decreases n,
{
    if n <= 0 {
        ImportPlanView { batches: Seq::empty(), error: None }
    } else {
        let before = plan_of(thread_id, items, tracker, n - 1);
        let events = import_events(thread_id, items, tracker, n - 1);
        if before.error is Some || !is_candidate(items[n - 1]) {
            before
        } else if events.len() == 0 {
            ImportPlanView { error: Some(import_error(items[n - 1])), ..before }
        } else {
            ImportPlanView { batches: before.batches.push(events), ..before }
        }
    }
}

/// What an import of some items does. Where some item cannot be held at all,
/// nothing is submitted.
pub open spec fn import_plan(
    thread_id: Seq<char>,
    items: Seq<ResponseItemView>,
    tracker: OccurrenceTrackerView,
) -> ImportPlanView {
    match unrepresentable_gap(items) {
        Some(reason) => ImportPlanView { batches: Seq::empty(), error: Some(reason) },
        None => plan_of(thread_id, items, tracker, items.len() as int),
    }
}

fn inputs_of(events: Vec<MappedEvent>) -> (r: Vec<MessageEventInput>)
    ensures
        r.deep_view() == events.deep_view(),
{
    let ghost all = events.deep_view();
    let mut left = events;
    let mut back: Vec<MessageEventInput> = Vec::new();
    assert(left.deep_view() + back.deep_view() =~= all);
    while left.len() > 0
        invariant
            left.deep_view() + back.deep_view() == all,
        decreases left.len(),
    {
        let ghost front = left.deep_view();
        let ghost end = back.deep_view();
        let next = left.pop();
        if let Some(event) = next {
            let ghost e = event@;
            assert(front =~= left.deep_view().push(e));
            back.insert(0, event.input);
            assert(back.deep_view() =~= seq![e] + end);
            assert(left.deep_view() + back.deep_view() =~= all);
        }
    }
    assert(left.deep_view() =~= Seq::<EventView>::empty());
    assert(back.deep_view() =~= all);
    back
}

/// The item at `i` can be imported: it takes no occurrence number, or its own
/// can still grow. An item that an import does not come to always can.
#[verifier::opaque]
pub open spec fn import_has_room_at(
    thread_id: Seq<char>,
    items: Seq<ResponseItemView>,
    tracker: OccurrenceTrackerView,
    i: int,
) -> bool {
    is_candidate(items[i]) && plan_of(thread_id, items, tracker, i).error is None
        ==> import_tracker(items, tracker, i).has_room_for(items[i])
}

/// Every item that an import comes to can be imported.
pub open spec fn import_has_room(
    thread_id: Seq<char>,
    items: Seq<ResponseItemView>,
    tracker: OccurrenceTrackerView,
) -> bool {
    unrepresentable_gap(items) is None ==> forall|i: int|
        0 <= i < items.len() ==> #[trigger] import_has_room_at(thread_id, items, tracker, i)
}

/// Plans the import of items that the store does not hold. `known` must know
/// the keys that the store holds. There is no plan where an occurrence number
/// has reached its end.
pub fn plan_import(
    thread_id: &str,
    host_items: &Vec<ResponseItem>,
    known: OccurrenceTracker,
) -> (r: Option<ImportPlan>)
    ensures
        match r {
            Some(plan) => import_has_room(thread_id@, host_items.deep_view(), known@) && plan@
                == import_plan(thread_id@, host_items.deep_view(), known@),
            None => !import_has_room(thread_id@, host_items.deep_view(), known@),
        },
{
    let mut tracker = known;
    let ghost view = host_items.deep_view();
    let ghost start = tracker@;
    let mut batches: Vec<Vec<MessageEventInput>> = Vec::new();
    assert(batches.deep_view() =~= Seq::<Seq<EventView>>::empty());
    if let Some(reason) = unrepresentable_host_items_gap(host_items) {
        return Some(ImportPlan { batches, error: Some(reason) });
    }
    let mut error: Option<String> = None;
    let mut i: usize = 0;
    while i < host_items.len() && error.is_none()
        invariant
            i <= host_items.len(),
            view == host_items.deep_view(),
            unrepresentable_gap(view) is None,
            start == known@,
            forall|k: int|
                0 <= k < i ==> #[trigger] import_has_room_at(thread_id@, view, start, k),
            error is None ==> tracker@ == import_tracker(view, start, i as int),
            batches.deep_view() == plan_of(thread_id@, view, start, i as int).batches,
            error.deep_view() == plan_of(thread_id@, view, start, i as int).error,
        decreases host_items.len() - i,
    {
        let ghost before = batches.deep_view();
        let item = &host_items[i];
        assert(view[i as int] == item@);
        if is_coverage_candidate(item) {
            if !tracker.has_room_for(item) {
                assert(!import_has_room_at(thread_id@, view, start, i as int)) by {
                    reveal(import_has_room_at);
                }
                return None;
            }
            let mapped = map_item(thread_id, item, provenance_of_import(item), &mut tracker, None);
            assert(mapped.deep_view() == import_events(thread_id@, view, start, i as int));
            if mapped.len() == 0 {
                assert(mapped.deep_view().len() == 0);
                let mut e = text("cannot safely import host ");
                e.append(host_item_kind_name(item));
                e.append(" into archive (mapper produced zero events)");
                error = Some(e);
            } else {
                assert(mapped.deep_view().len() > 0);
                let ghost events = mapped.deep_view();
                batches.push(inputs_of(mapped));
                assert(batches.deep_view() =~= before.push(events));
            }
        }
        assert(import_has_room_at(thread_id@, view, start, i as int)) by {
            reveal(import_has_room_at);
        }
        i = i + 1;
    }
    proof {
        if error is Some {
            lemma_plan_ends(thread_id@, view, start, i as int, view.len() as int);
            assert forall|k: int| 0 <= k < view.len() implies #[trigger] import_has_room_at(
                thread_id@,
                view,
                start,
                k,
            ) by {
                if k >= i {
                    lemma_plan_ends(thread_id@, view, start, i as int, k);
                    reveal(import_has_room_at);
                }
            }
        }
    }
    Some(ImportPlan { batches, error })
}

proof fn lemma_plan_ends(
    thread_id: Seq<char>,
    items: Seq<ResponseItemView>,
    tracker: OccurrenceTrackerView,
    n: int,
    m: int,
)
    requires
        0 <= n <= m,
        plan_of(thread_id, items, tracker, n).error is Some,
    ensures
        plan_of(thread_id, items, tracker, m) == plan_of(thread_id, items, tracker, n),
    decreases m - n,
{
    if n < m {
        lemma_plan_ends(thread_id, items, tracker, n, m - 1);
    }
}

// ---------------------------------------------------------------------------
// Laws
// ---------------------------------------------------------------------------

/// Decoding takes back what encoding did to an identity.
pub proof fn decoding_takes_encoding_back(s: Seq<char>)
    ensures
        decoded(key_escaped(s)) == s,
    decreases s.len(),
{
    if s.len() > 0 {
        lemma_key_escaped_first(s);
        let rest = s.drop_first();
        decoding_takes_encoding_back(rest);
        let e = key_escaped(s);
        if s[0] == '%' || s[0] == ':' {
            assert(e.skip(3) =~= key_escaped(rest));
            assert(e[0] == '%');
            assert(e[1] == key_char(s[0])[1] && e[2] == key_char(s[0])[2]);
            assert(hex_pair('2', '5') == Some(37u8));
            assert(hex_pair('3', 'A') == Some(58u8));
            assert(37u8 as char == '%' && 58u8 as char == ':');
        } else {
            assert(e[0] == s[0]);
            assert(e.skip(1) =~= key_escaped(rest));
        }
        assert(seq![s[0]] + rest =~= s);
    } else {
        assert(key_escaped(s) =~= s);
        assert(decoded(s) =~= s);
    }
}

/// The key that an item with an identity is stored under gives the identity
/// back.
pub proof fn stored_key_holds_the_identity(
    thread_id: Seq<char>,
    id: Seq<char>,
    digest: Seq<char>,
    occurrence: nat,
    event_kind: Seq<char>,
    part: Option<Seq<char>>,
)
    requires
        id.len() > 0,
    ensures
        archive_id(event_key(thread_id, Some(id), digest, occurrence, event_kind, part)) == Some(
            id,
        ),
{
    let key = event_key(thread_id, Some(id), digest, occurrence, event_kind, part);
    let t = key_escaped(thread_id);
    let e = key_escaped(id);
    let end = digest + ":"@ + event_kind + part_suffix(part);
    let fields = e + seq![':'] + end;
    let rest = t + seq![':'] + ("id:"@ + fields);
    reveal_strlit(":id:");
    reveal_strlit("id:");
    reveal_strlit(":");
    assert(":id:"@ =~= seq![':'] + "id:"@);
    assert(":"@ =~= seq![':']);
    assert(key =~= "codex:"@ + rest);
    crate::idempotency::lemma_after_prefix("codex:"@, rest);
    key_escaped_has_no_separator(thread_id);
    lemma_cut_pair(t, ':', "id:"@ + fields);
    crate::idempotency::lemma_after_prefix("id:"@, fields);
    key_escaped_has_no_separator(id);
    assert forall|j: int| 0 <= j < e.len() implies fields[j] != ':' by {
        assert(e.contains(e[j]));
    }
    lemma_first_from_unique(fields, ':', 0, e.len() as int);
    assert(fields.subrange(0, e.len() as int) =~= e);
    decoding_takes_encoding_back(id);
    lemma_key_escaped_first(id);
}

/// An item whose identity was served is never missing, whatever it holds and
/// whatever the store holds: it cannot come back as history of its own.
pub proof fn served_identity_is_never_missing(
    items: Seq<ResponseItemView>,
    i: int,
    events: Seq<EventRecordView>,
    derived: DerivedProvenanceView,
)
    requires
        0 <= i < items.len(),
        stable_id(items[i]) is Some,
        derived.ids.contains(stable_id(items[i])->0),
    ensures
        !is_missing(items, i, events, derived),
{
}

/// An item without an identity whose content was served is never missing: it
/// cannot come back as history of its own.
pub proof fn served_content_is_never_missing(
    items: Seq<ResponseItemView>,
    i: int,
    events: Seq<EventRecordView>,
    derived: DerivedProvenanceView,
)
    requires
        0 <= i < items.len(),
        stable_id(items[i]) is None,
        derived.digests.contains(content_digest(items[i])),
    ensures
        !is_missing(items, i, events, derived),
{
}

/// An item that must be held, with an identity that neither was served nor is
/// in the store, is missing, though the store or what was served hold the same
/// text.
pub proof fn fresh_identity_is_missing(
    items: Seq<ResponseItemView>,
    i: int,
    events: Seq<EventRecordView>,
    derived: DerivedProvenanceView,
)
    requires
        0 <= i < items.len(),
        is_candidate(items[i]),
        stable_id(items[i]) is Some,
        !derived.ids.contains(stable_id(items[i])->0),
        !archive_holds(events, stable_id(items[i])->0),
    ensures
        is_missing(items, i, events, derived),
{
}

/// An item with an identity is no longer missing once one of the events that it
/// gives rise to is in the store.
pub proof fn stored_item_is_found(
    thread_id: Seq<char>,
    items: Seq<ResponseItemView>,
    i: int,
    count: u64,
    event: EventView,
    events: Seq<EventRecordView>,
    k: int,
    derived: DerivedProvenanceView,
)
    requires
        0 <= i < items.len(),
        stable_id(items[i]) is Some,
        item_events(
            item_key(thread_id, items[i], count),
            items[i],
            import_provenance(items[i]),
            None,
        ).contains(event),
        0 <= k < events.len(),
        event.idempotency_key == Some(events[k].idempotency_key),
    ensures
        !is_missing(items, i, events, derived),
{
    let key = item_key(thread_id, items[i], count);
    let made = item_events(key, items[i], import_provenance(items[i]), None);
    crate::mapping::item_events_bear_keys_of_the_item(
        key,
        items[i],
        import_provenance(items[i]),
        None,
    );
    let j = choose|j: int| 0 <= j < made.len() && made[j] == event;
    assert(crate::mapping::bears_key_of(made[j], key));
    let (kind, part) = choose|kind: Seq<char>, part: Option<Seq<char>>|
        event.idempotency_key == Some(#[trigger] key.key(kind, part));
    let id = stable_id(items[i])->0;
    stored_key_holds_the_identity(thread_id, id, key.digest, key.occurrence, kind, part);
    assert(archive_id(events[k].idempotency_key) == Some(id));
}

proof fn lemma_nothing_lost(items: Seq<ResponseItemView>, n: int)
    requires
        0 <= n <= items.len(),
    ensures
        lost_kinds(items, n).len() == 0 <==> forall|i: int|
            0 <= i < n ==> class_of(#[trigger] items[i]) != CoverageClass::Unrepresentable,
    decreases n,
{
    if n > 0 {
        lemma_nothing_lost(items, n - 1);
        if class_of(items[n - 1]) != CoverageClass::Unrepresentable {
            if lost_kinds(items, n - 1).len() == 0 {
                assert forall|i: int| 0 <= i < n implies class_of(#[trigger] items[i])
                    != CoverageClass::Unrepresentable by {}
            }
        }
    }
}

/// The items among the first `n` that a flag marks.
spec fn marked(items: Seq<ResponseItemView>, flags: Seq<bool>, n: int) -> Seq<ResponseItemView>
    decreases n,
{
    if n <= 0 {
        Seq::empty()
    } else if flags[n - 1] {
        marked(items, flags, n - 1).push(items[n - 1])
    } else {
        marked(items, flags, n - 1)
    }
}

proof fn lemma_nothing_marked(items: Seq<ResponseItemView>, flags: Seq<bool>, n: int)
    requires
        0 <= n <= items.len() == flags.len(),
    ensures
        marked(items, flags, n).len() == 0 <==> forall|i: int| 0 <= i < n ==> !#[trigger] flags[i],
    decreases n,
{
    if n > 0 {
        lemma_nothing_marked(items, flags, n - 1);
    }
}

spec fn missing_flags(
    items: Seq<ResponseItemView>,
    events: Seq<EventRecordView>,
    derived: DerivedProvenanceView,
) -> Seq<bool> {
    Seq::new(items.len(), |i: int| is_missing(items, i, events, derived))
}

proof fn lemma_missing_marked(
    items: Seq<ResponseItemView>,
    events: Seq<EventRecordView>,
    derived: DerivedProvenanceView,
    n: int,
)
    requires
        0 <= n <= items.len(),
    ensures
        missing_of(items, events, derived, n) == marked(
            items,
            missing_flags(items, events, derived),
            n,
        ),
    decreases n,
{
    if n > 0 {
        lemma_missing_marked(items, events, derived, n - 1);
        assert(missing_flags(items, events, derived)[n - 1] == is_missing(
            items,
            n - 1,
            events,
            derived,
        ));
    }
}

proof fn lemma_nothing_missing(
    items: Seq<ResponseItemView>,
    events: Seq<EventRecordView>,
    derived: DerivedProvenanceView,
)
    ensures
        missing_of(items, events, derived, items.len() as int).len() == 0 <==> forall|i: int|
            0 <= i < items.len() ==> !#[trigger] is_missing(items, i, events, derived),
{
    let flags = missing_flags(items, events, derived);
    lemma_missing_marked(items, events, derived, items.len() as int);
    lemma_nothing_marked(items, flags, items.len() as int);
    assert forall|i: int| 0 <= i < items.len() implies flags[i] == #[trigger] is_missing(
        items,
        i,
        events,
        derived,
    ) by {}
}

/// There is no gap exactly when every item can be held and none is missing.
pub proof fn gap_tells_coverage(
    items: Seq<ResponseItemView>,
    events: Seq<EventRecordView>,
    derived: DerivedProvenanceView,
)
    ensures
        coverage_gap(items, events, derived) is None <==> {
            &&& forall|i: int|
                0 <= i < items.len() ==> class_of(#[trigger] items[i])
                    != CoverageClass::Unrepresentable
            &&& forall|i: int|
                0 <= i < items.len() ==> !#[trigger] is_missing(items, i, events, derived)
        },
{
    lemma_nothing_lost(items, items.len() as int);
    lemma_nothing_missing(items, events, derived);
}

proof fn lemma_occurrence(s: Seq<char>, needle: Seq<char>, from: int, at: int)
    requires
        0 <= from <= at,
        crate::text::stands_at(s, needle, at),
        forall|p: int| from <= p < at ==> !crate::text::stands_at(s, needle, p),
    ensures
        crate::text::occurrence_from(s, needle, from) == at,
    decreases at - from,
{
    if from < at {
        lemma_occurrence(s, needle, from + 1, at);
    }
}

/// The key that an item without an identity is stored under counts for its
/// digest. A thread named like the field that marks such keys is the exception.
pub proof fn stored_key_counts_for_the_digest(
    thread_id: Seq<char>,
    digest: Seq<char>,
    occurrence: nat,
    event_kind: Seq<char>,
    part: Option<Seq<char>>,
)
    requires
        thread_id != "anon"@,
        !digest.contains(':'),
    ensures
        anon_digest(event_key(thread_id, None, digest, occurrence, event_kind, part)) == Some(
            digest,
        ),
{
    let key = event_key(thread_id, None, digest, occurrence, event_kind, part);
    let t = key_escaped(thread_id);
    let needle = ":anon:"@;
    let end = decimal(occurrence) + ":"@ + event_kind + part_suffix(part);
    let rest = digest + seq![':'] + end;
    let at = 6 + t.len() as int;
    reveal_strlit("codex:");
    reveal_strlit(":anon:");
    reveal_strlit("anon");
    reveal_strlit(":");
    assert(":"@ =~= seq![':']);
    assert(key =~= "codex:"@ + t + needle + rest);
    assert(key.subrange(at, at + 6) =~= needle);
    key_escaped_has_no_separator(thread_id);
    assert forall|p: int| 0 <= p < at implies !crate::text::stands_at(key, needle, p) by {
        if crate::text::stands_at(key, needle, p) {
            let part_at = key.subrange(p, p + 6);
            assert(part_at[0] == ':' && part_at[1] == 'a' && part_at[2] == 'n' && part_at[3] == 'o'
                && part_at[4] == 'n' && part_at[5] == ':');
            assert(key[p] == ':' && key[p + 1] == 'a' && key[p + 2] == 'n' && key[p + 3] == 'o'
                && key[p + 4] == 'n' && key[p + 5] == ':');
            if p < 6 {
                assert(key[p] == "codex:"@[p]);
                assert(p == 5);
                assert forall|q: int| 6 <= q < at implies key[q] != ':' by {
                    assert(key[q] == t[q - 6]);
                    assert(t.contains(t[q - 6]));
                }
                assert(10 >= at);
                if at < 10 {
                    assert(key[at] == ':');
                    assert(key[at] == key[6] || key[at] == key[7] || key[at] == key[8] || key[at]
                        == key[9]);
                }
                assert(at == 10);
                assert(t =~= "anon"@);
                lemma_plain_is_not_escaped();
                decoding_takes_encoding_back(thread_id);
                decoding_takes_encoding_back("anon"@);
            } else {
                assert(key[p] == t[p - 6]);
                assert(t.contains(t[p - 6]));
            }
        }
    }
    lemma_occurrence(key, needle, 0, at);
    assert(key.skip(at + 6) =~= rest);
    assert forall|j: int| 0 <= j < digest.len() implies rest[j] != ':' by {
        assert(digest.contains(digest[j]));
    }
    lemma_first_from_unique(rest, ':', 0, digest.len() as int);
    assert(rest.subrange(0, digest.len() as int) =~= digest);
}

proof fn lemma_plain_is_not_escaped()
    ensures
        key_escaped("anon"@) == "anon"@,
{
    reveal_strlit("anon");
    reveal_with_fuel(key_escaped, 5);
    let s = "anon"@;
    assert(s.drop_last().drop_last().drop_last().drop_last() =~= Seq::<char>::empty());
    assert(key_escaped(s) =~= s);
}

} // verus!
