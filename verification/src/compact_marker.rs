//! The mark that a compact leaves in the store.

use std::collections::hash_map::DefaultHasher;
use std::hash::Hasher;

use vstd::prelude::*;
use vstd::std_specs::hash::DefaultHasherAdditionalSpecFns;
use vstd::string::*;
use vstd::utf8::*;

use crate::byte_text::{byte_len, text_byte_len};
use crate::collections::TextSet;
use crate::host_ids::{escapes_are_taken_back, first_field};
use crate::idempotency::{
    digest_of, encode_thread_id, item_digest, key_escaped, key_escaped_has_no_separator,
    lemma_after_prefix,
};
use crate::json::{
    entry, get_entry, get_text, hex_digit, inner_value, is_plain, json_read, json_text,
    lemma_list_view, lemma_object_view, outer_value, read_json, text_entry, Entries, Json, JsonView,
};
use crate::json_members::{
    entries_read, member_texts, members_read, object_members, read_members, read_values,
};
use crate::ordering::{positions, sorted_positions, stable_order};
use crate::protocol::{with_id, ResponseItem, ResponseItemView};
use crate::records::{EventPayload, EventPayloadView, EventRecord, EventRecordView};
use crate::text::{
    after_occurrence, after_prefix, begins_with, cut, decimal, decimal_reads_back, first_from,
    has_prefix, join, joined, lemma_cut_pair, lemma_decimal_digits, parse_i64, parse_u64,
    parsed_i64, parsed_u64, signed_decimal, signed_decimal_reads_back, signed_decimal_text,
    split_once, strip_prefix, text, text_after, text_eq, trim, trimmed,
};
use crate::wire::{push_entry, text_or_null};

verus! {

/// The field that sets the keys of compact markers apart.
pub const COMPACT_MARKER_KEY_SEGMENT: &'static str = "compact_marker";

/// Names the way from a served view to items of the host.
pub const VIEW_MAP_SEAM_ID: &'static str = "llm_request_context_to_response_items/v1";

/// How many markers are looked at for what was served before.
pub const DERIVED_MARKER_CAP: usize = 8;

/// What a compact reports of itself, as far as it is recorded. The statistics
/// of the bands are held as they came.
#[derive(Debug, PartialEq, Eq)]
pub struct CompactReceipt {
    pub view_id: String,
    pub covered_from: i64,
    pub compact_point: i64,
    pub total_tokens: i64,
    pub tail_tokens: i64,
    pub first_kept_message_id: Option<String>,
    pub profile: Option<String>,
    pub bands: Json,
}

/// What a [`CompactReceipt`] stands for.
#[verifier::ext_equal]
pub struct CompactReceiptView {
    pub view_id: Seq<char>,
    pub covered_from: i64,
    pub compact_point: i64,
    pub total_tokens: i64,
    pub tail_tokens: i64,
    pub first_kept_message_id: Option<Seq<char>>,
    pub profile: Option<Seq<char>>,
    pub bands: JsonView,
}

impl View for CompactReceipt {
    type V = CompactReceiptView;

    open spec fn view(&self) -> CompactReceiptView {
        CompactReceiptView {
            view_id: self.view_id.deep_view(),
            covered_from: self.covered_from.deep_view(),
            compact_point: self.compact_point.deep_view(),
            total_tokens: self.total_tokens.deep_view(),
            tail_tokens: self.tail_tokens.deep_view(),
            first_kept_message_id: self.first_kept_message_id.deep_view(),
            profile: self.profile.deep_view(),
            bands: self.bands.deep_view(),
        }
    }
}

impl DeepView for CompactReceipt {
    type V = CompactReceiptView;

    open spec fn deep_view(&self) -> CompactReceiptView {
        self@
    }
}

impl Clone for CompactReceipt {
    fn clone(&self) -> (r: Self)
        ensures
            r@ == self@,
            r.deep_view() == self.deep_view(),
    {
        CompactReceipt {
            view_id: self.view_id.clone(),
            covered_from: self.covered_from,
            compact_point: self.compact_point,
            total_tokens: self.total_tokens,
            tail_tokens: self.tail_tokens,
            first_kept_message_id: self.first_kept_message_id.clone(),
            profile: self.profile.clone(),
            bands: self.bands.clone(),
        }
    }
}

/// The mark of a compact in the store.
#[derive(Debug, PartialEq, Eq)]
pub struct CompactMarker {
    pub view_id: String,
    pub covered_from: i64,
    pub compact_point: i64,
    pub total_tokens: i64,
    pub tail_tokens: i64,
    pub first_kept_message_id: Option<String>,
    pub profile: Option<String>,
    pub bands: Json,
    pub view_map_seam: String,
    /// How many items the host sees.
    pub body_item_count: usize,
    /// The key under which the mark is stored, the same on every retry.
    pub marker_key: String,
    /// Digests of the served items, their identities left out.
    pub derived_content_digests: Vec<String>,
    /// Identities that the host gave the served items; none before that.
    pub derived_host_ids: Vec<String>,
    /// What stood last in the store.
    pub archive_tip: String,
}

/// What a [`CompactMarker`] stands for.
#[verifier::ext_equal]
pub struct CompactMarkerView {
    pub view_id: Seq<char>,
    pub covered_from: i64,
    pub compact_point: i64,
    pub total_tokens: i64,
    pub tail_tokens: i64,
    pub first_kept_message_id: Option<Seq<char>>,
    pub profile: Option<Seq<char>>,
    pub bands: JsonView,
    pub view_map_seam: Seq<char>,
    pub body_item_count: usize,
    pub marker_key: Seq<char>,
    pub derived_content_digests: Seq<Seq<char>>,
    pub derived_host_ids: Seq<Seq<char>>,
    pub archive_tip: Seq<char>,
}

impl View for CompactMarker {
    type V = CompactMarkerView;

    open spec fn view(&self) -> CompactMarkerView {
        CompactMarkerView {
            view_id: self.view_id.deep_view(),
            covered_from: self.covered_from.deep_view(),
            compact_point: self.compact_point.deep_view(),
            total_tokens: self.total_tokens.deep_view(),
            tail_tokens: self.tail_tokens.deep_view(),
            first_kept_message_id: self.first_kept_message_id.deep_view(),
            profile: self.profile.deep_view(),
            bands: self.bands.deep_view(),
            view_map_seam: self.view_map_seam.deep_view(),
            body_item_count: self.body_item_count.deep_view(),
            marker_key: self.marker_key.deep_view(),
            derived_content_digests: self.derived_content_digests.deep_view(),
            derived_host_ids: self.derived_host_ids.deep_view(),
            archive_tip: self.archive_tip.deep_view(),
        }
    }
}

impl DeepView for CompactMarker {
    type V = CompactMarkerView;

    open spec fn deep_view(&self) -> CompactMarkerView {
        self@
    }
}

impl Clone for CompactMarker {
    fn clone(&self) -> (r: Self)
        ensures
            r@ == self@,
            r.deep_view() == self.deep_view(),
    {
        CompactMarker {
            view_id: self.view_id.clone(),
            covered_from: self.covered_from,
            compact_point: self.compact_point,
            total_tokens: self.total_tokens,
            tail_tokens: self.tail_tokens,
            first_kept_message_id: self.first_kept_message_id.clone(),
            profile: self.profile.clone(),
            bands: self.bands.clone(),
            view_map_seam: self.view_map_seam.clone(),
            body_item_count: self.body_item_count,
            marker_key: self.marker_key.clone(),
            derived_content_digests: self.derived_content_digests.clone(),
            derived_host_ids: self.derived_host_ids.clone(),
            archive_tip: self.archive_tip.clone(),
        }
    }
}

// ---------------------------------------------------------------------------
// Keys
// ---------------------------------------------------------------------------

/// What stands before the first `:`.
pub open spec fn leading_field(s: Seq<char>) -> Seq<char> {
    s.subrange(0, first_from(s, ':', 0))
}

/// The key is that of a compact marker: its first three fields are the host,
/// a thread and the marker's own.
pub open spec fn is_marker_key(key: Seq<char>) -> bool {
    match after_prefix(key, "codex:"@) {
        Some(rest) => match cut(rest, ':') {
            Some((_, tail)) => leading_field(tail) == COMPACT_MARKER_KEY_SEGMENT@,
            None => false,
        },
        None => false,
    }
}

/// Whether a key is that of a compact marker. The key alone decides, never the
/// text of a note.
pub fn is_compact_marker_idempotency_key(key: &str) -> (r: bool)
    ensures
        r == is_marker_key(key@),
{
    match strip_prefix(key, "codex:") {
        Some(rest) => match split_once(rest.as_str(), ':') {
            Some((_, tail)) => text_eq(
                first_field(tail.as_str()).as_str(),
                COMPACT_MARKER_KEY_SEGMENT,
            ),
            None => false,
        },
        None => false,
    }
}

/// The item without its identity.
pub open spec fn content_digest(item: ResponseItemView) -> Seq<char> {
    digest_of(with_id(item, None))
}

/// The digest of what an item holds, its identity left out.
pub fn content_identity_digest(item: &ResponseItem) -> (r: String)
    ensures
        r@ == content_digest(item@),
{
    let mut stripped = item.clone();
    stripped.set_id(None);
    item_digest(&stripped)
}

/// The digests of some items, their identities left out.
pub open spec fn content_digests(items: Seq<ResponseItemView>) -> Seq<Seq<char>> {
    items.map_values(|item: ResponseItemView| content_digest(item))
}

fn digests_of(items: &Vec<ResponseItem>) -> (r: Vec<String>)
    ensures
        r.deep_view() == content_digests(items.deep_view()),
{
    let ghost view = items.deep_view();
    let mut out: Vec<String> = Vec::new();
    let mut i: usize = 0;
    while i < items.len()
        invariant
            i <= items.len(),
            view == items.deep_view(),
            out.deep_view() =~= content_digests(view.take(i as int)),
        decreases items.len() - i,
    {
        let ghost before = out.deep_view();
        assert(view[i as int] == items@[i as int]@);
        let d = content_identity_digest(&items[i]);
        let ghost d_view = d@;
        out.push(d);
        assert(out.deep_view() =~= before.push(d_view));
        assert(view.take(i + 1) =~= view.take(i as int).push(view[i as int]));
        i = i + 1;
    }
    assert(view.take(i as int) =~= view);
    out
}

/// The hexadecimal notation of a number, without leading zeros.
pub open spec fn hex_number(n: nat) -> Seq<char>
    decreases n,
{
    if n < 16 {
        seq![hex_digit(n)]
    } else {
        hex_number(n / 16).push(hex_digit(n % 16))
    }
}

fn hex_digit_char(d: u64) -> (r: char)
    requires
        d < 16,
    ensures
        r == hex_digit(d as nat),
{
    if d < 10 {
        (48u8 + d as u8) as char
    } else {
        (87u8 + d as u8) as char
    }
}

fn hex_number_text(n: u64) -> (r: String)
    ensures
        r@ == hex_number(n as nat),
    decreases n,
{
    if n < 16 {
        let mut s = String::new();
        s.push(hex_digit_char(n));
        assert(s@ =~= hex_number(n as nat));
        s
    } else {
        let mut s = hex_number_text(n / 16);
        s.push(hex_digit_char(n % 16));
        s
    }
}

/// The number that the standard hasher makes of a text.
pub open spec fn text_hash(s: Seq<char>) -> u64 {
    DefaultHasher::spec_finish(seq![encode_utf8(s), seq![0xffu8]])
}

fn hash_text(s: &str) -> (r: u64)
    ensures
        r == text_hash(s@),
{
    let mut h = DefaultHasher::new();
    h.write(s.as_bytes());
    let end: [u8; 1] = [0xffu8];
    assert(end@ =~= seq![0xffu8]);
    h.write(end.as_slice());
    assert(h@ =~= seq![encode_utf8(s@), seq![0xffu8]]);
    h.finish()
}

/// What tells one served body from another: the digests of its items, or, where
/// those are long, a number made of them.
pub open spec fn fingerprint(digests: Seq<Seq<char>>) -> Seq<char> {
    let all = joined(digests, "|"@);
    if byte_len(all) > 64 {
        hex_number(text_hash(all) as nat)
    } else {
        all
    }
}

fn fingerprint_of(digests: &Vec<String>) -> (r: String)
    ensures
        r@ == fingerprint(digests.deep_view()),
{
    let all = join(digests, "|");
    if text_byte_len(all.as_str()) > 64 {
        hex_number_text(hash_text(all.as_str()))
    } else {
        all
    }
}

/// The key of a marker: the thread, what stood last in the store, what the
/// compact covered, and the body that it served.
pub open spec fn marker_key_of(
    receipt: CompactReceiptView,
    thread_id: Seq<char>,
    digests: Seq<Seq<char>>,
    archive_tip: Seq<char>,
) -> Seq<char> {
    "codex:"@ + key_escaped(thread_id) + ":"@ + COMPACT_MARKER_KEY_SEGMENT@ + ":"@ + key_escaped(
        archive_tip,
    ) + ":"@ + signed_decimal(receipt.compact_point as int) + ":"@ + signed_decimal(
        receipt.covered_from as int,
    ) + ":"@ + fingerprint(digests)
}

/// The mark of a compact.
pub open spec fn marker_of(
    receipt: CompactReceiptView,
    thread_id: Seq<char>,
    body: Seq<ResponseItemView>,
    archive_tip: Seq<char>,
) -> CompactMarkerView {
    CompactMarkerView {
        view_id: receipt.view_id,
        covered_from: receipt.covered_from,
        compact_point: receipt.compact_point,
        total_tokens: receipt.total_tokens,
        tail_tokens: receipt.tail_tokens,
        first_kept_message_id: receipt.first_kept_message_id,
        profile: receipt.profile,
        bands: receipt.bands,
        view_map_seam: VIEW_MAP_SEAM_ID@,
        body_item_count: body.len() as usize,
        marker_key: marker_key_of(receipt, thread_id, content_digests(body), archive_tip),
        derived_content_digests: content_digests(body),
        derived_host_ids: Seq::empty(),
        archive_tip,
    }
}

// ---------------------------------------------------------------------------
// Notes and records
// ---------------------------------------------------------------------------

/// What a note says of a marker: never what was served.
pub open spec fn note_entries(m: CompactMarkerView) -> Entries {
    seq![
        ("viewId"@, JsonView::Text(m.view_id)),
        ("coveredFrom"@, JsonView::Int(m.covered_from as int)),
        ("compactPoint"@, JsonView::Int(m.compact_point as int)),
        ("totalTokens"@, JsonView::Int(m.total_tokens as int)),
        ("bodyItemCount"@, JsonView::Int(m.body_item_count as int)),
        ("markerKey"@, JsonView::Text(m.marker_key)),
        ("archiveTip"@, JsonView::Text(m.archive_tip)),
        ("viewMapSeam"@, JsonView::Text(m.view_map_seam)),
    ]
}

/// The note of a marker.
pub open spec fn note_text(m: CompactMarkerView) -> Seq<char> {
    "lhc_compact_marker "@ + json_text(JsonView::Object(note_entries(m)))
}

/// Some strings as a list.
pub open spec fn text_list(v: Seq<Seq<char>>) -> JsonView {
    JsonView::List(v.map_values(|s: Seq<char>| JsonView::Text(s)))
}

/// All that a marker holds.
pub open spec fn record_entries(m: CompactMarkerView) -> Entries {
    seq![
        ("viewId"@, JsonView::Text(m.view_id)),
        ("coveredFrom"@, JsonView::Int(m.covered_from as int)),
        ("compactPoint"@, JsonView::Int(m.compact_point as int)),
        ("totalTokens"@, JsonView::Int(m.total_tokens as int)),
        ("tailTokens"@, JsonView::Int(m.tail_tokens as int)),
        ("firstKeptMessageId"@, text_or_null(m.first_kept_message_id)),
        ("profile"@, text_or_null(m.profile)),
        ("bands"@, m.bands),
        ("viewMapSeam"@, JsonView::Text(m.view_map_seam)),
        ("bodyItemCount"@, JsonView::Int(m.body_item_count as int)),
        ("markerKey"@, JsonView::Text(m.marker_key)),
        ("derivedContentDigests"@, text_list(m.derived_content_digests)),
        ("derivedHostIds"@, text_list(m.derived_host_ids)),
        ("archiveTip"@, JsonView::Text(m.archive_tip)),
    ]
}

/// The durable record of a marker.
pub open spec fn record_text(m: CompactMarkerView) -> Seq<char> {
    "lhc_compact_durable "@ + json_text(JsonView::Object(record_entries(m)))
}

fn text_or_null_of(s: &Option<String>) -> (r: Json)
    ensures
        r@ == text_or_null(s.deep_view()),
{
    match s {
        Some(s) => Json::Text(s.clone()),
        None => Json::Null,
    }
}

fn list_of_texts(v: &Vec<String>) -> (r: Json)
    ensures
        r@ == text_list(v.deep_view()),
{
    broadcast use lemma_list_view;

    let ghost view = v.deep_view();
    let mut out: Vec<Json> = Vec::new();
    let mut i: usize = 0;
    while i < v.len()
        invariant
            i <= v.len(),
            view == v.deep_view(),
            out.deep_view() =~= view.take(i as int).map_values(|s: Seq<char>| JsonView::Text(s)),
        decreases v.len() - i,
    {
        let ghost before = out.deep_view();
        assert(view[i as int] == v@[i as int]@);
        out.push(Json::Text(v[i].clone()));
        assert(out.deep_view() =~= before.push(JsonView::Text(view[i as int])));
        i = i + 1;
    }
    assert(view.take(i as int) =~= view);
    Json::List(out)
}

impl CompactMarker {
    /// The most that a note may hold.
    pub const RUNTIME_NOTE_MAX_CHARS: usize = 1024;

    /// The mark of a compact. Its key is the same whenever the same compact of
    /// the same store is tried again, and another when the store has grown or
    /// the outcome differs.
    pub fn from_receipt(
        receipt: &CompactReceipt,
        thread_id: &str,
        body: &Vec<ResponseItem>,
        archive_tip: &str,
    ) -> (r: Self)
        ensures
            r@ == marker_of(receipt@, thread_id@, body.deep_view(), archive_tip@),
    {
        let derived_content_digests = digests_of(body);
        let mut marker_key = text("codex:");
        marker_key.append(encode_thread_id(thread_id).as_str());
        marker_key.append(":");
        marker_key.append(COMPACT_MARKER_KEY_SEGMENT);
        marker_key.append(":");
        marker_key.append(encode_thread_id(archive_tip).as_str());
        marker_key.append(":");
        marker_key.append(signed_decimal_text(receipt.compact_point as i128).as_str());
        marker_key.append(":");
        marker_key.append(signed_decimal_text(receipt.covered_from as i128).as_str());
        marker_key.append(":");
        marker_key.append(fingerprint_of(&derived_content_digests).as_str());
        let derived_host_ids: Vec<String> = Vec::new();
        assert(derived_host_ids.deep_view() =~= Seq::<Seq<char>>::empty());
        CompactMarker {
            view_id: receipt.view_id.clone(),
            covered_from: receipt.covered_from,
            compact_point: receipt.compact_point,
            total_tokens: receipt.total_tokens,
            tail_tokens: receipt.tail_tokens,
            first_kept_message_id: receipt.first_kept_message_id.clone(),
            profile: receipt.profile.clone(),
            bands: receipt.bands.clone(),
            view_map_seam: text(VIEW_MAP_SEAM_ID),
            body_item_count: body.len(),
            marker_key,
            derived_content_digests,
            derived_host_ids,
            archive_tip: text(archive_tip),
        }
    }

    /// The note that a model may come to see. It does not grow with what was
    /// served.
    pub fn to_runtime_note_text(&self) -> (r: String)
        ensures
            r@ == note_text(self@),
    {
        broadcast use lemma_object_view;

        let mut e: Vec<(String, Json)> = Vec::new();
        push_entry(&mut e, "viewId", Json::Text(self.view_id.clone()));
        push_entry(&mut e, "coveredFrom", Json::Int(self.covered_from as i128));
        push_entry(&mut e, "compactPoint", Json::Int(self.compact_point as i128));
        push_entry(&mut e, "totalTokens", Json::Int(self.total_tokens as i128));
        push_entry(&mut e, "bodyItemCount", Json::Int(self.body_item_count as i128));
        push_entry(&mut e, "markerKey", Json::Text(self.marker_key.clone()));
        push_entry(&mut e, "archiveTip", Json::Text(self.archive_tip.clone()));
        push_entry(&mut e, "viewMapSeam", Json::Text(self.view_map_seam.clone()));
        assert(e.deep_view() =~= note_entries(self@));
        let mut s = text("lhc_compact_marker ");
        s.append(Json::Object(e).to_text().as_str());
        s
    }

    /// The record that the host keeps beside the compacted history.
    pub fn to_durable_writeback_record(&self) -> (r: String)
        ensures
            r@ == record_text(self@),
    {
        broadcast use lemma_object_view;

        let mut e: Vec<(String, Json)> = Vec::new();
        push_entry(&mut e, "viewId", Json::Text(self.view_id.clone()));
        push_entry(&mut e, "coveredFrom", Json::Int(self.covered_from as i128));
        push_entry(&mut e, "compactPoint", Json::Int(self.compact_point as i128));
        push_entry(&mut e, "totalTokens", Json::Int(self.total_tokens as i128));
        push_entry(&mut e, "tailTokens", Json::Int(self.tail_tokens as i128));
        push_entry(&mut e, "firstKeptMessageId", text_or_null_of(&self.first_kept_message_id));
        push_entry(&mut e, "profile", text_or_null_of(&self.profile));
        push_entry(&mut e, "bands", self.bands.clone());
        push_entry(&mut e, "viewMapSeam", Json::Text(self.view_map_seam.clone()));
        push_entry(&mut e, "bodyItemCount", Json::Int(self.body_item_count as i128));
        push_entry(&mut e, "markerKey", Json::Text(self.marker_key.clone()));
        push_entry(&mut e, "derivedContentDigests", list_of_texts(&self.derived_content_digests));
        push_entry(&mut e, "derivedHostIds", list_of_texts(&self.derived_host_ids));
        push_entry(&mut e, "archiveTip", Json::Text(self.archive_tip.clone()));
        assert(e.deep_view() =~= record_entries(self@));
        let mut s = text("lhc_compact_durable ");
        s.append(Json::Object(e).to_text().as_str());
        s
    }

    /// Whether a text is the durable record of a marker.
    pub fn is_durable_writeback_record(s: &str) -> (r: bool)
        ensures
            r == begins_with(s@, "lhc_compact_durable "@),
    {
        has_prefix(s, "lhc_compact_durable ")
    }
}

// ---------------------------------------------------------------------------
// Reading
// ---------------------------------------------------------------------------

/// The number under a name.
pub open spec fn number_entry(e: Entries, key: Seq<char>) -> Option<i64> {
    match entry(e, key) {
        Some(JsonView::Raw(s)) => parsed_i64(s),
        _ => None,
    }
}

fn read_number(e: &Vec<(String, Json)>, key: &str) -> (r: Option<i64>)
    ensures
        r == number_entry(e.deep_view(), key@),
{
    match get_entry(e, key) {
        Some(Json::Raw(s)) => parse_i64(s.as_str()),
        _ => None,
    }
}

/// The size under a name.
pub open spec fn size_entry(e: Entries, key: Seq<char>) -> Option<usize> {
    match entry(e, key) {
        Some(JsonView::Raw(s)) => match parsed_u64(s) {
            Some(v) => if v <= usize::MAX {
                Some(v as usize)
            } else {
                None
            },
            None => None,
        },
        _ => None,
    }
}

fn read_size(e: &Vec<(String, Json)>, key: &str) -> (r: Option<usize>)
    ensures
        r == size_entry(e.deep_view(), key@),
{
    match get_entry(e, key) {
        Some(Json::Raw(s)) => match parse_u64(s.as_str()) {
            Some(v) => if v <= usize::MAX as u64 {
                Some(v as usize)
            } else {
                None
            },
            None => None,
        },
        _ => None,
    }
}

/// The string under a name where there may be none.
pub open spec fn opt_text_entry(e: Entries, key: Seq<char>) -> Option<Option<Seq<char>>> {
    match entry(e, key) {
        None => Some(None),
        Some(JsonView::Null) => Some(None),
        Some(JsonView::Text(s)) => Some(Some(s)),
        _ => None,
    }
}

fn read_opt_text(e: &Vec<(String, Json)>, key: &str) -> (r: Option<Option<String>>)
    ensures
        r.deep_view() == opt_text_entry(e.deep_view(), key@),
{
    match get_entry(e, key) {
        None => Some(None),
        Some(Json::Null) => Some(None),
        Some(Json::Text(s)) => Some(Some(s.clone())),
        _ => None,
    }
}

fn read_text(e: &Vec<(String, Json)>, key: &str) -> (r: Option<String>)
    ensures
        r.deep_view() == text_entry(e.deep_view(), key@),
{
    match get_text(e, key) {
        Some(s) => Some(s.clone()),
        None => None,
    }
}

/// The strings of a list of strings.
pub open spec fn texts_of(read: Option<JsonView>) -> Option<Seq<Seq<char>>> {
    match read {
        Some(JsonView::List(v)) => if forall|i: int|
            0 <= i < v.len() ==> (#[trigger] v[i]) is Text {
            Some(v.map_values(|j: JsonView| j->Text_0))
        } else {
            None
        },
        _ => None,
    }
}

/// The strings of a list of strings.
pub fn texts_from_read(read: Option<Json>) -> (r: Option<Vec<String>>)
    ensures
        r.deep_view() == texts_of(read.deep_view()),
{
    broadcast use lemma_list_view;

    let ghost all = read.deep_view();
    match read {
        Some(Json::List(v)) => {
            let ghost view = v.deep_view();
            let mut out: Vec<String> = Vec::new();
            let mut i: usize = 0;
            while i < v.len()
                invariant
                    i <= v.len(),
                    view == v.deep_view(),
                    all == Some(JsonView::List(view)),
                    all == read.deep_view(),
                    forall|k: int| 0 <= k < i ==> (#[trigger] view[k]) is Text,
                    out.deep_view() =~= view.take(i as int).map_values(|j: JsonView| j->Text_0),
                decreases v.len() - i,
            {
                let ghost before = out.deep_view();
                assert(view[i as int] == v@[i as int]@);
                match &v[i] {
                    Json::Text(s) => {
                        out.push(s.clone());
                        assert(out.deep_view() =~= before.push(s@));
                    },
                    _ => {
                        assert(!(view[i as int] is Text));
                        return None;
                    },
                }
                i = i + 1;
            }
            assert(view.take(i as int) =~= view);
            Some(out)
        },
        _ => None,
    }
}

/// The strings of the list of strings under a name.
pub open spec fn texts_entry(e: Entries, key: Seq<char>) -> Option<Seq<Seq<char>>> {
    match entry(e, key) {
        Some(JsonView::Raw(s)) => texts_of(json_read(s)),
        _ => None,
    }
}

fn read_texts(e: &Vec<(String, Json)>, key: &str) -> (r: Option<Vec<String>>)
    ensures
        r.deep_view() == texts_entry(e.deep_view(), key@),
        forall|v: Seq<Seq<char>>|
            entry(e.deep_view(), key@) == Some(JsonView::Raw(json_text(#[trigger] text_list(v))))
                ==> r.deep_view() == Some(v),
{
    match get_entry(e, key) {
        Some(Json::Raw(s)) => {
            let read = read_json(s.as_str());
            proof {
                assert forall|v: Seq<Seq<char>>|
                    s@ == json_text(#[trigger] text_list(v)) implies texts_of(read.deep_view())
                    == Some(v) by {
                    lemma_text_list_reads(v);
                }
            }
            texts_from_read(read)
        },
        _ => None,
    }
}

proof fn lemma_text_list_reads(v: Seq<Seq<char>>)
    ensures
        is_plain(text_list(v), 99),
        is_plain(text_list(v), 100),
        texts_of(Some(outer_value(text_list(v)))) == Some(v),
{
    reveal_with_fuel(is_plain, 2);
    let list = outer_value(text_list(v))->List_0;
    assert(list.map_values(|j: JsonView| j->Text_0) =~= v);
}

/// The marker that the entries of an object describe, given what the two lists
/// in it read as.
pub open spec fn marker_from(
    e: Entries,
    digests: Option<Seq<Seq<char>>>,
    ids: Option<Seq<Seq<char>>>,
) -> Option<CompactMarkerView> {
    if text_entry(e, "viewId"@) is Some && number_entry(e, "coveredFrom"@) is Some && number_entry(
        e,
        "compactPoint"@,
    ) is Some && number_entry(e, "totalTokens"@) is Some && number_entry(e, "tailTokens"@) is Some
        && opt_text_entry(e, "firstKeptMessageId"@) is Some && opt_text_entry(e, "profile"@) is Some
        && entry(e, "bands"@) is Some && text_entry(e, "viewMapSeam"@) is Some && size_entry(
        e,
        "bodyItemCount"@,
    ) is Some && text_entry(e, "markerKey"@) is Some && digests is Some && ids is Some
        && text_entry(e, "archiveTip"@) is Some {
        Some(
            CompactMarkerView {
                view_id: text_entry(e, "viewId"@)->0,
                covered_from: number_entry(e, "coveredFrom"@)->0,
                compact_point: number_entry(e, "compactPoint"@)->0,
                total_tokens: number_entry(e, "totalTokens"@)->0,
                tail_tokens: number_entry(e, "tailTokens"@)->0,
                first_kept_message_id: opt_text_entry(e, "firstKeptMessageId"@)->0,
                profile: opt_text_entry(e, "profile"@)->0,
                bands: entry(e, "bands"@)->0,
                view_map_seam: text_entry(e, "viewMapSeam"@)->0,
                body_item_count: size_entry(e, "bodyItemCount"@)->0,
                marker_key: text_entry(e, "markerKey"@)->0,
                derived_content_digests: digests->0,
                derived_host_ids: ids->0,
                archive_tip: text_entry(e, "archiveTip"@)->0,
            },
        )
    } else {
        None
    }
}

/// The marker that the entries of an object describe, given what the two lists
/// in it read as.
pub fn marker_from_entries(
    e: &Vec<(String, Json)>,
    digests: Option<Vec<String>>,
    ids: Option<Vec<String>>,
) -> (r: Option<CompactMarker>)
    ensures
        r.deep_view() == marker_from(e.deep_view(), digests.deep_view(), ids.deep_view()),
{
    let bands = match get_entry(e, "bands") {
        Some(j) => Some(j.clone()),
        None => None,
    };
    match (
        read_text(e, "viewId"),
        read_number(e, "coveredFrom"),
        read_number(e, "compactPoint"),
        read_number(e, "totalTokens"),
        read_number(e, "tailTokens"),
        read_opt_text(e, "firstKeptMessageId"),
        read_opt_text(e, "profile"),
    ) {
        (
            Some(view_id),
            Some(covered_from),
            Some(compact_point),
            Some(total_tokens),
            Some(tail_tokens),
            Some(first_kept_message_id),
            Some(profile),
        ) => match (
            bands,
            read_text(e, "viewMapSeam"),
            read_size(e, "bodyItemCount"),
            read_text(e, "markerKey"),
            digests,
            ids,
            read_text(e, "archiveTip"),
        ) {
            (
                Some(bands),
                Some(view_map_seam),
                Some(body_item_count),
                Some(marker_key),
                Some(derived_content_digests),
                Some(derived_host_ids),
                Some(archive_tip),
            ) => Some(
                CompactMarker {
                    view_id,
                    covered_from,
                    compact_point,
                    total_tokens,
                    tail_tokens,
                    first_kept_message_id,
                    profile,
                    bands,
                    view_map_seam,
                    body_item_count,
                    marker_key,
                    derived_content_digests,
                    derived_host_ids,
                    archive_tip,
                },
            ),
            _ => None,
        },
        _ => None,
    }
}

/// The marker that the entries of an object describe. The list of identities may
/// be left out.
pub open spec fn marker_of_entries(e: Entries) -> Option<CompactMarkerView> {
    marker_from(
        e,
        texts_entry(e, "derivedContentDigests"@),
        if entry(e, "derivedHostIds"@) is None {
            Some(Seq::empty())
        } else {
            texts_entry(e, "derivedHostIds"@)
        },
    )
}

/// The names of what a marker holds, in order.
pub open spec fn field_names() -> Seq<Seq<char>> {
    seq![
        "viewId"@,
        "coveredFrom"@,
        "compactPoint"@,
        "totalTokens"@,
        "tailTokens"@,
        "firstKeptMessageId"@,
        "profile"@,
        "bands"@,
        "viewMapSeam"@,
        "bodyItemCount"@,
        "markerKey"@,
        "derivedContentDigests"@,
        "derivedHostIds"@,
        "archiveTip"@,
    ]
}

/// The values of a list under the names of what a marker holds.
pub open spec fn named_fields(v: Seq<JsonView>) -> Entries {
    Seq::new(field_names().len(), |i: int| (field_names()[i], v[i]))
}

/// The fields of a marker among the members of an object, each with what its
/// value read as. Other members are passed over; a field that stands twice, or
/// whose value cannot be read, spoils them all.
pub open spec fn known_fields(members: Seq<(Seq<char>, Option<JsonView>)>) -> Option<Entries>
    decreases members.len(),
{
    if members.len() == 0 {
        Some(Seq::empty())
    } else {
        match (known_fields(members.drop_last()), members.last()) {
            (Some(fields), (name, value)) => if !field_names().contains(name) {
                Some(fields)
            } else if entry(fields, name) is Some {
                None
            } else {
                match value {
                    Some(value) => Some(fields.push((name, value))),
                    None => None,
                }
            },
            _ => None,
        }
    }
}

/// The marker that the members of an object describe, each with what its value
/// read as.
pub open spec fn marker_of_members(
    members: Seq<(Seq<char>, Option<JsonView>)>,
) -> Option<CompactMarkerView> {
    match known_fields(members) {
        Some(fields) => marker_of_entries(fields),
        None => None,
    }
}

/// The marker that a list of all its fields describes.
pub open spec fn marker_of_list(read: Option<JsonView>) -> Option<CompactMarkerView> {
    match read {
        Some(JsonView::List(v)) => if v.len() == field_names().len() {
            marker_of_entries(named_fields(v))
        } else {
            None
        },
        _ => None,
    }
}

/// The marker that a notation describes: an object with its fields, or the list
/// of them all in order.
pub open spec fn marker_read(s: Seq<char>) -> Option<CompactMarkerView> {
    match object_members(s) {
        Some(members) => marker_of_members(members_read(members)),
        None => marker_of_list(json_read(s)),
    }
}

fn push_field(e: &mut Vec<(String, Json)>, name: &str, value: &Json)
    ensures
        final(e).deep_view() == old(e).deep_view().push((name@, value@)),
{
    let ghost before = e.deep_view();
    e.push((text(name), value.clone()));
    assert(e.deep_view() =~= before.push((name@, value@)));
}

/// The values of a list under the names of what a marker holds.
fn name_fields(v: &Vec<Json>) -> (r: Option<Vec<(String, Json)>>)
    ensures
        match r {
            Some(e) => v.deep_view().len() == field_names().len() && e.deep_view() == named_fields(
                v.deep_view(),
            ),
            None => v.deep_view().len() != field_names().len(),
        },
{
    if v.len() != 14 {
        return None;
    }
    let mut e: Vec<(String, Json)> = Vec::new();
    assert(e.deep_view() =~= Seq::<(Seq<char>, JsonView)>::empty());
    push_field(&mut e, "viewId", &v[0]);
    push_field(&mut e, "coveredFrom", &v[1]);
    push_field(&mut e, "compactPoint", &v[2]);
    push_field(&mut e, "totalTokens", &v[3]);
    push_field(&mut e, "tailTokens", &v[4]);
    push_field(&mut e, "firstKeptMessageId", &v[5]);
    push_field(&mut e, "profile", &v[6]);
    push_field(&mut e, "bands", &v[7]);
    push_field(&mut e, "viewMapSeam", &v[8]);
    push_field(&mut e, "bodyItemCount", &v[9]);
    push_field(&mut e, "markerKey", &v[10]);
    push_field(&mut e, "derivedContentDigests", &v[11]);
    push_field(&mut e, "derivedHostIds", &v[12]);
    push_field(&mut e, "archiveTip", &v[13]);
    assert(e.deep_view() =~= named_fields(v.deep_view()));
    Some(e)
}

/// The name is one of a marker's fields.
fn is_field(name: &str) -> (r: bool)
    ensures
        r == field_names().contains(name@),
{
    let ghost names = field_names();
    proof {
        assert(names[0] == "viewId"@ && names[1] == "coveredFrom"@ && names[2] == "compactPoint"@);
        assert(names[3] == "totalTokens"@ && names[4] == "tailTokens"@);
        assert(names[5] == "firstKeptMessageId"@ && names[6] == "profile"@);
        assert(names[7] == "bands"@ && names[8] == "viewMapSeam"@);
        assert(names[9] == "bodyItemCount"@ && names[10] == "markerKey"@);
        assert(names[11] == "derivedContentDigests"@ && names[12] == "derivedHostIds"@);
        assert(names[13] == "archiveTip"@);
    }
    text_eq(name, "viewId") || text_eq(name, "coveredFrom") || text_eq(name, "compactPoint")
        || text_eq(name, "totalTokens") || text_eq(name, "tailTokens") || text_eq(
        name,
        "firstKeptMessageId",
    ) || text_eq(name, "profile") || text_eq(name, "bands") || text_eq(name, "viewMapSeam")
        || text_eq(name, "bodyItemCount") || text_eq(name, "markerKey") || text_eq(
        name,
        "derivedContentDigests",
    ) || text_eq(name, "derivedHostIds") || text_eq(name, "archiveTip")
}

/// The fields of a marker among the members of an object.
pub fn fields_among(members: &Vec<(String, Option<Json>)>) -> (r: Option<Vec<(String, Json)>>)
    ensures
        r.deep_view() == known_fields(members.deep_view()),
{
    let ghost view = members.deep_view();
    let mut fields: Vec<(String, Json)> = Vec::new();
    assert(fields.deep_view() =~= Seq::<(Seq<char>, JsonView)>::empty());
    let mut i: usize = 0;
    while i < members.len()
        invariant
            i <= members.len(),
            view == members.deep_view(),
            known_fields(view.take(i as int)) == Some(fields.deep_view()),
        decreases members.len() - i,
    {
        let ghost n = i as int;
        proof {
            assert(view[n] == (members@[n].0@, members@[n].1.deep_view()));
            assert(view.take(n + 1).drop_last() =~= view.take(n));
            assert(view.take(n + 1).last() == view[n]);
        }
        let name = members[i].0.as_str();
        if is_field(name) {
            if get_entry(&fields, name).is_some() {
                proof {
                    lemma_spoilt_fields(view, n + 1);
                }
                return None;
            }
            match &members[i].1 {
                Some(value) => push_field(&mut fields, name, value),
                None => {
                    proof {
                        lemma_spoilt_fields(view, n + 1);
                    }
                    return None;
                },
            }
        }
        i = i + 1;
    }
    assert(view.take(i as int) =~= view);
    Some(fields)
}

/// Fields that are spoilt stay so, whatever members follow.
proof fn lemma_spoilt_fields(members: Seq<(Seq<char>, Option<JsonView>)>, n: int)
    requires
        0 <= n <= members.len(),
        known_fields(members.take(n)) is None,
    ensures
        known_fields(members) is None,
    decreases members.len() - n,
{
    if n == members.len() {
        assert(members.take(n) =~= members);
    } else {
        assert(members.take(n + 1).drop_last() =~= members.take(n));
        lemma_spoilt_fields(members, n + 1);
    }
}

proof fn lemma_name_stays(entries: Entries, q: int)
    requires
        0 <= q < entries.len(),
    ensures
        entry(entries, entries[q].0) is Some,
    decreases entries.len(),
{
    if q > 0 && entries[0].0 != entries[q].0 {
        assert(entries.drop_first()[q - 1] == entries[q]);
        lemma_name_stays(entries.drop_first(), q - 1);
    }
}

proof fn lemma_field_is_kept(members: Seq<(Seq<char>, Option<JsonView>)>, i: int) -> (q: int)
    requires
        0 <= i < members.len(),
        field_names().contains(members[i].0),
        known_fields(members) is Some,
    ensures
        ({
            let fields = known_fields(members)->0;
            0 <= q < fields.len() && fields[q].0 == members[i].0
        }),
    decreases members.len(),
{
    if i == members.len() - 1 {
        known_fields(members)->0.len() - 1
    } else {
        lemma_field_is_kept(members.drop_last(), i)
    }
}

/// A record that names a field twice describes no marker.
pub proof fn repeated_fields_are_refused(
    members: Seq<(Seq<char>, Option<JsonView>)>,
    i: int,
    k: int,
)
    requires
        0 <= i < k < members.len(),
        members[i].0 == members[k].0,
        field_names().contains(members[k].0),
    ensures
        known_fields(members) is None,
        marker_of_members(members) is None,
{
    let before = members.take(k);
    if known_fields(before) is Some {
        let q = lemma_field_is_kept(before, i);
        lemma_name_stays(known_fields(before)->0, q);
    }
    assert(members.take(k + 1).drop_last() =~= before);
    assert(members.take(k + 1).last() == members[k]);
    lemma_spoilt_fields(members, k + 1);
}

/// A member that is no field of a marker changes nothing, wherever it stands,
/// however often its name does, and whether or not its value can be read.
pub proof fn other_members_are_passed_over(
    members: Seq<(Seq<char>, Option<JsonView>)>,
    at: int,
    other: (Seq<char>, Option<JsonView>),
)
    requires
        0 <= at <= members.len(),
        !field_names().contains(other.0),
    ensures
        marker_of_members(members.insert(at, other)) == marker_of_members(members),
{
    lemma_passed_over(members, at, other);
}

proof fn lemma_passed_over(
    members: Seq<(Seq<char>, Option<JsonView>)>,
    at: int,
    other: (Seq<char>, Option<JsonView>),
)
    requires
        0 <= at <= members.len(),
        !field_names().contains(other.0),
    ensures
        known_fields(members.insert(at, other)) == known_fields(members),
    decreases members.len(),
{
    let with = members.insert(at, other);
    if at == members.len() {
        assert(with.drop_last() =~= members);
    } else {
        lemma_passed_over(members.drop_last(), at, other);
        assert(with.drop_last() =~= members.drop_last().insert(at, other));
        assert(with.last() == members.last());
    }
}

/// Reads the marker that the entries of an object describe.
fn read_marker(e: &Vec<(String, Json)>) -> (r: Option<CompactMarker>)
    ensures
        r.deep_view() == marker_of_entries(e.deep_view()),
        forall|d: Seq<Seq<char>>, i: Seq<Seq<char>>|
            entry(e.deep_view(), "derivedContentDigests"@) == Some(
                JsonView::Raw(json_text(#[trigger] text_list(d))),
            ) && entry(e.deep_view(), "derivedHostIds"@) == Some(
                JsonView::Raw(json_text(#[trigger] text_list(i))),
            ) ==> r.deep_view() == marker_from(e.deep_view(), Some(d), Some(i)),
{
    let digests = read_texts(e, "derivedContentDigests");
    let ids = if get_entry(e, "derivedHostIds").is_none() {
        let none: Vec<String> = Vec::new();
        assert(none.deep_view() =~= Seq::<Seq<char>>::empty());
        Some(none)
    } else {
        read_texts(e, "derivedHostIds")
    };
    marker_from_entries(e, digests, ids)
}

/// All that a marker holds, as one value.
pub open spec fn record_json(m: CompactMarkerView) -> JsonView {
    JsonView::Object(record_entries(m))
}

/// A marker as its record gives it back: the statistics of the bands by their
/// notation.
pub open spec fn kept(m: CompactMarkerView) -> CompactMarkerView {
    CompactMarkerView { bands: inner_value(m.bands), ..m }
}

/// The marker that a notation describes. The notation of a marker gives the
/// marker back.
fn parse_marker(json: &str) -> (r: Option<CompactMarker>)
    ensures
        r.deep_view() == marker_read(json@),
        forall|m: CompactMarkerView|
            json@ == json_text(#[trigger] record_json(m)) && is_plain(m.bands, 99) ==> r.deep_view()
                == Some(kept(m)),
{
    broadcast use lemma_list_view;

    let found = read_members(json);
    proof {
        assert forall|m: CompactMarkerView|
            json@ == json_text(#[trigger] record_json(m)) && is_plain(
                m.bands,
                99,
            ) implies found.deep_view() == Some(member_texts(record_entries(m))) by {
            lemma_record_is_plain(m);
        }
    }
    match found {
        Some(members) => {
            let read = read_values(&members);
            proof {
                assert forall|m: CompactMarkerView|
                    json@ == json_text(#[trigger] record_json(m)) && is_plain(
                        m.bands,
                        99,
                    ) implies known_fields(read.deep_view()) == Some(
                    outer_value(record_json(m))->Object_0,
                ) by {
                    lemma_record_is_plain(m);
                    lemma_record_fields(m);
                }
            }
            match fields_among(&read) {
                Some(e) => {
                    let r = read_marker(&e);
                    proof {
                        assert forall|m: CompactMarkerView|
                            json@ == json_text(#[trigger] record_json(m)) && is_plain(
                                m.bands,
                                99,
                            ) implies r.deep_view() == Some(kept(m)) by {
                            lemma_record_reads(m);
                            assert(text_list(m.derived_content_digests) == text_list(
                                m.derived_content_digests,
                            ));
                            assert(text_list(m.derived_host_ids) == text_list(m.derived_host_ids));
                        }
                    }
                    r
                },
                None => None,
            }
        },
        None => match read_json(json) {
            Some(Json::List(v)) => match name_fields(&v) {
                Some(e) => read_marker(&e),
                None => None,
            },
            _ => None,
        },
    }
}

/// Every member of a record is a field, and none stands twice.
proof fn lemma_record_fields(m: CompactMarkerView)
    ensures
        known_fields(entries_read(record_entries(m))) == Some(
            outer_value(record_json(m))->Object_0,
        ),
{
    let e = outer_value(record_json(m))->Object_0;
    let all = entries_read(record_entries(m));
    lemma_fields_up_to(m, 14);
    assert(all.take(14) =~= all);
    assert(e.take(14) =~= e);
}

proof fn lemma_fields_up_to(m: CompactMarkerView, n: int)
    requires
        0 <= n <= 14,
    ensures
        known_fields(entries_read(record_entries(m)).take(n)) == Some(
            outer_value(record_json(m))->Object_0.take(n),
        ),
    decreases n,
{
    let r = record_entries(m);
    let e = outer_value(record_json(m))->Object_0;
    let all = entries_read(r);
    if n == 0 {
        assert(e.take(0) =~= Seq::<(Seq<char>, JsonView)>::empty());
    } else {
        lemma_fields_up_to(m, n - 1);
        lemma_names_differ(m);
        assert(all.take(n).drop_last() =~= all.take(n - 1));
        assert(r[n - 1].0 == field_names()[n - 1]) by {
            assert(r =~= Seq::new(14, |i: int| (field_names()[i], r[i].1)));
        }
        assert forall|j: int| 0 <= j < n - 1 implies (#[trigger] e.take(n - 1)[j]).0
            != r[n - 1].0 by {
            assert(r[j].0 != r[n - 1].0);
        }
        crate::json::lemma_entry_absent(e.take(n - 1), r[n - 1].0);
        assert(e.take(n) =~= e.take(n - 1).push(e[n - 1]));
    }
}

proof fn lemma_record_is_plain(m: CompactMarkerView)
    requires
        is_plain(m.bands, 99),
    ensures
        is_plain(record_json(m), 100),
{
    let e = record_entries(m);
    lemma_names_differ(m);
    lemma_text_list_reads(m.derived_content_digests);
    lemma_text_list_reads(m.derived_host_ids);
    assert forall|i: int| 0 <= i < e.len() implies is_plain((#[trigger] e[i]).1, 99) by {
        assert(i == 0 || i == 1 || i == 2 || i == 3 || i == 4 || i == 5 || i == 6 || i == 7 || i
            == 8 || i == 9 || i == 10 || i == 11 || i == 12 || i == 13);
    }
}

/// The length and the first character of a name, as one number.
spec fn name_code(s: Seq<char>) -> int {
    s.len() * 1000 + (s[0] as int)
}

proof fn lemma_names_differ(m: CompactMarkerView)
    ensures
        forall|i: int, k: int|
            0 <= i < k < 14 ==> (#[trigger] record_entries(m)[i]).0 != (#[trigger] record_entries(
                m,
            )[k]).0,
{
    let e = record_entries(m);
    reveal_strlit("viewId");
    reveal_strlit("coveredFrom");
    reveal_strlit("compactPoint");
    reveal_strlit("totalTokens");
    reveal_strlit("tailTokens");
    reveal_strlit("firstKeptMessageId");
    reveal_strlit("profile");
    reveal_strlit("bands");
    reveal_strlit("viewMapSeam");
    reveal_strlit("bodyItemCount");
    reveal_strlit("markerKey");
    reveal_strlit("derivedContentDigests");
    reveal_strlit("derivedHostIds");
    reveal_strlit("archiveTip");
    assert(name_code(e[0].0) == 6000 + 118);
    assert(name_code(e[1].0) == 11000 + 99);
    assert(name_code(e[2].0) == 12000 + 99);
    assert(name_code(e[3].0) == 11000 + 116);
    assert(name_code(e[4].0) == 10000 + 116);
    assert(name_code(e[5].0) == 18000 + 102);
    assert(name_code(e[6].0) == 7000 + 112);
    assert(name_code(e[7].0) == 5000 + 98);
    assert(name_code(e[8].0) == 11000 + 118);
    assert(name_code(e[9].0) == 13000 + 98);
    assert(name_code(e[10].0) == 9000 + 109);
    assert(name_code(e[11].0) == 21000 + 100);
    assert(name_code(e[12].0) == 14000 + 100);
    assert(name_code(e[13].0) == 10000 + 97);
    assert forall|i: int, k: int| 0 <= i < k < 14 implies (#[trigger] e[i]).0 != (
    #[trigger] e[k]).0 by {
        assert(name_code(e[i].0) != name_code(e[k].0));
    }
}

proof fn lemma_record_reads(m: CompactMarkerView)
    ensures
        ({
            let e = outer_value(record_json(m))->Object_0;
            &&& outer_value(record_json(m)) is Object
            &&& entry(e, "derivedContentDigests"@) == Some(
                JsonView::Raw(json_text(text_list(m.derived_content_digests))),
            )
            &&& entry(e, "derivedHostIds"@) == Some(
                JsonView::Raw(json_text(text_list(m.derived_host_ids))),
            )
            &&& marker_from(e, Some(m.derived_content_digests), Some(m.derived_host_ids)) == Some(
                kept(m),
            )
        }),
{
    let r = record_entries(m);
    let e = outer_value(record_json(m))->Object_0;
    lemma_names_differ(m);
    assert(e.len() == 14);
    assert forall|k: int| 0 <= k < 14 implies entry(e, (#[trigger] e[k]).0) == Some(e[k].1) by {
        assert forall|j: int| 0 <= j < k implies (#[trigger] e[j]).0 != e[k].0 by {
            assert(r[j].0 != r[k].0);
        }
        crate::json::lemma_entry_at(e, k);
    }
    assert(e[0] == ("viewId"@, JsonView::Text(m.view_id)));
    assert(e[1] == ("coveredFrom"@, JsonView::Raw(signed_decimal(m.covered_from as int))));
    assert(e[2] == ("compactPoint"@, JsonView::Raw(signed_decimal(m.compact_point as int))));
    assert(e[3] == ("totalTokens"@, JsonView::Raw(signed_decimal(m.total_tokens as int))));
    assert(e[4] == ("tailTokens"@, JsonView::Raw(signed_decimal(m.tail_tokens as int))));
    assert(e[5] == ("firstKeptMessageId"@, text_or_null(m.first_kept_message_id)));
    assert(e[6] == ("profile"@, text_or_null(m.profile)));
    assert(e[7] == ("bands"@, inner_value(m.bands)));
    assert(e[8] == ("viewMapSeam"@, JsonView::Text(m.view_map_seam)));
    assert(e[9] == ("bodyItemCount"@, JsonView::Raw(signed_decimal(m.body_item_count as int))));
    assert(e[10] == ("markerKey"@, JsonView::Text(m.marker_key)));
    assert(e[11] == (
        "derivedContentDigests"@,
        JsonView::Raw(json_text(text_list(m.derived_content_digests))),
    ));
    assert(e[12] == ("derivedHostIds"@, JsonView::Raw(json_text(text_list(m.derived_host_ids)))));
    assert(e[13] == ("archiveTip"@, JsonView::Text(m.archive_tip)));
    signed_decimal_reads_back(m.covered_from);
    signed_decimal_reads_back(m.compact_point);
    signed_decimal_reads_back(m.total_tokens);
    signed_decimal_reads_back(m.tail_tokens);
    decimal_reads_back(m.body_item_count as u64);
}

impl CompactMarker {
    /// The marker that a durable record holds; none where the record names one of
    /// a marker's fields twice. The record of a marker gives the marker back.
    pub fn parse_durable_writeback_record(s: &str) -> (r: Option<Self>)
        ensures
            r.deep_view() == (match after_prefix(s@, "lhc_compact_durable "@) {
                Some(json) => marker_read(json),
                None => None,
            }),
            forall|m: CompactMarkerView|
                s@ == #[trigger] record_text(m) && is_plain(m.bands, 99) ==> r.deep_view() == Some(
                    kept(m),
                ),
    {
        proof {
            assert forall|m: CompactMarkerView| s@ == #[trigger] record_text(m) implies after_prefix(
                s@,
                "lhc_compact_durable "@,
            ) == Some(json_text(record_json(m))) by {
                lemma_after_prefix("lhc_compact_durable "@, json_text(record_json(m)));
            }
        }
        match strip_prefix(s, "lhc_compact_durable ") {
            Some(json) => parse_marker(json.as_str()),
            None => None,
        }
    }
}

// ---------------------------------------------------------------------------
// Markers in the store
// ---------------------------------------------------------------------------

/// Where the text of an event speaks of a marker: what it says.
pub open spec fn marker_notation(s: Seq<char>) -> Option<Seq<char>> {
    match after_prefix(s, "lhc_compact_durable "@) {
        Some(json) => Some(json),
        None => match after_prefix(s, "lhc_compact_marker "@) {
            Some(json) => Some(json),
            None => match after_occurrence(s, "lhc_compact_marker "@) {
                Some(json) => Some(trimmed(json)),
                None => None,
            },
        },
    }
}

/// Where the text of an event speaks of a marker: what it says.
pub fn find_marker_notation(s: &str) -> (r: Option<String>)
    ensures
        r.deep_view() == marker_notation(s@),
{
    match strip_prefix(s, "lhc_compact_durable ") {
        Some(json) => Some(json),
        None => match strip_prefix(s, "lhc_compact_marker ") {
            Some(json) => Some(json),
            None => match text_after(s, "lhc_compact_marker ") {
                Some(json) => Some(trim(json.as_str())),
                None => None,
            },
        },
    }
}

/// The marker that an event holds in full. A note holds only a part of one.
pub open spec fn marker_in(event: EventRecordView) -> Option<CompactMarkerView> {
    match event.payload {
        EventPayloadView::Text { text } => match marker_notation(text) {
            Some(json) => marker_read(json),
            None => None,
        },
        _ => None,
    }
}

fn find_marker(event: &EventRecord) -> (r: Option<CompactMarker>)
    ensures
        r.deep_view() == marker_in(event@),
{
    match &event.payload {
        EventPayload::Text { text } => match find_marker_notation(text.as_str()) {
            Some(json) => parse_marker(json.as_str()),
            None => None,
        },
        _ => None,
    }
}

/// The markers that the first `n` events hold.
pub open spec fn markers_in(events: Seq<EventRecordView>, n: int) -> Seq<CompactMarkerView>
    decreases n,
{
    if n <= 0 {
        Seq::empty()
    } else {
        match marker_in(events[n - 1]) {
            Some(m) => markers_in(events, n - 1).push(m),
            None => markers_in(events, n - 1),
        }
    }
}

/// Where those events stand in the store.
pub open spec fn marker_places(events: Seq<EventRecordView>, n: int) -> Seq<(i64, i64)>
    decreases n,
{
    if n <= 0 {
        Seq::empty()
    } else if marker_in(events[n - 1]) is Some {
        marker_places(events, n - 1).push((events[n - 1].event_order, 0))
    } else {
        marker_places(events, n - 1)
    }
}

/// How many markers are looked at, of `n`.
pub open spec fn looked_at(n: nat) -> nat {
    if n < DERIVED_MARKER_CAP {
        n
    } else {
        DERIVED_MARKER_CAP as nat
    }
}

/// Some markers, the last in order first, and no more than are looked at.
pub open spec fn newest_first(markers: Seq<CompactMarkerView>, order: Seq<int>) -> Seq<
    CompactMarkerView,
> {
    Seq::new(looked_at(order.len()), |k: int| markers[order[order.len() - 1 - k]])
}

/// The newest markers of a store.
pub open spec fn recent_markers(events: Seq<EventRecordView>) -> Seq<CompactMarkerView> {
    newest_first(
        markers_in(events, events.len() as int),
        stable_order(marker_places(events, events.len() as int)),
    )
}

fn markers_from_archive(events: &Vec<EventRecord>) -> (r: Vec<CompactMarker>)
    ensures
        r.deep_view() == recent_markers(events.deep_view()),
{
    let ghost view = events.deep_view();
    let mut markers: Vec<CompactMarker> = Vec::new();
    let mut places: Vec<(i64, i64)> = Vec::new();
    assert(markers.deep_view() =~= markers_in(view, 0));
    assert(places@ =~= marker_places(view, 0));
    let mut i: usize = 0;
    while i < events.len()
        invariant
            i <= events.len(),
            view == events.deep_view(),
            markers.deep_view() == markers_in(view, i as int),
            places@ == marker_places(view, i as int),
            places.len() == markers.len(),
        decreases events.len() - i,
    {
        let ghost before = markers.deep_view();
        assert(view[i as int] == events@[i as int]@);
        if let Some(m) = find_marker(&events[i]) {
            let ghost m_view = m@;
            markers.push(m);
            places.push((events[i].event_order, 0));
            assert(markers.deep_view() =~= before.push(m_view));
        }
        i = i + 1;
    }
    let order = sorted_positions(&places);
    let ghost all = markers.deep_view();
    let ghost order_view = stable_order(places@);
    let n: usize = order.len();
    let mut out: Vec<CompactMarker> = Vec::new();
    assert(out.deep_view() =~= newest_first(all, order_view).take(0));
    let mut k: usize = 0;
    while k < n && k < DERIVED_MARKER_CAP
        invariant
            k <= n,
            k <= DERIVED_MARKER_CAP,
            n == order.len(),
            n == markers.len(),
            all == markers.deep_view(),
            positions(order@) == order_view,
            order_view.len() == n,
            forall|p: int| 0 <= p < n ==> #[trigger] order@[p] < n,
            out.deep_view() == newest_first(all, order_view).take(k as int),
        decreases n - k,
    {
        let ghost before = out.deep_view();
        let at: usize = order[n - 1 - k];
        assert(positions(order@)[n - 1 - k] == at);
        assert(all[at as int] == markers@[at as int]@);
        out.push(markers[at].clone());
        assert(out.deep_view() =~= before.push(all[at as int]));
        assert(newest_first(all, order_view).take(k + 1) =~= newest_first(all, order_view).take(
            k as int,
        ).push(all[at as int]));
        k = k + 1;
    }
    assert(newest_first(all, order_view).take(k as int) =~= newest_first(all, order_view));
    out
}

/// The place up to which a compact went, in the key of its marker.
pub open spec fn compact_point_of(key: Seq<char>) -> Option<i64> {
    match after_prefix(key, "codex:"@) {
        Some(rest) => match cut(rest, ':') {
            Some((_, tail)) => match cut(tail, ':') {
                Some((segment, behind)) => if segment == COMPACT_MARKER_KEY_SEGMENT@ {
                    match cut(behind, ':') {
                        Some((_, end)) => parsed_i64(leading_field(end)),
                        None => None,
                    }
                } else {
                    None
                },
                None => None,
            },
            None => None,
        },
        None => None,
    }
}

/// The place up to which a compact went, from the key of its marker alone.
pub fn compact_point_from_marker_key(key: &str) -> (r: Option<i64>)
    ensures
        r == compact_point_of(key@),
{
    let rest = match strip_prefix(key, "codex:") {
        Some(rest) => rest,
        None => {
            return None;
        },
    };
    let tail = match split_once(rest.as_str(), ':') {
        Some((_, tail)) => tail,
        None => {
            return None;
        },
    };
    let behind = match split_once(tail.as_str(), ':') {
        Some((segment, behind)) => if text_eq(segment.as_str(), COMPACT_MARKER_KEY_SEGMENT) {
            behind
        } else {
            return None;
        },
        None => {
            return None;
        },
    };
    match split_once(behind.as_str(), ':') {
        Some((_, end)) => parse_i64(first_field(end.as_str()).as_str()),
        None => None,
    }
}

/// Some marker records the digest.
pub open spec fn records_digest(markers: Seq<CompactMarkerView>, digest: Seq<char>) -> bool {
    exists|k: int|
        0 <= k < markers.len() && (#[trigger] markers[k]).derived_content_digests.contains(digest)
}

/// Some marker records the identity.
pub open spec fn records_id(markers: Seq<CompactMarkerView>, id: Seq<char>) -> bool {
    exists|k: int| 0 <= k < markers.len() && (#[trigger] markers[k]).derived_host_ids.contains(id)
}

fn insert_all(set: &mut TextSet, texts: &Vec<String>)
    ensures
        forall|s: Seq<char>| #[trigger]
            final(set)@.contains(s) == (old(set)@.contains(s) || texts.deep_view().contains(s)),
{
    let ghost start = set@;
    let ghost view = texts.deep_view();
    let mut i: usize = 0;
    while i < texts.len()
        invariant
            i <= texts.len(),
            view == texts.deep_view(),
            forall|s: Seq<char>| #[trigger]
                set@.contains(s) == (start.contains(s) || exists|j: int|
                    0 <= j < i && #[trigger] view[j] == s),
        decreases texts.len() - i,
    {
        assert(view[i as int] == texts@[i as int]@);
        set.insert(texts[i].as_str());
        i = i + 1;
    }
}

/// The digests of what was served before, as the newest markers of a store
/// record them.
pub fn derived_digests_from_archive(events: &Vec<EventRecord>) -> (r: TextSet)
    ensures
        forall|s: Seq<char>| #[trigger]
            r@.contains(s) == records_digest(recent_markers(events.deep_view()), s),
{
    let markers = markers_from_archive(events);
    let ghost view = markers.deep_view();
    let mut out = TextSet::new();
    let mut k: usize = 0;
    while k < markers.len()
        invariant
            k <= markers.len(),
            view == markers.deep_view(),
            forall|s: Seq<char>| #[trigger]
                out@.contains(s) == exists|j: int|
                    0 <= j < k && (#[trigger] view[j]).derived_content_digests.contains(s),
        decreases markers.len() - k,
    {
        assert(view[k as int] == markers@[k as int]@);
        insert_all(&mut out, &markers[k].derived_content_digests);
        k = k + 1;
    }
    out
}

/// The identities of what was served before, as the newest markers of a store
/// record them.
pub fn derived_ids_from_archive(events: &Vec<EventRecord>) -> (r: TextSet)
    ensures
        forall|s: Seq<char>| #[trigger]
            r@.contains(s) == records_id(recent_markers(events.deep_view()), s),
{
    let markers = markers_from_archive(events);
    let ghost view = markers.deep_view();
    let mut out = TextSet::new();
    let mut k: usize = 0;
    while k < markers.len()
        invariant
            k <= markers.len(),
            view == markers.deep_view(),
            forall|s: Seq<char>| #[trigger]
                out@.contains(s) == exists|j: int|
                    0 <= j < k && (#[trigger] view[j]).derived_host_ids.contains(s),
        decreases markers.len() - k,
    {
        assert(view[k as int] == markers@[k as int]@);
        insert_all(&mut out, &markers[k].derived_host_ids);
        k = k + 1;
    }
    out
}

// ---------------------------------------------------------------------------
// Laws
// ---------------------------------------------------------------------------

/// What stands in a marker's key behind the thread.
spec fn key_tail(
    receipt: CompactReceiptView,
    digests: Seq<Seq<char>>,
    archive_tip: Seq<char>,
) -> Seq<char> {
    COMPACT_MARKER_KEY_SEGMENT@ + (seq![':'] + (key_escaped(archive_tip) + (seq![':'] + (
    signed_decimal(receipt.compact_point as int) + ":"@ + signed_decimal(
        receipt.covered_from as int,
    ) + ":"@ + fingerprint(digests)))))
}

proof fn lemma_marker_key_fields(
    receipt: CompactReceiptView,
    thread_id: Seq<char>,
    digests: Seq<Seq<char>>,
    archive_tip: Seq<char>,
)
    ensures
        ({
            let key = marker_key_of(receipt, thread_id, digests, archive_tip);
            let tail = key_tail(receipt, digests, archive_tip);
            &&& after_prefix(key, "codex:"@) is Some
            &&& cut(after_prefix(key, "codex:"@)->0, ':') == Some((key_escaped(thread_id), tail))
            &&& cut(tail, ':') is Some
            &&& (cut(tail, ':')->0).0 == COMPACT_MARKER_KEY_SEGMENT@
            &&& cut((cut(tail, ':')->0).1, ':') is Some
            &&& (cut((cut(tail, ':')->0).1, ':')->0).0 == key_escaped(archive_tip)
            &&& leading_field((cut((cut(tail, ':')->0).1, ':')->0).1) == signed_decimal(
                receipt.compact_point as int,
            )
        }),
{
    let key = marker_key_of(receipt, thread_id, digests, archive_tip);
    let tail = key_tail(receipt, digests, archive_tip);
    let end = signed_decimal(receipt.compact_point as int) + ":"@ + signed_decimal(
        receipt.covered_from as int,
    ) + ":"@ + fingerprint(digests);
    reveal_strlit(":");
    assert(":"@ =~= seq![':']);
    let rest = key_escaped(thread_id) + seq![':'] + tail;
    assert(key =~= "codex:"@ + rest);
    lemma_after_prefix("codex:"@, rest);
    key_escaped_has_no_separator(thread_id);
    lemma_cut_pair(key_escaped(thread_id), ':', tail);
    reveal_strlit("compact_marker");
    assert(!COMPACT_MARKER_KEY_SEGMENT@.contains(':'));
    let behind = key_escaped(archive_tip) + seq![':'] + end;
    assert(tail =~= COMPACT_MARKER_KEY_SEGMENT@ + seq![':'] + behind);
    lemma_cut_pair(COMPACT_MARKER_KEY_SEGMENT@, ':', behind);
    key_escaped_has_no_separator(archive_tip);
    lemma_cut_pair(key_escaped(archive_tip), ':', end);
    let point = signed_decimal(receipt.compact_point as int);
    let n = receipt.compact_point as int;
    lemma_decimal_digits(if n < 0 { (-n) as nat } else { n as nat });
    assert forall|j: int| 0 <= j < point.len() implies end[j] != ':' by {
        assert(end[j] == point[j]);
        if n < 0 {
            if j > 0 {
                assert(point[j] == decimal((-n) as nat)[j - 1]);
                assert(crate::text::is_digit(decimal((-n) as nat)[j - 1]));
            }
        } else {
            assert(crate::text::is_digit(decimal(n as nat)[j]));
        }
    }
    assert(end[point.len() as int] == ':');
    crate::text::lemma_first_from_unique(end, ':', 0, point.len() as int);
    assert(end.subrange(0, point.len() as int) =~= point);
}

/// The key of every marker is recognised as one.
pub proof fn marker_keys_are_recognised(
    receipt: CompactReceiptView,
    thread_id: Seq<char>,
    digests: Seq<Seq<char>>,
    archive_tip: Seq<char>,
)
    ensures
        is_marker_key(marker_key_of(receipt, thread_id, digests, archive_tip)),
{
    lemma_marker_key_fields(receipt, thread_id, digests, archive_tip);
    let tail = key_tail(receipt, digests, archive_tip);
    crate::text::lemma_first_from(tail, ':', 0);
}

/// The key of a marker gives back the place up to which its compact went.
pub proof fn marker_key_holds_the_compact_point(
    receipt: CompactReceiptView,
    thread_id: Seq<char>,
    digests: Seq<Seq<char>>,
    archive_tip: Seq<char>,
)
    ensures
        compact_point_of(marker_key_of(receipt, thread_id, digests, archive_tip)) == Some(
            receipt.compact_point,
        ),
{
    lemma_marker_key_fields(receipt, thread_id, digests, archive_tip);
    signed_decimal_reads_back(receipt.compact_point);
}

/// Two compacts of a store that has grown in between never share a key,
/// whatever they cover.
pub proof fn distinct_tips_give_distinct_keys(
    first: CompactReceiptView,
    second: CompactReceiptView,
    thread_id: Seq<char>,
    first_digests: Seq<Seq<char>>,
    second_digests: Seq<Seq<char>>,
    first_tip: Seq<char>,
    second_tip: Seq<char>,
)
    requires
        first_tip != second_tip,
    ensures
        marker_key_of(first, thread_id, first_digests, first_tip) != marker_key_of(
            second,
            thread_id,
            second_digests,
            second_tip,
        ),
{
    lemma_marker_key_fields(first, thread_id, first_digests, first_tip);
    lemma_marker_key_fields(second, thread_id, second_digests, second_tip);
    escapes_are_taken_back(first_tip);
    escapes_are_taken_back(second_tip);
}

/// A compact that is tried again has the same key, though its view be another.
pub proof fn retries_share_a_key(
    receipt: CompactReceiptView,
    view_id: Seq<char>,
    thread_id: Seq<char>,
    digests: Seq<Seq<char>>,
    archive_tip: Seq<char>,
)
    ensures
        marker_key_of(
            CompactReceiptView { view_id, ..receipt },
            thread_id,
            digests,
            archive_tip,
        ) == marker_key_of(receipt, thread_id, digests, archive_tip),
{
}

/// A note is the same whatever the lists of what was served hold: it does not
/// grow with them.
pub proof fn note_leaves_out_the_lists(
    m: CompactMarkerView,
    digests: Seq<Seq<char>>,
    ids: Seq<Seq<char>>,
)
    ensures
        note_text(
            CompactMarkerView { derived_content_digests: digests, derived_host_ids: ids, ..m },
        ) == note_text(m),
{
}

proof fn lemma_places_match(events: Seq<EventRecordView>, n: int)
    ensures
        marker_places(events, n).len() == markers_in(events, n).len(),
    decreases n,
{
    if n > 0 {
        lemma_places_match(events, n - 1);
    }
}

/// The markers that are looked at are the newest of all, the newest first.
pub proof fn newest_markers_are_looked_at(events: Seq<EventRecordView>)
    ensures
        ({
            let all = markers_in(events, events.len() as int);
            let places = marker_places(events, events.len() as int);
            let order = stable_order(places);
            &&& recent_markers(events).len() <= DERIVED_MARKER_CAP
            &&& all.len() <= DERIVED_MARKER_CAP ==> recent_markers(events).len() == all.len()
            &&& forall|k: int|
                0 <= k < recent_markers(events).len() ==> #[trigger] recent_markers(events)[k]
                    == all[order[order.len() - 1 - k]]
            &&& forall|p: int, q: int|
                0 <= p < q < order.len() ==> places[#[trigger] order[p]].0
                    <= places[#[trigger] order[q]].0
        }),
{
    lemma_places_match(events, events.len() as int);
    let places = marker_places(events, events.len() as int);
    crate::ordering::stable_order_is_sorted(places);
    let order = stable_order(places);
    assert forall|p: int, q: int| 0 <= p < q < order.len() implies places[#[trigger] order[p]].0
        <= places[#[trigger] order[q]].0 by {
        assert(crate::ordering::in_order(places, order[p], order[q]));
    }
}

} // verus!
