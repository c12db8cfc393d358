//! Stable idempotency keys for captured events.
//!
//! An item with a host identity is keyed by that identity and its content
//! digest, so the same item presented again mints the same key. An item
//! without one is keyed by its digest and a running occurrence number.
//!
//! ```text
//! codex:{thread}:id:{item_id}:{digest}:{event_kind}[:{part}]
//! codex:{thread}:anon:{digest}:{occurrence}:{event_kind}[:{part}]
//! codex:{thread}:turn_end:{turn_id}:{reason}
//! codex:{thread}:model_change:{previous}:{new}
//! codex:{thread}:thinking_level_change:{previous}:{new}
//! ```
//!
//! Thread, item and turn identities stand escaped (`%` as `%25`, `:` as `%3A`).

use vstd::prelude::*;
use vstd::string::*;
use vstd::utf8::encode_utf8;

use crate::collections::{TextMap, TextSet};
use crate::json::{hex_digit, json_text};
use crate::protocol::{item_id, ResponseItem, ResponseItemView};
use crate::text::{after_prefix, begins_with, cut, decimal, parsed_u64};
use crate::text::{
    chars_of, decimal_text, lemma_cut_pair, lemma_decimal_digits, parse_u64, split_once,
    strip_prefix, text,
};
use crate::wire::Wire;

verus! {

// ---------------------------------------------------------------------------
// Occurrence numbers
// ---------------------------------------------------------------------------

/// Running occurrence numbers, by item digest (for items without an identity).
#[derive(Debug)]
pub struct OccurrenceTracker {
    counts: TextMap<u64>,
    resolved: TextSet,
}

/// What an [`OccurrenceTracker`] stands for.
#[verifier::ext_equal]
pub struct OccurrenceTrackerView {
    /// The next occurrence number of each digest that has come up.
    pub counts: Map<Seq<char>, u64>,
    /// The digests whose stored numbers have been loaded.
    pub resolved: Set<Seq<char>>,
}

impl OccurrenceTrackerView {
    /// The next occurrence number of `digest`.
    pub open spec fn count(self, digest: Seq<char>) -> u64 {
        if self.counts.contains_key(digest) {
            self.counts[digest]
        } else {
            0
        }
    }

    /// The item takes no occurrence number, or its own can still grow.
    pub open spec fn has_room_for(self, item: ResponseItemView) -> bool {
        stable_id(item) is None ==> self.count(digest_of(item)) < u64::MAX
    }

    /// The tracker after an occurrence of `digest` was handed out.
    pub open spec fn advanced(self, digest: Seq<char>) -> OccurrenceTrackerView {
        OccurrenceTrackerView {
            counts: self.counts.insert(digest, (self.count(digest) + 1) as u64),
            resolved: self.resolved,
        }
    }

    /// The tracker once occurrence `occ` of `digest` is known to be taken.
    pub open spec fn observed(self, digest: Seq<char>, occ: u64) -> OccurrenceTrackerView {
        let next = if occ < u64::MAX {
            (occ + 1) as u64
        } else {
            occ
        };
        OccurrenceTrackerView {
            counts: self.counts.insert(
                digest,
                if self.count(digest) >= next {
                    self.count(digest)
                } else {
                    next
                },
            ),
            resolved: self.resolved,
        }
    }
}

impl View for OccurrenceTracker {
    type V = OccurrenceTrackerView;

    closed spec fn view(&self) -> OccurrenceTrackerView {
        OccurrenceTrackerView { counts: self.counts@, resolved: self.resolved@ }
    }
}

impl OccurrenceTracker {
    /// A tracker that has seen nothing.
    pub fn new() -> (r: Self)
        ensures
            r@ == (OccurrenceTrackerView { counts: Map::empty(), resolved: Set::empty() }),
    {
        OccurrenceTracker { counts: TextMap::new(), resolved: TextSet::new() }
    }

    fn count(&self, digest: &str) -> (r: u64)
        ensures
            r == self@.count(digest@),
    {
        match self.counts.get(digest) {
            Some(n) => *n,
            None => 0,
        }
    }

    /// Whether an item takes no occurrence number, or its own can still grow.
    pub fn has_room_for(&self, item: &ResponseItem) -> (r: bool)
        ensures
            r == self@.has_room_for(item@),
    {
        item_stable_id(item).is_some() || self.count(item_digest(item).as_str()) < u64::MAX
    }

    /// Hands out the next occurrence number of `digest`.
    pub fn next(&mut self, digest: &str) -> (r: u64)
        requires
            old(self)@.count(digest@) < u64::MAX,
        ensures
            r == old(self)@.count(digest@),
            final(self)@ == old(self)@.advanced(digest@),
    {
        let occ: u64 = self.count(digest);
        self.counts.insert(digest, occ + 1);
        occ
    }

    /// Takes over every number of `other` that is ahead, and what it has resolved.
    pub fn merge_monotonic(&mut self, other: &OccurrenceTracker)
        ensures
            final(self)@.resolved == old(self)@.resolved.union(other@.resolved),
            final(self)@.counts.dom() == old(self)@.counts.dom().union(other@.counts.dom()),
            forall|digest: Seq<char>|
                #![trigger final(self)@.count(digest)]
                final(self)@.count(digest) == (if old(self)@.count(digest) >= other@.count(
                    digest,
                ) {
                    old(self)@.count(digest)
                } else {
                    other@.count(digest)
                }),
    {
        let n: usize = other.counts.len();
        let ghost keys = other.counts.keys();
        let ghost start = self@;
        let mut i: usize = 0;
        while i < n
            invariant
                i <= n,
                n == keys.len(),
                keys == other.counts.keys(),
                keys.no_duplicates(),
                start == old(self)@,
                self@.resolved == start.resolved,
                self@.counts.dom() == start.counts.dom().union(keys.take(i as int).to_set()),
                forall|digest: Seq<char>|
                    #![trigger self@.count(digest)]
                    self@.count(digest) == (if keys.take(i as int).contains(digest)
                        && other@.count(digest) > start.count(digest) {
                        other@.count(digest)
                    } else {
                        start.count(digest)
                    }),
            decreases n - i,
        {
            let (key, value) = other.counts.at(i);
            let mine: u64 = self.count(key.as_str());
            let ghost before = self@;
            let merged: u64 = if mine >= *value {
                mine
            } else {
                *value
            };
            self.counts.insert(key.as_str(), merged);
            proof {
                assert(keys[i as int] == key@);
                assert(other@.count(key@) == *value);
                assert(before.count(key@) == mine);
                assert(keys.take(i + 1) =~= keys.take(i as int).push(key@));
                assert forall|d: Seq<char>| keys.take(i + 1).contains(d) <==> (keys.take(
                    i as int,
                ).contains(d) || d == key@) by {
                    if keys.take(i as int).contains(d) {
                        let j = choose|j: int|
                            0 <= j < keys.take(i as int).len() && keys.take(i as int)[j] == d;
                        assert(keys.take(i + 1)[j] == d);
                    }
                    assert(keys.take(i + 1)[i as int] == key@);
                }
                assert(!keys.take(i as int).contains(key@));
                assert(self@.counts.dom() =~= start.counts.dom().union(
                    keys.take(i + 1).to_set(),
                ));
                assert forall|d: Seq<char>| #[trigger] self@.count(d) == (if keys.take(
                    i + 1,
                ).contains(d) && other@.count(d) > start.count(d) {
                    other@.count(d)
                } else {
                    start.count(d)
                }) by {
                    assert(before.count(d) == (if keys.take(i as int).contains(d)
                        && other@.count(d) > start.count(d) {
                        other@.count(d)
                    } else {
                        start.count(d)
                    }));
                    assert(self@.count(d) == (if d == key@ {
                        merged
                    } else {
                        before.count(d)
                    }));
                }
            }
            i = i + 1;
        }
        assert(keys.take(n as int) =~= keys);
        let m: usize = other.resolved.len();
        let ghost order = other.resolved.order();
        let ghost merged_view = self@;
        let mut k: usize = 0;
        while k < m
            invariant
                k <= m,
                m == order.len(),
                order == other.resolved.order(),
                self@.counts == merged_view.counts,
                self@.resolved == start.resolved.union(order.take(k as int).to_set()),
            decreases m - k,
        {
            let s = other.resolved.at(k);
            self.resolved.insert(s.as_str());
            proof {
                assert(order.take(k + 1) =~= order.take(k as int).push(order[k as int]));
                assert forall|x: Seq<char>| order.take(k + 1).contains(x) <==> (order.take(
                    k as int,
                ).contains(x) || x == s@) by {
                    if order.take(k as int).contains(x) {
                        let j = choose|j: int|
                            0 <= j < order.take(k as int).len() && order.take(k as int)[j] == x;
                        assert(order.take(k + 1)[j] == x);
                    }
                    assert(order.take(k + 1)[k as int] == s@);
                }
                assert(self@.resolved =~= start.resolved.union(order.take(k + 1).to_set()));
            }
            k = k + 1;
        }
        proof {
            assert(order.take(m as int) =~= order);
            assert(self@.resolved =~= start.resolved.union(other@.resolved));
            assert(self@.counts.dom() =~= start.counts.dom().union(other@.counts.dom())) by {
                assert forall|d: Seq<char>| keys.to_set().contains(d)
                    == other@.counts.dom().contains(d) by {
                    assert(keys.contains(d) <==> other.counts@.contains_key(d));
                }
            }
            assert forall|digest: Seq<char>| #[trigger] self@.count(digest) == (if start.count(
                digest,
            ) >= other@.count(digest) {
                start.count(digest)
            } else {
                other@.count(digest)
            }) by {
                assert(keys.contains(digest) <==> other.counts@.contains_key(digest));
                assert(self@.count(digest) == merged_view.count(digest));
            }
        }
    }

    /// Notes that occurrence `occ` of `digest` is taken.
    pub fn observe(&mut self, digest: &str, occ: u64)
        ensures
            final(self)@ == old(self)@.observed(digest@, occ),
    {
        let mine: u64 = self.count(digest);
        let next: u64 = if occ < u64::MAX {
            occ + 1
        } else {
            occ
        };
        self.counts.insert(
            digest,
            if mine >= next {
                mine
            } else {
                next
            },
        );
    }

    /// Whether the stored numbers of `digest` have been loaded.
    pub fn is_resolved(&self, digest: &str) -> (r: bool)
        ensures
            r == self@.resolved.contains(digest@),
    {
        self.resolved.contains(digest)
    }

    /// Notes that the stored numbers of `digest` have been loaded.
    pub fn mark_resolved(&mut self, digest: &str)
        ensures
            final(self)@.counts == old(self)@.counts,
            final(self)@.resolved == old(self)@.resolved.insert(digest@),
    {
        self.resolved.insert(digest)
    }
}

// ---------------------------------------------------------------------------
// Escaped identities
// ---------------------------------------------------------------------------

/// How one character of an identity stands in a key.
pub open spec fn key_char(c: char) -> Seq<char> {
    if c == '%' {
        seq!['%', '2', '5']
    } else if c == ':' {
        seq!['%', '3', 'A']
    } else {
        seq![c]
    }
}

/// An identity as it stands in a key.
pub open spec fn key_escaped(s: Seq<char>) -> Seq<char>
    decreases s.len(),
{
    if s.len() == 0 {
        Seq::empty()
    } else {
        key_escaped(s.drop_last()) + key_char(s.last())
    }
}

/// Escapes `:` and `%`, so that a key can be taken apart again.
pub fn encode_thread_id(thread_id: &str) -> (r: String)
    ensures
        r@ == key_escaped(thread_id@),
{
    let chars = chars_of(thread_id);
    let mut out = String::new();
    let mut i: usize = 0;
    while i < chars.len()
        invariant
            i <= chars.len(),
            chars@ == thread_id@,
            out@ == key_escaped(chars@.take(i as int)),
        decreases chars.len() - i,
    {
        let c = chars[i];
        let ghost before = out@;
        assert(chars@.take(i + 1).drop_last() =~= chars@.take(i as int));
        if c == '%' {
            out.push('%');
            out.push('2');
            out.push('5');
        } else if c == ':' {
            out.push('%');
            out.push('3');
            out.push('A');
        } else {
            out.push(c);
        }
        assert(out@ =~= before + key_char(c));
        i = i + 1;
    }
    assert(chars@.take(i as int) =~= chars@);
    out
}

/// An escaped identity holds no `:`.
pub proof fn key_escaped_has_no_separator(s: Seq<char>)
    ensures
        !key_escaped(s).contains(':'),
    decreases s.len(),
{
    if s.len() > 0 {
        key_escaped_has_no_separator(s.drop_last());
        let a = key_escaped(s.drop_last());
        let b = key_char(s.last());
        assert forall|i: int| 0 <= i < (a + b).len() implies (a + b)[i] != ':' by {
            if i < a.len() {
                assert(a.contains(a[i]));
            }
        }
    }
}

// ---------------------------------------------------------------------------
// Digests
// ---------------------------------------------------------------------------

/// The SHA-256 digest of some bytes, as `sha2::Sha256` computes it.
pub uninterp spec fn sha256_of(bytes: Seq<u8>) -> Seq<u8>;

/// `sha2::Sha256::digest`: 32 bytes that are a function of the bytes given.
/// Which bytes they are is left unsaid.
#[verifier::external_body]
pub(crate) fn sha256(bytes: &[u8]) -> (r: Vec<u8>)
    ensures
        r@ == sha256_of(bytes@),
        r@.len() == 32,
{
    <sha2::Sha256 as sha2::Digest>::digest(bytes).to_vec()
}

/// Bytes in lower-case hexadecimal.
pub open spec fn hex(bytes: Seq<u8>) -> Seq<char>
    decreases bytes.len(),
{
    if bytes.len() == 0 {
        Seq::empty()
    } else {
        hex(bytes.drop_last()).push(hex_digit(bytes.last() as nat / 16)).push(
            hex_digit(bytes.last() as nat % 16),
        )
    }
}

fn hex_char(d: u8) -> (r: char)
    requires
        d < 16,
    ensures
        r == hex_digit(d as nat),
{
    if d < 10 {
        (48u8 + d) as char
    } else {
        (87u8 + d) as char
    }
}

/// Bytes in lower-case hexadecimal.
pub fn hex_encode(bytes: &[u8]) -> (r: String)
    ensures
        r@ == hex(bytes@),
{
    let mut out = String::new();
    let mut i: usize = 0;
    while i < bytes.len()
        invariant
            i <= bytes@.len(),
            out@ == hex(bytes@.take(i as int)),
        decreases bytes@.len() - i,
    {
        let b = bytes[i];
        assert(bytes@.take(i + 1).drop_last() =~= bytes@.take(i as int));
        out.push(hex_char(b / 16));
        out.push(hex_char(b % 16));
        i = i + 1;
    }
    assert(bytes@.take(i as int) =~= bytes@);
    out
}

/// Hexadecimal holds no `:`, and two characters for each byte.
pub proof fn lemma_hex(bytes: Seq<u8>)
    ensures
        !hex(bytes).contains(':'),
        hex(bytes).len() == 2 * bytes.len(),
    decreases bytes.len(),
{
    if bytes.len() > 0 {
        lemma_hex(bytes.drop_last());
        let a = hex(bytes.drop_last());
        assert forall|i: int| 0 <= i < hex(bytes).len() implies hex(bytes)[i] != ':' by {
            if i < a.len() {
                assert(a.contains(a[i]));
            }
        }
    }
}

/// The digest of an item: of its JSON image, in hexadecimal.
pub open spec fn digest_of(item: ResponseItemView) -> Seq<char> {
    hex(sha256_of(encode_utf8(json_text(ResponseItem::wire(item)))))
}

/// The digest of an item: of its JSON image, in hexadecimal.
pub fn item_digest(item: &ResponseItem) -> (r: String)
    ensures
        r@ == digest_of(item@),
        r@.len() == 64,
        !r@.contains(':'),
{
    let image = item.to_wire().to_text();
    let bytes = sha256(image.as_str().as_bytes());
    proof {
        lemma_hex(bytes@);
    }
    hex_encode(bytes.as_slice())
}

/// The identity of an item, when it has one that is not empty.
pub open spec fn stable_id(item: ResponseItemView) -> Option<Seq<char>> {
    match item_id(item) {
        Some(s) => if s.len() > 0 {
            Some(s)
        } else {
            None
        },
        None => None,
    }
}

/// The identity of an item, when it has one that is not empty.
pub fn item_stable_id(item: &ResponseItem) -> (r: Option<String>)
    ensures
        r.deep_view() == stable_id(item@),
{
    match item.id() {
        Some(s) => if s.as_str().is_empty() {
            None
        } else {
            Some(s.clone())
        },
        None => None,
    }
}

// ---------------------------------------------------------------------------
// Keys
// ---------------------------------------------------------------------------

/// `:` and the part, when there is one.
pub open spec fn part_suffix(part: Option<Seq<char>>) -> Seq<char> {
    match part {
        Some(p) => ":"@ + p,
        None => Seq::empty(),
    }
}

/// The key of an event that an item gives rise to.
pub open spec fn event_key(
    thread_id: Seq<char>,
    stable_id: Option<Seq<char>>,
    digest: Seq<char>,
    occurrence: nat,
    event_kind: Seq<char>,
    part: Option<Seq<char>>,
) -> Seq<char> {
    match stable_id {
        Some(id) => "codex:"@ + key_escaped(thread_id) + ":id:"@ + key_escaped(id) + ":"@ + digest
            + ":"@ + event_kind + part_suffix(part),
        None => "codex:"@ + key_escaped(thread_id) + ":anon:"@ + digest + ":"@ + decimal(
            occurrence,
        ) + ":"@ + event_kind + part_suffix(part),
    }
}

fn append_part(out: &mut String, part: Option<&str>)
    ensures
        final(out)@ == old(out)@ + part_suffix(part.deep_view()),
{
    match part {
        Some(p) => {
            let ghost before = out@;
            out.append(":");
            out.append(p);
            assert(out@ =~= before + (":"@ + p@));
        },
        None => {
            assert(out@ + Seq::<char>::empty() =~= out@);
        },
    }
}

/// The key of an event that an item gives rise to.
///
/// With an identity the key is that identity and the content digest; the
/// occurrence number plays no part. Without one it is the digest and the
/// occurrence number.
pub fn item_event_key(
    thread_id: &str,
    stable_id: Option<&str>,
    digest: &str,
    occurrence: u64,
    event_kind: &str,
    part: Option<&str>,
) -> (r: String)
    ensures
        r@ == event_key(
            thread_id@,
            stable_id.deep_view(),
            digest@,
            occurrence as nat,
            event_kind@,
            part.deep_view(),
        ),
{
    let tid = encode_thread_id(thread_id);
    let mut out = text("codex:");
    out.append(tid.as_str());
    match stable_id {
        Some(id) => {
            out.append(":id:");
            out.append(encode_thread_id(id).as_str());
            out.append(":");
            out.append(digest);
        },
        None => {
            out.append(":anon:");
            out.append(digest);
            out.append(":");
            out.append(decimal_text(occurrence as u128).as_str());
        },
    }
    out.append(":");
    out.append(event_kind);
    append_part(&mut out, part);
    out
}

/// The key of a turn boundary.
pub open spec fn turn_key(thread_id: Seq<char>, turn_id: Seq<char>, reason: Seq<char>) -> Seq<
    char,
> {
    "codex:"@ + key_escaped(thread_id) + ":turn_end:"@ + key_escaped(turn_id) + ":"@ + reason
}

/// The key of a turn boundary: the same for the same turn and reason.
pub fn turn_end_key(thread_id: &str, turn_id: &str, reason: &str) -> (r: String)
    ensures
        r@ == turn_key(thread_id@, turn_id@, reason@),
{
    let mut out = text("codex:");
    out.append(encode_thread_id(thread_id).as_str());
    out.append(":turn_end:");
    out.append(encode_thread_id(turn_id).as_str());
    out.append(":");
    out.append(reason);
    out
}

/// The key of a transition from one label to another.
pub open spec fn transition_key(
    thread_id: Seq<char>,
    what: Seq<char>,
    previous: Seq<char>,
    new: Seq<char>,
) -> Seq<char> {
    "codex:"@ + key_escaped(thread_id) + what + key_escaped(previous) + ":"@ + key_escaped(new)
}

fn change_key(thread_id: &str, what: &str, previous: &str, new: &str) -> (r: String)
    ensures
        r@ == transition_key(thread_id@, what@, previous@, new@),
{
    let mut out = text("codex:");
    out.append(encode_thread_id(thread_id).as_str());
    out.append(what);
    out.append(encode_thread_id(previous).as_str());
    out.append(":");
    out.append(encode_thread_id(new).as_str());
    out
}

/// The key of a model change: the same for the same transition.
pub fn model_change_key(thread_id: &str, previous: &str, new: &str) -> (r: String)
    ensures
        r@ == transition_key(thread_id@, ":model_change:"@, previous@, new@),
{
    change_key(thread_id, ":model_change:", previous, new)
}

/// The key of a thinking-level change: the same for the same transition.
pub fn thinking_level_change_key(thread_id: &str, previous: &str, new: &str) -> (r: String)
    ensures
        r@ == transition_key(thread_id@, ":thinking_level_change:"@, previous@, new@),
{
    change_key(thread_id, ":thinking_level_change:", previous, new)
}

// ---------------------------------------------------------------------------
// Reading keys back
// ---------------------------------------------------------------------------

/// What stands behind `codex:` and the thread of a key.
pub open spec fn key_after_thread(key: Seq<char>) -> Option<Seq<char>> {
    match after_prefix(key, "codex:"@) {
        Some(rest) => match cut(rest, ':') {
            Some(halves) => Some(halves.1),
            None => None,
        },
        None => None,
    }
}

/// What stands behind `codex:` and the thread of a key.
pub(crate) fn rest_after_thread(key: &str) -> (r: Option<String>)
    ensures
        r.deep_view() == key_after_thread(key@),
{
    match strip_prefix(key, "codex:") {
        Some(rest) => match split_once(rest.as_str(), ':') {
            Some(halves) => Some(halves.1),
            None => None,
        },
        None => None,
    }
}

/// The digest and occurrence number in the key of an item without identity.
pub open spec fn anon_key(key: Seq<char>) -> Option<(Seq<char>, u64)> {
    match key_after_thread(key) {
        None => None,
        Some(rest) => match after_prefix(rest, "anon:"@) {
            None => None,
            Some(body) => match cut(body, ':') {
                None => None,
                Some((digest, tail)) => match cut(tail, ':') {
                    None => None,
                    Some((number, _)) => match parsed_u64(number) {
                        Some(occ) => if digest.len() > 0 {
                            Some((digest, occ))
                        } else {
                            None
                        },
                        None => None,
                    },
                },
            },
        },
    }
}

/// The digest and occurrence number in the key of an item without identity.
pub fn parse_anon_key_digest_occ(key: &str) -> (r: Option<(String, u64)>)
    ensures
        r.deep_view() == anon_key(key@),
{
    let rest = match rest_after_thread(key) {
        Some(rest) => rest,
        None => {
            return None;
        },
    };
    let body = match strip_prefix(rest.as_str(), "anon:") {
        Some(body) => body,
        None => {
            return None;
        },
    };
    let (digest, tail) = match split_once(body.as_str(), ':') {
        Some(halves) => halves,
        None => {
            return None;
        },
    };
    let (number, _kind) = match split_once(tail.as_str(), ':') {
        Some(halves) => halves,
        None => {
            return None;
        },
    };
    match parse_u64(number.as_str()) {
        Some(occ) => if digest.as_str().is_empty() {
            None
        } else {
            Some((digest, occ))
        },
        None => None,
    }
}

/// A tracker that has observed every key of an item without identity in `keys`.
pub open spec fn seeded(keys: Seq<Seq<char>>) -> OccurrenceTrackerView
    decreases keys.len(),
{
    if keys.len() == 0 {
        OccurrenceTrackerView { counts: Map::empty(), resolved: Set::empty() }
    } else {
        match anon_key(keys.last()) {
            Some((digest, occ)) => seeded(keys.drop_last()).observed(digest, occ),
            None => seeded(keys.drop_last()),
        }
    }
}

/// A tracker seeded from stored keys. Only the keys of items without identity
/// count; the others are stable by themselves.
pub fn seed_occurrence_from_keys(keys: &Vec<String>) -> (r: OccurrenceTracker)
    ensures
        r@ == seeded(keys.deep_view()),
{
    let mut tracker = OccurrenceTracker::new();
    let ghost all = keys.deep_view();
    let mut i: usize = 0;
    while i < keys.len()
        invariant
            i <= keys.len(),
            all == keys.deep_view(),
            tracker@ == seeded(all.take(i as int)),
        decreases keys.len() - i,
    {
        assert(all.take(i + 1).drop_last() =~= all.take(i as int));
        assert(all.take(i + 1).last() == keys@[i as int]@);
        if let Some((digest, occ)) = parse_anon_key_digest_occ(keys[i].as_str()) {
            tracker.observe(digest.as_str(), occ);
        }
        i = i + 1;
    }
    assert(all.take(i as int) =~= all);
    tracker
}

// ---------------------------------------------------------------------------
// What keys guarantee
// ---------------------------------------------------------------------------

/// `s` begins with `prefix` when it is `prefix` and something.
pub proof fn lemma_after_prefix(prefix: Seq<char>, tail: Seq<char>)
    ensures
        after_prefix(prefix + tail, prefix) == Some(tail),
{
    assert((prefix + tail).subrange(0, prefix.len() as int) =~= prefix);
    assert((prefix + tail).subrange(prefix.len() as int, (prefix + tail).len() as int) =~= tail);
}

/// What stands behind the thread of a key can be read back, whatever the thread.
pub proof fn key_after_thread_reads_back(thread_id: Seq<char>, tail: Seq<char>)
    ensures
        key_after_thread("codex:"@ + key_escaped(thread_id) + seq![':'] + tail) == Some(tail),
{
    let e = key_escaped(thread_id);
    key_escaped_has_no_separator(thread_id);
    assert("codex:"@ + e + seq![':'] + tail =~= "codex:"@ + (e + seq![':'] + tail));
    lemma_after_prefix("codex:"@, e + seq![':'] + tail);
    lemma_cut_pair(e, ':', tail);
}

/// The key of an item without identity reads back as its digest and
/// occurrence number, provided that the digest is one that can stand in a key.
pub proof fn anon_key_reads_back(
    thread_id: Seq<char>,
    digest: Seq<char>,
    occurrence: u64,
    event_kind: Seq<char>,
    part: Option<Seq<char>>,
)
    requires
        digest.len() > 0,
        !digest.contains(':'),
    ensures
        anon_key(event_key(thread_id, None, digest, occurrence as nat, event_kind, part)) == Some(
            (digest, occurrence),
        ),
{
    let key = event_key(thread_id, None, digest, occurrence as nat, event_kind, part);
    let number = decimal(occurrence as nat);
    let last = event_kind + part_suffix(part);
    let tail = number + seq![':'] + last;
    let body = digest + seq![':'] + tail;
    reveal_strlit(":anon:");
    reveal_strlit("anon:");
    reveal_strlit(":");
    assert(":anon:"@ =~= seq![':'] + "anon:"@);
    assert(":"@ =~= seq![':']);
    assert(key =~= "codex:"@ + key_escaped(thread_id) + seq![':'] + ("anon:"@ + body));
    key_after_thread_reads_back(thread_id, "anon:"@ + body);
    lemma_after_prefix("anon:"@, body);
    lemma_cut_pair(digest, ':', tail);
    lemma_decimal_digits(occurrence as nat);
    assert(!number.contains(':')) by {
        assert forall|i: int| 0 <= i < number.len() implies number[i] != ':' by {
            assert(crate::text::is_digit(number[i]));
        }
    }
    lemma_cut_pair(number, ':', last);
    crate::text::decimal_reads_back(occurrence);
}

/// The key of an item with an identity never counts as an occurrence.
pub proof fn id_key_is_no_anon_key(
    thread_id: Seq<char>,
    id: Seq<char>,
    digest: Seq<char>,
    occurrence: nat,
    event_kind: Seq<char>,
    part: Option<Seq<char>>,
)
    ensures
        anon_key(event_key(thread_id, Some(id), digest, occurrence, event_kind, part)) is None,
{
    let key = event_key(thread_id, Some(id), digest, occurrence, event_kind, part);
    let body = key_escaped(id) + ":"@ + digest + ":"@ + event_kind + part_suffix(part);
    reveal_strlit(":id:");
    reveal_strlit("id:");
    reveal_strlit("anon:");
    assert(":id:"@ =~= seq![':'] + "id:"@);
    assert(key =~= "codex:"@ + key_escaped(thread_id) + seq![':'] + ("id:"@ + body));
    key_after_thread_reads_back(thread_id, "id:"@ + body);
    let rest = "id:"@ + body;
    assert(!begins_with(rest, "anon:"@)) by {
        if begins_with(rest, "anon:"@) {
            assert(rest.subrange(0, 5)[0] == 'i');
            assert("anon:"@[0] == 'a');
        }
    }
}

/// The same item presented again mints the same key, whatever occurrence
/// number is current by then.
pub proof fn id_key_ignores_occurrence(
    thread_id: Seq<char>,
    id: Seq<char>,
    digest: Seq<char>,
    one: nat,
    other: nat,
    event_kind: Seq<char>,
    part: Option<Seq<char>>,
)
    ensures
        event_key(thread_id, Some(id), digest, one, event_kind, part) == event_key(
            thread_id,
            Some(id),
            digest,
            other,
            event_kind,
            part,
        ),
{
}

/// Two occurrences of the same content without identity mint different keys,
/// as does different content.
pub proof fn anon_keys_differ(
    thread_id: Seq<char>,
    digest_a: Seq<char>,
    occurrence_a: u64,
    digest_b: Seq<char>,
    occurrence_b: u64,
    event_kind: Seq<char>,
    part: Option<Seq<char>>,
)
    requires
        digest_a.len() > 0,
        !digest_a.contains(':'),
        digest_b.len() > 0,
        !digest_b.contains(':'),
        (digest_a, occurrence_a) != (digest_b, occurrence_b),
    ensures
        event_key(thread_id, None, digest_a, occurrence_a as nat, event_kind, part) != event_key(
            thread_id,
            None,
            digest_b,
            occurrence_b as nat,
            event_kind,
            part,
        ),
{
    anon_key_reads_back(thread_id, digest_a, occurrence_a, event_kind, part);
    anon_key_reads_back(thread_id, digest_b, occurrence_b, event_kind, part);
}

/// Once a stored key of an item without identity has been seen, the number it
/// holds is never handed out again: whatever other keys are stored, the next
/// number lies beyond it (unless the range of numbers is exhausted).
pub proof fn seeding_never_reuses_a_stored_occurrence(
    keys: Seq<Seq<char>>,
    i: int,
    digest: Seq<char>,
    occ: u64,
)
    requires
        0 <= i < keys.len(),
        anon_key(keys[i]) == Some((digest, occ)),
        occ < u64::MAX,
    ensures
        seeded(keys).count(digest) > occ,
    decreases keys.len(),
{
    if i < keys.len() - 1 {
        seeding_never_reuses_a_stored_occurrence(keys.drop_last(), i, digest, occ);
    }
}

/// Nothing ever lowers an occurrence number: not handing one out, not
/// observing one.
pub proof fn occurrence_numbers_only_grow(
    tracker: OccurrenceTrackerView,
    digest: Seq<char>,
    occ: u64,
    other: Seq<char>,
)
    requires
        tracker.count(digest) < u64::MAX,
    ensures
        tracker.advanced(digest).count(other) >= tracker.count(other),
        tracker.advanced(digest).count(digest) > tracker.count(digest),
        tracker.observed(digest, occ).count(other) >= tracker.count(other),
        other != digest ==> tracker.advanced(digest).count(other) == tracker.count(other),
        other != digest ==> tracker.observed(digest, occ).count(other) == tracker.count(other),
{
}

/// The first half of `key_escaped`: its first character, then the rest.
pub proof fn lemma_key_escaped_first(s: Seq<char>)
    requires
        s.len() > 0,
    ensures
        key_escaped(s) == key_char(s[0]) + key_escaped(s.drop_first()),
    decreases s.len(),
{
    if s.len() == 1 {
        assert(s.drop_first() =~= Seq::<char>::empty());
        assert(s.drop_last() =~= Seq::<char>::empty());
        assert(key_escaped(Seq::<char>::empty()) =~= Seq::<char>::empty());
        assert(key_escaped(s) =~= key_char(s[0]) + key_escaped(s.drop_first()));
    } else {
        lemma_key_escaped_first(s.drop_last());
        assert(s.drop_last().drop_first() =~= s.drop_first().drop_last());
        assert(key_escaped(s) =~= key_char(s[0]) + key_escaped(s.drop_first()));
    }
}

} // verus!
