//! Identities of host items, as they stand in idempotency keys.

use vstd::prelude::*;
use vstd::string::*;
use vstd::utf8::{
    decode_utf8, encode_utf8, encode_utf8_decode_utf8, encode_utf8_valid_utf8, is_ascii_chars,
    is_ascii_chars_encode_utf8, valid_utf8,
};

use crate::idempotency::{
    event_key, key_escaped, key_escaped_has_no_separator, lemma_key_escaped_first, part_suffix,
};
use crate::text::{
    after_prefix, begins_with, chars_of, cut, first_from, has_prefix, lemma_cut_pair,
    lemma_first_from_unique, split_once, strip_prefix, substring, text, text_eq,
};

verus! {

// ---------------------------------------------------------------------------
// Escapes
// ---------------------------------------------------------------------------

/// The value of a hexadecimal digit.
pub open spec fn hex_value(c: char) -> Option<u8> {
    if '0' <= c <= '9' {
        Some((c as u32 - '0' as u32) as u8)
    } else if 'a' <= c <= 'f' {
        Some((c as u32 - 'a' as u32 + 10) as u8)
    } else if 'A' <= c <= 'F' {
        Some((c as u32 - 'A' as u32 + 10) as u8)
    } else {
        None
    }
}

/// The byte that two characters denote in hexadecimal; the first may be a sign.
pub open spec fn hex_pair(a: char, b: char) -> Option<u8> {
    match (hex_value(a), hex_value(b)) {
        (Some(h), Some(l)) => Some((h * 16 + l) as u8),
        (None, Some(l)) => if a == '+' {
            Some(l)
        } else {
            None
        },
        _ => None,
    }
}

fn hex_value_of(c: char) -> (r: Option<u8>)
    ensures
        r == hex_value(c),
        r matches Some(v) ==> v < 16,
{
    if '0' <= c && c <= '9' {
        Some((c as u32 - '0' as u32) as u8)
    } else if 'a' <= c && c <= 'f' {
        Some((c as u32 - 'a' as u32 + 10) as u8)
    } else if 'A' <= c && c <= 'F' {
        Some((c as u32 - 'A' as u32 + 10) as u8)
    } else {
        None
    }
}

fn hex_pair_of(a: char, b: char) -> (r: Option<u8>)
    ensures
        r == hex_pair(a, b),
{
    match (hex_value_of(a), hex_value_of(b)) {
        (Some(h), Some(l)) => Some(h * 16 + l),
        (None, Some(l)) => if a == '+' {
            Some(l)
        } else {
            None
        },
        _ => None,
    }
}

/// The byte that the escape at the start of a text denotes.
pub open spec fn escape_at_start(s: Seq<char>) -> Option<u8> {
    if s.len() > 2 && s[0] == '%' {
        hex_pair(s[1], s[2])
    } else {
        None
    }
}

/// The byte that the escape at position `i` denotes.
pub(crate) fn escape_at(chars: &Vec<char>, i: usize) -> (r: Option<u8>)
    requires
        i <= chars.len(),
    ensures
        r == escape_at_start(chars@.skip(i as int)),
        r is Some ==> i + 3 <= chars.len(),
{
    if chars.len() - i > 2 && chars[i] == '%' {
        hex_pair_of(chars[i + 1], chars[i + 2])
    } else {
        None
    }
}

/// The bytes that the escapes at the start of a text denote.
pub open spec fn escape_run(s: Seq<char>) -> Seq<u8>
    decreases s.len(),
{
    match escape_at_start(s) {
        Some(b) => seq![b] + escape_run(s.skip(3)),
        None => Seq::empty(),
    }
}

/// The text that bytes denote: in UTF-8 where they are valid, else each byte
/// by itself.
pub open spec fn text_of_bytes(bytes: Seq<u8>) -> Seq<char> {
    if valid_utf8(bytes) {
        decode_utf8(bytes)
    } else {
        bytes.map_values(|b: u8| b as char)
    }
}

/// A text with its escapes taken back.
pub open spec fn unescaped(s: Seq<char>) -> Seq<char>
    decreases s.len(),
{
    if s.len() == 0 {
        Seq::empty()
    } else if escape_at_start(s) is Some {
        proof {
            lemma_escape_run(s);
        }
        text_of_bytes(escape_run(s)) + unescaped(s.skip(3 * escape_run(s).len() as int))
    } else {
        seq![s[0]] + unescaped(s.skip(1))
    }
}

/// An escape run covers three characters for each of its bytes.
pub proof fn lemma_escape_run(s: Seq<char>)
    ensures
        3 * escape_run(s).len() <= s.len(),
        escape_at_start(s) is Some ==> escape_run(s).len() > 0,
    decreases s.len(),
{
    if escape_at_start(s) is Some {
        lemma_escape_run(s.skip(3));
    }
}

/// `String::from_utf8`: succeeds exactly on valid UTF-8, and then gives the
/// text that the bytes encode.
#[verifier::external_body]
fn text_from_utf8(bytes: Vec<u8>) -> (r: Option<String>)
    ensures
        r is Some <==> valid_utf8(bytes@),
        r matches Some(s) ==> s@ == decode_utf8(bytes@),
{
    String::from_utf8(bytes).ok()
}

fn push_bytes(out: &mut String, bytes: &Vec<u8>)
    ensures
        final(out)@ == old(out)@ + text_of_bytes(bytes@),
{
    let ghost start = out@;
    match text_from_utf8(bytes.clone()) {
        Some(s) => {
            out.append(s.as_str());
        },
        None => {
            let mut i: usize = 0;
            let ghost chars = bytes@.map_values(|b: u8| b as char);
            assert(start + chars.take(0) =~= start);
            while i < bytes.len()
                invariant
                    i <= bytes.len(),
                    chars == bytes@.map_values(|b: u8| b as char),
                    out@ == start + chars.take(i as int),
                decreases bytes.len() - i,
            {
                out.push(bytes[i] as char);
                assert(chars.take(i + 1) =~= chars.take(i as int).push(chars[i as int]));
                i = i + 1;
                assert(out@ =~= start + chars.take(i as int));
            }
            assert(chars.take(i as int) =~= chars);
        },
    }
}

/// Takes the escapes of a text back. Adjacent escapes that together are UTF-8
/// give the text that they encode.
pub fn decode_percent(encoded: &str) -> (r: String)
    ensures
        r@ == unescaped(encoded@),
{
    let chars = chars_of(encoded);
    let ghost all = chars@;
    let mut out = String::new();
    let mut i: usize = 0;
    assert(all.skip(0) =~= all);
    assert(Seq::<char>::empty() + unescaped(all) =~= unescaped(all));
    while i < chars.len()
        invariant
            i <= chars.len(),
            all == chars@,
            unescaped(all) == out@ + unescaped(all.skip(i as int)),
        decreases chars.len() - i,
    {
        let ghost rest = all.skip(i as int);
        let ghost before = out@;
        let first = escape_at(&chars, i);
        if first.is_some() {
            let ghost run = escape_run(rest);
            proof {
                lemma_escape_run(rest);
            }
            let mut bytes: Vec<u8> = Vec::new();
            let mut j: usize = i;
            let mut next = first;
            assert(bytes@ + run =~= run);
            while next.is_some()
                invariant
                    i <= j <= chars.len(),
                    all == chars@,
                    j - i == 3 * bytes.len(),
                    run == bytes@ + escape_run(all.skip(j as int)),
                    next == escape_at_start(all.skip(j as int)),
                    next is Some ==> j + 3 <= chars.len(),
                decreases chars.len() - j,
            {
                let ghost got = bytes@;
                if let Some(b) = next {
                    bytes.push(b);
                    assert(all.skip(j as int).skip(3) =~= all.skip(j + 3));
                    j = j + 3;
                    next = escape_at(&chars, j);
                    assert(got + (seq![b] + escape_run(all.skip(j as int))) =~= bytes@ + escape_run(
                        all.skip(j as int),
                    ));
                }
            }
            assert(bytes@ + escape_run(all.skip(j as int)) =~= bytes@);
            push_bytes(&mut out, &bytes);
            assert(rest.skip(3 * run.len() as int) =~= all.skip(j as int));
            assert(before + (text_of_bytes(run) + unescaped(all.skip(j as int))) =~= out@
                + unescaped(all.skip(j as int)));
            i = j;
        } else {
            out.push(chars[i]);
            assert(rest.skip(1) =~= all.skip(i + 1));
            assert(before + (seq![all[i as int]] + unescaped(all.skip(i + 1))) =~= out@ + unescaped(
                all.skip(i + 1),
            ));
            i = i + 1;
        }
    }
    assert(out@ + unescaped(all.skip(i as int)) =~= out@);
    out
}

/// How many characters at the start of a text are escaped in a key.
spec fn special_run(s: Seq<char>) -> nat
    decreases s.len(),
{
    if s.len() > 0 && (s[0] == '%' || s[0] == ':') {
        1 + special_run(s.drop_first())
    } else {
        0
    }
}

/// The escapes at the start of an escaped text stand for the characters that
/// had to be escaped there.
proof fn lemma_special_run(s: Seq<char>)
    ensures
        special_run(s) <= s.len(),
        is_ascii_chars(s.take(special_run(s) as int)),
        escape_run(key_escaped(s)) == s.take(special_run(s) as int).map_values(
            |c: char| c as u8,
        ),
        key_escaped(s).skip(3 * special_run(s) as int) == key_escaped(
            s.skip(special_run(s) as int),
        ),
        3 * special_run(s) <= key_escaped(s).len(),
    decreases s.len(),
{
    let k = special_run(s) as int;
    let e = key_escaped(s);
    let as_byte = |c: char| c as u8;
    if s.len() > 0 {
        lemma_key_escaped_first(s);
        let t = s.drop_first();
        if s[0] == '%' || s[0] == ':' {
            lemma_special_run(t);
            assert(e.skip(3) =~= key_escaped(t));
            assert(hex_pair('2', '5') == Some(0x25u8));
            assert(hex_pair('3', 'A') == Some(0x3Au8));
            assert(s.take(k) =~= seq![s[0]] + t.take(k - 1));
            assert(s.take(k).map_values(as_byte) =~= seq![s[0] as u8] + t.take(k - 1).map_values(
                as_byte,
            ));
            assert(s.skip(k) =~= t.skip(k - 1));
            assert(e.skip(3 * k) =~= e.skip(3).skip(3 * (k - 1)));
        } else {
            assert(e[0] == s[0]);
            assert(s.take(0).map_values(as_byte) =~= Seq::<u8>::empty());
            assert(e.skip(0) =~= e);
            assert(s.skip(0) =~= s);
        }
    } else {
        assert(s.take(0).map_values(as_byte) =~= Seq::<u8>::empty());
        assert(e.skip(0) =~= e);
        assert(s.skip(0) =~= s);
    }
}

/// Taking back the escapes of an identity in a key gives the identity.
pub proof fn escapes_are_taken_back(s: Seq<char>)
    ensures
        unescaped(key_escaped(s)) == s,
    decreases s.len(),
{
    let e = key_escaped(s);
    if s.len() > 0 {
        lemma_key_escaped_first(s);
        if s[0] == '%' || s[0] == ':' {
            let k = special_run(s) as int;
            let head = s.take(k);
            lemma_special_run(s);
            lemma_escape_run(e);
            assert(hex_pair('2', '5') == Some(0x25u8));
            assert(hex_pair('3', 'A') == Some(0x3Au8));
            assert(escape_at_start(e) is Some);
            assert(k > 0);
            is_ascii_chars_encode_utf8(head);
            assert(encode_utf8(head) =~= escape_run(e));
            encode_utf8_valid_utf8(head);
            encode_utf8_decode_utf8(head);
            escapes_are_taken_back(s.skip(k));
            assert(s =~= head + s.skip(k));
        } else {
            assert(e.skip(1) =~= key_escaped(s.drop_first()));
            escapes_are_taken_back(s.drop_first());
            assert(e[0] == s[0]);
            assert(s =~= seq![s[0]] + s.drop_first());
        }
    }
}

// ---------------------------------------------------------------------------
// Identities
// ---------------------------------------------------------------------------

/// An identity that the host gave; none when it is empty or made up here.
pub open spec fn sanitized(id: Seq<char>) -> Option<Seq<char>> {
    if id.len() == 0 || begins_with(id, "synthetic:"@) {
        None
    } else {
        Some(id)
    }
}

/// An identity that the host gave; none when it is empty or made up here.
pub fn sanitize_id(id: &str) -> (r: Option<String>)
    ensures
        r.deep_view() == sanitized(id@),
{
    if is_blank(id) || has_prefix(id, "synthetic:") {
        None
    } else {
        Some(text(id))
    }
}

/// Whether a text is empty.
pub(crate) fn is_blank(s: &str) -> (r: bool)
    ensures
        r == (s@.len() == 0),
{
    s.unicode_len() == 0
}

/// A text, unless it is empty.
pub open spec fn filled(s: Seq<char>) -> Option<Seq<char>> {
    if s.len() == 0 {
        None
    } else {
        Some(s)
    }
}

/// A text, unless it is empty.
pub fn non_empty_opt(s: &str) -> (r: Option<String>)
    ensures
        r.deep_view() == filled(s@),
{
    if is_blank(s) {
        None
    } else {
        Some(text(s))
    }
}

/// The identity under which a call and its result find each other: also one
/// that was made up here.
pub fn call_id_string(id: &str) -> (r: String)
    ensures
        r@ == id@,
{
    text(id)
}

/// The identity of the host item in an idempotency key.
pub open spec fn host_id_of_key(key: Seq<char>) -> Option<Seq<char>> {
    match after_prefix(key, "codex:"@) {
        None => None,
        Some(rest) => match cut(rest, ':') {
            None => None,
            Some((_, tail)) => match after_prefix(tail, "id:"@) {
                None => None,
                Some(fields) => sanitized(
                    unescaped(fields.subrange(0, first_from(fields, ':', 0))),
                ),
            },
        },
    }
}

/// The identity of the host item in an idempotency key, when the key was made
/// from one.
pub fn parse_host_id_from_key(key: &str) -> (r: Option<String>)
    ensures
        r.deep_view() == host_id_of_key(key@),
{
    let rest = match strip_prefix(key, "codex:") {
        Some(rest) => rest,
        None => {
            return None;
        },
    };
    let tail = match split_once(rest.as_str(), ':') {
        Some((_, tail)) => tail,
        None => {
            return None;
        },
    };
    match strip_prefix(tail.as_str(), "id:") {
        Some(fields) => sanitize_id(decode_percent(first_field(fields.as_str()).as_str()).as_str()),
        None => None,
    }
}

/// What stands before the first `:`.
pub(crate) fn first_field(s: &str) -> (r: String)
    ensures
        r@ == s@.subrange(0, first_from(s@, ':', 0)),
{
    let chars = chars_of(s);
    proof {
        crate::text::lemma_first_from(chars@, ':', 0);
    }
    let at: usize = crate::text::find_from(&chars, ':', 0);
    substring(&chars, 0, at)
}

/// The key of an item that the host identified gives the identity back.
pub proof fn item_key_holds_the_host_id(
    thread_id: Seq<char>,
    id: Seq<char>,
    digest: Seq<char>,
    occurrence: nat,
    event_kind: Seq<char>,
    part: Option<Seq<char>>,
)
    requires
        sanitized(id) is Some,
    ensures
        host_id_of_key(event_key(thread_id, Some(id), digest, occurrence, event_kind, part)) == Some(
            id,
        ),
{
    let key = event_key(thread_id, Some(id), digest, occurrence, event_kind, part);
    let t = key_escaped(thread_id);
    let e = key_escaped(id);
    let end = digest + ":"@ + event_kind + part_suffix(part);
    let fields = e + seq![':'] + end;
    let rest = t + seq![':'] + ("id:"@ + fields);
    reveal_strlit("codex:");
    reveal_strlit(":id:");
    reveal_strlit("id:");
    reveal_strlit(":");
    assert(key =~= "codex:"@ + rest);
    assert(key.subrange(0, 6) =~= "codex:"@);
    assert(key.subrange(6, key.len() as int) =~= rest);
    key_escaped_has_no_separator(thread_id);
    lemma_cut_pair(t, ':', "id:"@ + fields);
    let tail = "id:"@ + fields;
    assert(tail.subrange(0, 3) =~= "id:"@);
    assert(tail.subrange(3, tail.len() as int) =~= fields);
    key_escaped_has_no_separator(id);
    assert forall|j: int| 0 <= j < e.len() implies fields[j] != ':' by {
        assert(e.contains(e[j]));
    }
    lemma_first_from_unique(fields, ':', 0, e.len() as int);
    assert(fields.subrange(0, e.len() as int) =~= e);
    escapes_are_taken_back(id);
}

// ---------------------------------------------------------------------------
// Kinds
// ---------------------------------------------------------------------------

/// The identity is one of the kind that `prefix` marks.
pub open spec fn is_of_kind(id: Seq<char>, prefix: Seq<char>) -> bool {
    id == prefix || begins_with(id, prefix + "_"@)
}

fn has_kind(id: &str, prefix: &str) -> (r: bool)
    ensures
        r == is_of_kind(id@, prefix@),
{
    let mut marked = text(prefix);
    marked.append("_");
    text_eq(id, prefix) || has_prefix(id, marked.as_str())
}

/// The prefix that marks what kind of item an identity belongs to.
pub open spec fn kind_prefix(id: Seq<char>) -> Option<Seq<char>> {
    if is_of_kind(id, "ctco"@) {
        Some("ctco"@)
    } else if is_of_kind(id, "ctc"@) {
        Some("ctc"@)
    } else if is_of_kind(id, "fco"@) {
        Some("fco"@)
    } else if is_of_kind(id, "fc"@) {
        Some("fc"@)
    } else if is_of_kind(id, "lsh"@) {
        Some("lsh"@)
    } else if is_of_kind(id, "tsc"@) {
        Some("tsc"@)
    } else if is_of_kind(id, "tso"@) {
        Some("tso"@)
    } else if is_of_kind(id, "ws"@) {
        Some("ws"@)
    } else if is_of_kind(id, "ig"@) {
        Some("ig"@)
    } else if is_of_kind(id, "msg"@) {
        Some("msg"@)
    } else if is_of_kind(id, "rs"@) {
        Some("rs"@)
    } else if is_of_kind(id, "amsg"@) {
        Some("amsg"@)
    } else if is_of_kind(id, "at"@) {
        Some("at"@)
    } else if is_of_kind(id, "cmp"@) {
        Some("cmp"@)
    } else {
        None
    }
}

/// The prefix that marks what kind of item an identity belongs to.
pub fn host_id_kind_prefix(id: &str) -> (r: Option<&'static str>)
    ensures
        r.deep_view() == kind_prefix(id@),
{
    if has_kind(id, "ctco") {
        Some("ctco")
    } else if has_kind(id, "ctc") {
        Some("ctc")
    } else if has_kind(id, "fco") {
        Some("fco")
    } else if has_kind(id, "fc") {
        Some("fc")
    } else if has_kind(id, "lsh") {
        Some("lsh")
    } else if has_kind(id, "tsc") {
        Some("tsc")
    } else if has_kind(id, "tso") {
        Some("tso")
    } else if has_kind(id, "ws") {
        Some("ws")
    } else if has_kind(id, "ig") {
        Some("ig")
    } else if has_kind(id, "msg") {
        Some("msg")
    } else if has_kind(id, "rs") {
        Some("rs")
    } else if has_kind(id, "amsg") {
        Some("amsg")
    } else if has_kind(id, "at") {
        Some("at")
    } else if has_kind(id, "cmp") {
        Some("cmp")
    } else {
        None
    }
}

} // verus!
