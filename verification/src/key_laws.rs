//! How keys are spelled, and how their escapes are read.

use vstd::prelude::*;
use vstd::string::*;

use crate::host_ids::{escape_run, unescaped};
use crate::idempotency::{event_key, key_escaped};
use crate::text::decimal;

verus! {

/// The key of an event spells out its thread, what its item is known by, its kind
/// and, behind all of it, its part.
pub proof fn keys_are_spelled_out(
    thread: Seq<char>,
    id: Seq<char>,
    digest: Seq<char>,
    n: nat,
    kind: Seq<char>,
    part: Seq<char>,
    known: Option<Seq<char>>,
)
    ensures
        event_key(thread, Some(id), digest, n, kind, None) == "codex:"@ + key_escaped(thread)
            + ":id:"@ + key_escaped(id) + ":"@ + digest + ":"@ + kind,
        event_key(thread, None, digest, n, kind, None) == "codex:"@ + key_escaped(thread)
            + ":anon:"@ + digest + ":"@ + decimal(n) + ":"@ + kind,
        event_key(thread, known, digest, n, kind, Some(part)) == event_key(
            thread,
            known,
            digest,
            n,
            kind,
            None,
        ) + ":"@ + part,
{
    assert(event_key(thread, known, digest, n, kind, Some(part)) =~= event_key(
        thread,
        known,
        digest,
        n,
        kind,
        None,
    ) + ":"@ + part);
}

/// A separator and an escape sign are escaped in a key; every other character
/// stands for itself.
pub proof fn keys_are_escaped_character_by_character(c: char, rest: Seq<char>)
    ensures
        key_escaped(Seq::empty()) == Seq::<char>::empty(),
        key_escaped(seq![c] + rest) == (if c == ':' {
            seq!['%', '3', 'A']
        } else if c == '%' {
            seq!['%', '2', '5']
        } else {
            seq![c]
        }) + key_escaped(rest),
{
    let s = seq![c] + rest;
    assert(s.skip(1) =~= rest);
    crate::idempotency::lemma_key_escaped_first(s);
}

/// An escape is read by its two digits, the letters among them large or small.
pub proof fn escapes_are_read_by_their_digits(h: int, l: int, rest: Seq<char>)
    requires
        0 <= h < 16,
        0 <= l < 16,
    ensures
        escape_run(seq!['%', "0123456789abcdef"@[h], "0123456789abcdef"@[l]] + rest) == seq![
            (16 * h + l) as u8,
        ] + escape_run(rest),
        escape_run(seq!['%', "0123456789ABCDEF"@[h], "0123456789ABCDEF"@[l]] + rest) == seq![
            (16 * h + l) as u8,
        ] + escape_run(rest),
{
    reveal_strlit("0123456789abcdef");
    reveal_strlit("0123456789ABCDEF");
    let small = seq!['%', "0123456789abcdef"@[h], "0123456789abcdef"@[l]] + rest;
    let large = seq!['%', "0123456789ABCDEF"@[h], "0123456789ABCDEF"@[l]] + rest;
    assert(small.skip(3) =~= rest);
    assert(large.skip(3) =~= rest);
}

/// A text without an escape sign is read as it stands.
pub proof fn texts_without_escapes_are_read_as_they_stand(s: Seq<char>)
    requires
        !s.contains('%'),
    ensures
        unescaped(s) == s,
    decreases s.len(),
{
    if s.len() > 0 {
        assert(s[0] != '%');
        let rest = s.skip(1);
        assert forall|i: int| 0 <= i < rest.len() implies rest[i] != '%' by {
            assert(rest[i] == s[i + 1]);
        }
        texts_without_escapes_are_read_as_they_stand(rest);
        assert(s =~= seq![s[0]] + rest);
    }
}

} // verus!
