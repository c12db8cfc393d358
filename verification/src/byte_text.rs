//! Text measured and cut by its UTF-8 bytes.

use vstd::prelude::*;
use vstd::string::*;
use vstd::utf8::{
    decode_utf8, decode_utf8_encode_utf8, decode_utf8_split, encode_utf8, encode_utf8_decode_utf8,
    encode_utf8_valid_utf8, is_char_boundary, is_char_boundary_start_end_of_seq, valid_utf8,
    valid_utf8_split,
};

use crate::text::text;

verus! {

/// The number of bytes that a text takes.
pub open spec fn byte_len(s: Seq<char>) -> nat {
    encode_utf8(s).len()
}

/// The number of bytes that a text takes.
pub fn text_byte_len(s: &str) -> (r: usize)
    ensures
        r == byte_len(s@),
{
    s.as_bytes().len()
}

/// The last character boundary at or before byte `at`; the length of the text
/// when `at` lies beyond it.
pub open spec fn boundary_at(s: Seq<char>, at: int) -> int
    decreases at,
{
    if at >= byte_len(s) {
        byte_len(s) as int
    } else if at <= 0 {
        0
    } else if is_char_boundary(encode_utf8(s), at) {
        at
    } else {
        boundary_at(s, at - 1)
    }
}

/// The last character boundary at or before byte `idx`; the length of the text
/// when `idx` lies beyond it.
pub fn floor_char_boundary(s: &str, idx: usize) -> (r: usize)
    ensures
        r == boundary_at(s@, idx as int),
        is_char_boundary(encode_utf8(s@), r as int),
        r <= byte_len(s@),
        idx <= byte_len(s@) ==> r <= idx,
{
    proof {
        encode_utf8_valid_utf8(s@);
        is_char_boundary_start_end_of_seq(encode_utf8(s@));
    }
    let len: usize = text_byte_len(s);
    if idx >= len {
        return len;
    }
    let mut i: usize = idx;
    while i > 0 && !s.is_char_boundary(i)
        invariant
            i <= idx,
            idx < byte_len(s@),
            boundary_at(s@, idx as int) == boundary_at(s@, i as int),
        decreases i,
    {
        i = i - 1;
    }
    i
}

/// The characters of the first `n` bytes.
pub open spec fn head_of(s: Seq<char>, n: int) -> Seq<char> {
    decode_utf8(encode_utf8(s).subrange(0, n))
}

/// The characters of the first `n` bytes, where a character ends there.
pub fn head(s: &str, n: usize) -> (r: &str)
    requires
        is_char_boundary(encode_utf8(s@), n as int),
    ensures
        r@ == head_of(s@, n as int),
{
    let (first, _) = s.split_at(n);
    proof {
        encode_utf8_decode_utf8(first@);
    }
    first
}

/// The characters of the first `n` bytes take `n` bytes, and the text begins
/// with them.
pub proof fn lemma_head(s: Seq<char>, n: int)
    requires
        is_char_boundary(encode_utf8(s), n),
        0 <= n <= byte_len(s),
    ensures
        byte_len(head_of(s, n)) == n,
        crate::text::begins_with(s, head_of(s, n)),
{
    let bytes = encode_utf8(s);
    encode_utf8_valid_utf8(s);
    encode_utf8_decode_utf8(s);
    valid_utf8_split(bytes, n);
    assert(valid_utf8(bytes.subrange(0, n)));
    decode_utf8_encode_utf8(bytes.subrange(0, n));
    decode_utf8_split(bytes, n);
    let h = decode_utf8(bytes.subrange(0, n));
    let t = decode_utf8(bytes.subrange(n, bytes.len() as int));
    assert(s =~= h + t);
    assert(s.subrange(0, h.len() as int) =~= h);
}

/// Two texts one after the other take the bytes of both.
pub proof fn lemma_byte_len_concat(a: Seq<char>, b: Seq<char>)
    ensures
        byte_len(a + b) == byte_len(a) + byte_len(b),
    decreases a.len(),
{
    if a.len() == 0 {
        assert(a + b =~= b);
    } else {
        lemma_byte_len_concat(a.drop_first(), b);
        assert((a + b).drop_first() =~= a.drop_first() + b);
    }
}

} // verus!
