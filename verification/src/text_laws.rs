//! What holds of the ways in which texts are taken apart and put together.

use vstd::prelude::*;
use vstd::string::*;

use crate::json::{escaped, escaped_char, json_text, quoted, Entries, JsonView};
use crate::text::{
    after_occurrence, after_prefix, before_suffix, first_from, is_white, joined, lemma_first_from,
    occurrence_from, occurs_in, pieces, pieces_from, signed_decimal, stands_at, trimmed,
    trimmed_end, trimmed_start,
};

verus! {

// ---------------------------------------------------------------------------
// Joining and cutting
// ---------------------------------------------------------------------------

/// Texts are joined with the separator between each two.
pub proof fn joined_texts_begin_with_the_first(
    first: Seq<char>,
    rest: Seq<Seq<char>>,
    sep: Seq<char>,
)
    ensures
        rest.len() == 0 ==> joined(seq![first] + rest, sep) == first,
        rest.len() > 0 ==> joined(seq![first] + rest, sep) == first + sep + joined(rest, sep),
    decreases rest.len(),
{
    let all = seq![first] + rest;
    if rest.len() > 0 {
        let less = rest.drop_last();
        assert(all.drop_last() =~= seq![first] + less);
        joined_texts_begin_with_the_first(first, less, sep);
        if rest.len() == 1 {
            assert(joined(all, sep) =~= first + sep + rest[0]);
        } else {
            assert(joined(all, sep) =~= first + sep + (joined(less, sep) + sep + rest.last()));
        }
    }
}

proof fn lemma_pieces(s: Seq<char>, c: char, from: int)
    requires
        0 <= from <= s.len(),
    ensures
        pieces_from(s, c, from).len() > 0,
        joined(pieces_from(s, c, from), seq![c]) == s.skip(from),
        forall|k: int|
            0 <= k < pieces_from(s, c, from).len() ==> !(#[trigger] pieces_from(
                s,
                c,
                from,
            )[k]).contains(c),
    decreases s.len() - from,
{
    lemma_first_from(s, c, from);
    let at = first_from(s, c, from);
    let all = pieces_from(s, c, from);
    if at >= s.len() {
        assert(s.subrange(from, s.len() as int) =~= s.skip(from));
        assert forall|i: int| 0 <= i < s.skip(from).len() implies s.skip(from)[i] != c by {
            assert(s.skip(from)[i] == s[from + i]);
        }
    } else {
        let first = s.subrange(from, at);
        let rest = pieces_from(s, c, at + 1);
        lemma_pieces(s, c, at + 1);
        joined_texts_begin_with_the_first(first, rest, seq![c]);
        assert(s.skip(from) =~= first + seq![c] + s.skip(at + 1));
        assert forall|i: int| 0 <= i < first.len() implies first[i] != c by {
            assert(first[i] == s[from + i]);
        }
        assert forall|k: int| 0 <= k < all.len() implies !(#[trigger] all[k]).contains(c) by {
            if k > 0 {
                assert(all[k] == rest[k - 1]);
            }
        }
    }
}

/// The pieces of a text hold no separator, and put together again they are the
/// text.
pub proof fn pieces_make_the_text(s: Seq<char>, c: char)
    ensures
        joined(pieces(s, c), seq![c]) == s,
        forall|k: int|
            0 <= k < pieces(s, c).len() ==> !(#[trigger] pieces(s, c)[k]).contains(c),
{
    lemma_pieces(s, c, 0);
    assert(s.skip(0) =~= s);
}

/// What stands behind a beginning or before an end is the rest, and there is none
/// where the text does not begin or end so.
pub proof fn beginnings_and_ends_are_taken_off(a: Seq<char>, b: Seq<char>, s: Seq<char>)
    ensures
        after_prefix(a + b, a) == Some(b),
        before_suffix(a + b, b) == Some(a),
        after_prefix(s, a) matches Some(rest) ==> s == a + rest,
        before_suffix(s, b) matches Some(rest) ==> s == rest + b,
{
    crate::idempotency::lemma_after_prefix(a, b);
    assert((a + b).subrange((a + b).len() - b.len(), (a + b).len() as int) =~= b);
    assert((a + b).subrange(0, (a + b).len() - b.len()) =~= a);
    if let Some(rest) = after_prefix(s, a) {
        assert(s =~= s.subrange(0, a.len() as int) + rest);
    }
    if let Some(rest) = before_suffix(s, b) {
        assert(s =~= rest + s.subrange(s.len() - b.len(), s.len() as int));
    }
}

proof fn lemma_occurrence(s: Seq<char>, needle: Seq<char>, from: int, at: int)
    requires
        0 <= from,
    ensures
        from <= at && stands_at(s, needle, at) && (forall|p: int|
            from <= p < at ==> !#[trigger] stands_at(s, needle, p)) ==> occurrence_from(
            s,
            needle,
            from,
        ) == at,
        (forall|p: int| from <= p ==> !#[trigger] stands_at(s, needle, p)) ==> occurrence_from(
            s,
            needle,
            from,
        ) == s.len() + 1,
    decreases s.len() + 1 - from,
{
    if from + needle.len() <= s.len() && !stands_at(s, needle, from) {
        lemma_occurrence(s, needle, from + 1, at);
    }
}

/// What follows a text in another is what follows its first occurrence.
pub proof fn first_occurrence_counts(s: Seq<char>, needle: Seq<char>, at: int)
    ensures
        stands_at(s, needle, at) && (forall|p: int|
            0 <= p < at ==> !#[trigger] stands_at(s, needle, p)) ==> after_occurrence(s, needle)
            == Some(s.skip(at + needle.len())),
        !occurs_in(s, needle) ==> after_occurrence(s, needle) is None,
{
    lemma_occurrence(s, needle, 0, at);
    if !occurs_in(s, needle) {
        assert forall|p: int| 0 <= p implies !#[trigger] stands_at(s, needle, p) by {}
    }
}

/// All characters of a text are white.
pub open spec fn all_white(s: Seq<char>) -> bool {
    forall|i: int| 0 <= i < s.len() ==> is_white(#[trigger] s[i])
}

proof fn lemma_trimmed_start(a: Seq<char>, s: Seq<char>)
    requires
        all_white(a),
        s.len() > 0 ==> !is_white(s[0]),
    ensures
        trimmed_start(a + s) == s,
    decreases a.len(),
{
    if a.len() == 0 {
        assert(a + s =~= s);
    } else {
        assert((a + s)[0] == a[0]);
        assert((a + s).skip(1) =~= a.skip(1) + s);
        assert forall|i: int| 0 <= i < a.skip(1).len() implies is_white(#[trigger] a.skip(1)[i]) by {
            assert(a.skip(1)[i] == a[i + 1]);
        }
        lemma_trimmed_start(a.skip(1), s);
    }
}

proof fn lemma_trimmed_end(s: Seq<char>, b: Seq<char>)
    requires
        all_white(b),
        s.len() > 0 ==> !is_white(s.last()),
    ensures
        trimmed_end(s + b) == s,
    decreases b.len(),
{
    if b.len() == 0 {
        assert(s + b =~= s);
    } else {
        assert((s + b).last() == b.last());
        assert(is_white(b[b.len() - 1]));
        assert((s + b).drop_last() =~= s + b.drop_last());
        assert forall|i: int| 0 <= i < b.drop_last().len() implies is_white(
            #[trigger] b.drop_last()[i],
        ) by {
            assert(b.drop_last()[i] == b[i]);
        }
        lemma_trimmed_end(s, b.drop_last());
    }
}

/// White space is taken off a text on both sides, and nothing else.
pub proof fn white_space_is_taken_off(a: Seq<char>, s: Seq<char>, b: Seq<char>)
    requires
        all_white(a),
        all_white(b),
        s.len() > 0,
        !is_white(s[0]),
        !is_white(s.last()),
    ensures
        trimmed(a + s + b) == s,
        trimmed(a).len() == 0,
{
    assert(a + s + b =~= a + (s + b));
    assert((s + b)[0] == s[0]);
    lemma_trimmed_start(a, s + b);
    lemma_trimmed_end(s, b);
    let none = Seq::<char>::empty();
    lemma_trimmed_start(a, none);
    assert(a + none =~= a);
    assert(trimmed_end(none) =~= none);
}

// ---------------------------------------------------------------------------
// Notation
// ---------------------------------------------------------------------------

/// Texts are noted character by character; quotes, backslashes, and what cannot be
/// shown are spelled out, and everything else stands as it is.
pub proof fn texts_are_noted_character_by_character(a: Seq<char>, b: Seq<char>, c: char)
    ensures
        quoted(Seq::empty()) == "\"\""@,
        escaped(a + b) == escaped(a) + escaped(b),
        escaped(seq![c]) == escaped_char(c),
        c as nat >= 32 && c != '"' && c != '\\' ==> escaped_char(c) == seq![c],
        escaped_char('"') == seq!['\\', '"'],
        escaped_char('\\') == seq!['\\', '\\'],
        escaped_char('\n') == seq!['\\', 'n'],
        escaped_char('\r') == seq!['\\', 'r'],
        escaped_char('\t') == seq!['\\', 't'],
    decreases b.len(),
{
    reveal_strlit("\"\"");
    reveal_strlit("\"");
    assert(quoted(Seq::empty()) =~= "\"\""@);
    reveal_with_fuel(escaped, 2);
    assert(seq![c].drop_last() =~= Seq::<char>::empty());
    assert(escaped(seq![c]) =~= escaped_char(c));
    if b.len() == 0 {
        assert(a + b =~= a);
        assert(escaped(a) + escaped(b) =~= escaped(a));
    } else {
        texts_are_noted_character_by_character(a, b.drop_last(), c);
        assert((a + b).drop_last() =~= a + b.drop_last());
        assert(escaped(a + b) =~= escaped(a) + escaped(b));
    }
}

/// A value is noted as its word, its number or its text; a list as all its values
/// and an object as all its entries, in their order.
pub proof fn values_are_noted_whole(n: int, s: Seq<char>, v: Seq<JsonView>, e: Entries)
    ensures
        json_text(JsonView::Null) == "null"@,
        json_text(JsonView::Bool(true)) == "true"@,
        json_text(JsonView::Bool(false)) == "false"@,
        json_text(JsonView::Int(n)) == signed_decimal(n),
        json_text(JsonView::Text(s)) == "\""@ + escaped(s) + "\""@,
        json_text(JsonView::Raw(s)) == s,
        json_text(JsonView::List(v)) == "["@ + joined(
            v.map_values(|x: JsonView| json_text(x)),
            ","@,
        ) + "]"@,
        json_text(JsonView::Object(e)) == "{"@ + joined(
            e.map_values(|x: (Seq<char>, JsonView)| quoted(x.0) + ":"@ + json_text(x.1)),
            ","@,
        ) + "}"@,
{
    assert(crate::json::list_texts(v) =~= v.map_values(|x: JsonView| json_text(x)));
    assert(crate::json::entry_texts(e) =~= e.map_values(
        |x: (Seq<char>, JsonView)| quoted(x.0) + ":"@ + json_text(x.1),
    ));
}

} // verus!
