//! The members of an object as its notation lists them: in order, each with the
//! notation of its value, and with a name as often as it stands there.

use vstd::prelude::*;
use vstd::string::*;

use crate::idempotency::lemma_after_prefix;
use crate::json::{
    entry_texts, inner_value, is_plain, json_read, json_text, lemma_list_view, list_texts,
    outer_value, quoted, read_json, Entries, Json, JsonView,
};
use crate::text::{after_prefix, begins_with, chars_of, joined, strip_prefix, substring, text};

verus! {

// ---------------------------------------------------------------------------
// Tokens
// ---------------------------------------------------------------------------

/// The characters that may stand between the tokens of a notation.
pub open spec fn is_blank(c: char) -> bool {
    c == ' ' || c == '\n' || c == '\t' || c == '\r'
}

/// The text without the blanks before it.
pub open spec fn after_blanks(s: Seq<char>) -> Seq<char>
    decreases s.len(),
{
    if s.len() > 0 && is_blank(s[0]) {
        after_blanks(s.skip(1))
    } else {
        s
    }
}

/// Dropping blanks makes no text longer.
pub proof fn lemma_after_blanks(s: Seq<char>)
    ensures
        after_blanks(s).len() <= s.len(),
    decreases s.len(),
{
    if s.len() > 0 && is_blank(s[0]) {
        lemma_after_blanks(s.skip(1));
    }
}

/// The text without the blanks before it.
fn skip_blanks(s: &str) -> (r: String)
    ensures
        r@ == after_blanks(s@),
{
    let chars = chars_of(s);
    let ghost all = chars@;
    let mut from: usize = 0;
    assert(all.skip(0) =~= all);
    while from < chars.len() && (chars[from] == ' ' || chars[from] == '\n' || chars[from] == '\t'
        || chars[from] == '\r')
        invariant
            from <= chars.len(),
            all == chars@,
            after_blanks(all) == after_blanks(all.skip(from as int)),
        decreases chars.len() - from,
    {
        assert(all.skip(from as int).skip(1) =~= all.skip(from + 1));
        from = from + 1;
    }
    assert(all.subrange(from as int, all.len() as int) =~= all.skip(from as int));
    let to: usize = chars.len();
    substring(&chars, from, to)
}

/// What stands behind `token`, when the text begins with it after any blanks.
pub open spec fn after_token(s: Seq<char>, token: Seq<char>) -> Option<Seq<char>> {
    after_prefix(after_blanks(s), token)
}

/// What stands behind `token`, when the text begins with it after any blanks.
fn strip_token(s: &str, token: &str) -> (r: Option<String>)
    ensures
        r.deep_view() == after_token(s@, token@),
{
    let rest = skip_blanks(s);
    strip_prefix(rest.as_str(), token)
}

// ---------------------------------------------------------------------------
// The first value of a text
// ---------------------------------------------------------------------------

/// What the first value of a text takes of it, with the blanks before the value;
/// `None` when the text begins with no value.
pub uninterp spec fn json_prefix(s: Seq<char>) -> Option<Seq<char>>;

/// A text at whose start a value can end.
pub open spec fn ends_value(s: Seq<char>) -> bool {
    s.len() == 0 || s[0] == ',' || s[0] == ':' || s[0] == ']' || s[0] == '}'
}

/// The text is the notation of `j` with `rest` behind it.
pub open spec fn begins_with_value(
    s: Seq<char>,
    j: JsonView,
    depth: nat,
    rest: Seq<char>,
) -> bool {
    is_plain(j, depth) && ends_value(rest) && s == json_text(j) + rest
}

/// The first item of a `serde_json::StreamDeserializer` over the text, read as
/// `serde::de::IgnoredAny`: a value of JSON is passed over by its notation
/// alone, with no limit on how deep it is nested or how large a number in it is.
/// What the reader has passed then is a function of the text alone, and at least
/// one character. The notation of a value is passed whole; what the reader has
/// passed of other texts is left unsaid.
#[verifier::external_body]
fn cut_value(s: &str) -> (r: Option<&str>)
    ensures
        r.deep_view() == json_prefix(s@),
        r matches Some(value) ==> value@.len() > 0 && begins_with(s@, value@),
        forall|j: JsonView, depth: nat, rest: Seq<char>| #[trigger]
            begins_with_value(s@, j, depth, rest) ==> r.deep_view() == Some(json_text(j)),
{
    let mut values = serde_json::Deserializer::from_str(s).into_iter::<serde::de::IgnoredAny>();
    match values.next() {
        Some(Ok(_)) => s.get(..values.byte_offset()),
        _ => None,
    }
}

/// The first value of a text and what stands behind it.
pub open spec fn first_value(s: Seq<char>) -> Option<(Seq<char>, Seq<char>)> {
    match json_prefix(s) {
        Some(value) => match after_prefix(s, value) {
            Some(rest) => if value.len() > 0 {
                Some((value, rest))
            } else {
                None
            },
            None => None,
        },
        None => None,
    }
}

/// The first value of a text and what stands behind it.
fn split_value(s: &str) -> (r: Option<(String, String)>)
    ensures
        r.deep_view() == first_value(s@),
        forall|j: JsonView, depth: nat, rest: Seq<char>| #[trigger]
            begins_with_value(s@, j, depth, rest) ==> r.deep_view() == Some((json_text(j), rest)),
{
    match cut_value(s) {
        Some(value) => {
            proof {
                assert forall|j: JsonView, depth: nat, rest: Seq<char>| #[trigger]
                    begins_with_value(s@, j, depth, rest) implies after_prefix(s@, json_text(j)) == Some(
                    rest,
                ) by {
                    lemma_after_prefix(json_text(j), rest);
                }
            }
            match strip_prefix(s, value) {
                Some(rest) => Some((text(value), rest)),
                None => None,
            }
        },
        None => None,
    }
}

// ---------------------------------------------------------------------------
// Members
// ---------------------------------------------------------------------------

/// The member that a text begins with: its name, the notation of its value, and
/// what stands behind it.
pub open spec fn first_member(s: Seq<char>) -> Option<(Seq<char>, Seq<char>, Seq<char>)> {
    match first_value(s) {
        Some((quoted_name, rest)) => match (json_read(quoted_name), after_token(rest, ":"@)) {
            (Some(JsonView::Text(name)), Some(rest)) => match first_value(rest) {
                Some((value, rest)) => Some((name, value, rest)),
                None => None,
            },
            _ => None,
        },
        None => None,
    }
}

/// What stands behind the first member is shorter than the text.
pub proof fn lemma_first_member(s: Seq<char>)
    ensures
        first_member(s) matches Some(m) ==> m.2.len() < s.len(),
{
    if let Some((_, rest)) = first_value(s) {
        lemma_after_blanks(rest);
    }
}

/// The members that a text lists up to the brace that ends it.
pub open spec fn members(s: Seq<char>) -> Option<Seq<(Seq<char>, Seq<char>)>>
    decreases s.len(),
{
    match first_member(s) {
        Some((name, value, rest)) => match after_token(rest, ","@) {
            Some(more) => {
                proof {
                    lemma_first_member(s);
                    lemma_after_blanks(rest);
                }
                match members(more) {
                    Some(others) => Some(seq![(name, value)] + others),
                    None => None,
                }
            },
            None => match after_token(rest, "}"@) {
                Some(end) => if after_blanks(end).len() == 0 {
                    Some(seq![(name, value)])
                } else {
                    None
                },
                None => None,
            },
        },
        None => None,
    }
}

/// The members of the object that a text denotes; `None` when it denotes none.
pub open spec fn object_members(s: Seq<char>) -> Option<Seq<(Seq<char>, Seq<char>)>> {
    match after_token(s, "{"@) {
        Some(inside) => match after_token(inside, "}"@) {
            Some(end) => if after_blanks(end).len() == 0 {
                Some(Seq::empty())
            } else {
                None
            },
            None => members(inside),
        },
        None => None,
    }
}

/// The text is a member with the value `j` and `rest` behind it.
pub open spec fn begins_with_member(
    s: Seq<char>,
    name: Seq<char>,
    j: JsonView,
    depth: nat,
    rest: Seq<char>,
) -> bool {
    is_plain(j, depth) && ends_value(rest) && s == quoted(name) + ":"@ + json_text(j) + rest
}

/// The member that a text begins with.
fn read_member(s: &str) -> (r: Option<(String, String, String)>)
    ensures
        r.deep_view() == first_member(s@),
        forall|name: Seq<char>, j: JsonView, depth: nat, rest: Seq<char>| #[trigger]
            begins_with_member(s@, name, j, depth, rest) ==> r.deep_view() == Some(
                (name, json_text(j), rest),
            ),
{
    proof {
        reveal_strlit(":");
        assert forall|name: Seq<char>, j: JsonView, depth: nat, rest: Seq<char>| #[trigger]
            begins_with_member(s@, name, j, depth, rest) implies {
            &&& begins_with_value(s@, JsonView::Text(name), 100, ":"@ + (json_text(j) + rest))
            &&& after_token(":"@ + (json_text(j) + rest), ":"@) == Some(json_text(j) + rest)
            &&& begins_with_value(json_text(j) + rest, j, depth, rest)
            &&& is_plain(JsonView::Text(name), 100)
        } by {
            let behind = ":"@ + (json_text(j) + rest);
            assert(s@ =~= json_text(JsonView::Text(name)) + behind);
            assert(behind[0] == ':');
            lemma_after_prefix(":"@, json_text(j) + rest);
        }
    }
    match split_value(s) {
        Some((quoted_name, rest)) => match (
            read_json(quoted_name.as_str()),
            strip_token(rest.as_str(), ":"),
        ) {
            (Some(Json::Text(name)), Some(rest)) => match split_value(rest.as_str()) {
                Some((value, rest)) => Some((name, value, rest)),
                None => None,
            },
            _ => None,
        },
        None => None,
    }
}

/// The members of an object, each value by its notation.
pub open spec fn member_texts(e: Entries) -> Seq<(Seq<char>, Seq<char>)> {
    Seq::new(e.len(), |i: int| (e[i].0, json_text(e[i].1)))
}

proof fn lemma_joined_front(parts: Seq<Seq<char>>, sep: Seq<char>)
    requires
        parts.len() >= 2,
    ensures
        joined(parts, sep) == parts[0] + sep + joined(parts.skip(1), sep),
    decreases parts.len(),
{
    if parts.len() == 2 {
        assert(parts.drop_last().len() == 1);
        assert(joined(parts.drop_last(), sep) == parts[0]);
        assert(joined(parts.skip(1), sep) == parts[1]);
    } else {
        lemma_joined_front(parts.drop_last(), sep);
        assert(parts.drop_last().skip(1) =~= parts.skip(1).drop_last());
        assert(joined(parts, sep) =~= parts[0] + sep + (joined(parts.skip(1).drop_last(), sep) + sep
            + parts.last()));
    }
}

/// What the notation of an object lists from its member `i` on.
spec fn listed_from(e: Entries, i: int) -> Seq<char> {
    joined(entry_texts(e).skip(i), ","@) + "}"@
}

proof fn lemma_listed_from(e: Entries, i: int, depth: nat)
    requires
        0 <= i < e.len(),
        is_plain(JsonView::Object(e), depth),
    ensures
        ({
            let rest = if i + 1 < e.len() {
                ","@ + listed_from(e, i + 1)
            } else {
                "}"@
            };
            begins_with_member(listed_from(e, i), e[i].0, e[i].1, (depth - 1) as nat, rest)
        }),
{
    reveal_strlit(",");
    reveal_strlit("}");
    let parts = entry_texts(e).skip(i);
    assert(is_plain(JsonView::Object(e)->Object_0[i].1, (depth - 1) as nat));
    assert(parts[0] == quoted(e[i].0) + ":"@ + json_text(e[i].1));
    if i + 1 < e.len() {
        lemma_joined_front(parts, ","@);
        assert(parts.skip(1) =~= entry_texts(e).skip(i + 1));
        assert(listed_from(e, i) =~= quoted(e[i].0) + ":"@ + json_text(e[i].1) + (","@
            + listed_from(e, i + 1)));
    }
}

/// A text that lists nothing but the brace that ends an object.
fn is_end(s: &str) -> (r: bool)
    ensures
        r == (after_token(s@, "}"@) matches Some(end) && after_blanks(end).len() == 0),
{
    match strip_token(s, "}") {
        Some(end) => {
            let rest = skip_blanks(end.as_str());
            let none = chars_of(rest.as_str()).len() == 0;
            none
        },
        None => false,
    }
}

/// Behind a member the notation of an object has a comma and the next member, or
/// the brace that ends it.
proof fn lemma_behind_member(e: Entries, i: int)
    ensures
        after_token(","@ + listed_from(e, i), ","@) == Some(listed_from(e, i)),
        after_token("}"@, ","@) is None,
        after_token("}"@, "}"@) == Some(Seq::<char>::empty()),
{
    reveal_strlit(",");
    reveal_strlit("}");
    let more = ","@ + listed_from(e, i);
    assert(more[0] == ',');
    lemma_after_prefix(","@, listed_from(e, i));
    assert("}"@.subrange(0, 1) =~= "}"@);
    assert("}"@[0] != ","@[0]);
    assert("}"@.subrange(1, 1) =~= Seq::<char>::empty());
}

/// The members that a text lists up to the brace that ends it.
fn read_list(s: &str) -> (r: Option<Vec<(String, String)>>)
    ensures
        r.deep_view() == members(s@),
        forall|e: Entries, depth: nat| #[trigger]
            is_plain(JsonView::Object(e), depth) && e.len() > 0 && s@ == listed_from(e, 0)
                ==> r.deep_view() == Some(member_texts(e)),
{
    let mut out: Vec<(String, String)> = Vec::new();
    let mut rest: String = text(s);
    assert(out.deep_view() =~= Seq::<(Seq<char>, Seq<char>)>::empty());
    proof {
        if let Some(all) = members(s@) {
            assert(out.deep_view() + all =~= all);
        }
        assert forall|e: Entries, depth: nat| #[trigger]
            is_plain(JsonView::Object(e), depth) && e.len() > 0 && s@ == listed_from(
                e,
                0,
            ) implies out.deep_view() == member_texts(e).take(0) by {
            assert(out.deep_view() =~= member_texts(e).take(0));
        }
    }
    loop
        invariant
            match members(rest@) {
                Some(more) => members(s@) == Some(out.deep_view() + more),
                None => members(s@) is None,
            },
            forall|e: Entries, depth: nat| #[trigger]
                is_plain(JsonView::Object(e), depth) && e.len() > 0 && s@ == listed_from(e, 0) ==> {
                    &&& out.len() < e.len()
                    &&& rest@ == listed_from(e, out.len() as int)
                    &&& out.deep_view() == member_texts(e).take(out.len() as int)
                },
        decreases rest@.len(),
    {
        let ghost before = out.deep_view();
        let ghost n = out.len() as int;
        let found = read_member(rest.as_str());
        proof {
            lemma_first_member(rest@);
            assert forall|e: Entries, depth: nat| #[trigger]
                is_plain(JsonView::Object(e), depth) && e.len() > 0 && s@ == listed_from(
                    e,
                    0,
                ) implies found.deep_view() == Some(
                (
                    e[n].0,
                    json_text(e[n].1),
                    if n + 1 < e.len() {
                        ","@ + listed_from(e, n + 1)
                    } else {
                        "}"@
                    },
                ),
            ) by {
                lemma_listed_from(e, n, depth);
            }
        }
        let (name, value, behind) = match found {
            Some(member) => member,
            None => {
                return None;
            },
        };
        out.push((name, value));
        proof {
            assert(out.deep_view() =~= before.push((name@, value@)));
            lemma_after_blanks(behind@);
            assert forall|e: Entries, depth: nat| #[trigger]
                is_plain(JsonView::Object(e), depth) && e.len() > 0 && s@ == listed_from(
                    e,
                    0,
                ) implies {
                &&& out.deep_view() == member_texts(e).take(n + 1)
                &&& n + 1 < e.len() ==> after_token(behind@, ","@) == Some(listed_from(e, n + 1))
                &&& n + 1 == e.len() ==> {
                    &&& after_token(behind@, ","@) is None
                    &&& after_token(behind@, "}"@) == Some(Seq::<char>::empty())
                    &&& out.deep_view() == member_texts(e)
                }
            } by {
                lemma_behind_member(e, n + 1);
                assert(out.deep_view() =~= member_texts(e).take(n + 1));
                assert(member_texts(e).take(e.len() as int) =~= member_texts(e));
            }
        }
        match strip_token(behind.as_str(), ",") {
            Some(more) => {
                proof {
                    if let Some(others) = members(more@) {
                        assert(before + (seq![(name@, value@)] + others) =~= out.deep_view()
                            + others);
                    }
                }
                rest = more;
            },
            None => {
                if is_end(behind.as_str()) {
                    assert(before + seq![(name@, value@)] =~= out.deep_view());
                    return Some(out);
                }
                return None;
            },
        }
    }
}

/// How the notation of an object begins.
proof fn lemma_object_text(e: Entries)
    ensures
        ({
            let inside = if e.len() == 0 {
                "}"@
            } else {
                listed_from(e, 0)
            };
            &&& after_token(json_text(JsonView::Object(e)), "{"@) == Some(inside)
            &&& e.len() > 0 ==> after_token(inside, "}"@) is None
        }),
{
    reveal_strlit("{");
    reveal_strlit("}");
    reveal_strlit("\"");
    let parts = entry_texts(e);
    let inside = joined(parts, ","@) + "}"@;
    assert(parts.skip(0) =~= parts);
    assert(json_text(JsonView::Object(e)) =~= "{"@ + inside);
    assert(("{"@ + inside)[0] == '{');
    lemma_after_prefix("{"@, inside);
    if e.len() == 0 {
        assert(inside =~= "}"@);
    } else {
        if parts.len() >= 2 {
            lemma_joined_front(parts, ","@);
        }
        assert(parts[0] == quoted(e[0].0) + ":"@ + json_text(e[0].1));
        assert(parts[0][0] == '"');
        assert(inside[0] == '"');
        assert(inside.subrange(0, 1)[0] != "}"@[0]);
    }
}

/// The members of the object that a text denotes. The notation of an object
/// gives its entries back.
pub fn read_members(s: &str) -> (r: Option<Vec<(String, String)>>)
    ensures
        r.deep_view() == object_members(s@),
        forall|e: Entries, depth: nat| #[trigger]
            is_plain(JsonView::Object(e), depth) && s@ == json_text(JsonView::Object(e))
                ==> r.deep_view() == Some(member_texts(e)),
{
    proof {
        lemma_behind_member(Seq::empty(), 0);
        assert forall|e: Entries, depth: nat| #[trigger]
            is_plain(JsonView::Object(e), depth) && s@ == json_text(JsonView::Object(e)) implies {
            &&& e.len() == 0 ==> after_token(s@, "{"@) == Some("}"@)
            &&& e.len() == 0 ==> member_texts(e) == Seq::<(Seq<char>, Seq<char>)>::empty()
            &&& e.len() > 0 ==> after_token(s@, "{"@) == Some(listed_from(e, 0))
            &&& e.len() > 0 ==> after_token(listed_from(e, 0), "}"@) is None
        } by {
            lemma_object_text(e);
            if e.len() == 0 {
                assert(member_texts(e) =~= Seq::<(Seq<char>, Seq<char>)>::empty());
            }
        }
    }
    match strip_token(s, "{") {
        Some(inside) => {
            if is_end(inside.as_str()) {
                let none: Vec<(String, String)> = Vec::new();
                assert(none.deep_view() =~= Seq::<(Seq<char>, Seq<char>)>::empty());
                return Some(none);
            }
            match strip_token(inside.as_str(), "}") {
                Some(_) => None,
                None => read_list(inside.as_str()),
            }
        },
        None => None,
    }
}

// ---------------------------------------------------------------------------
// Values inside
// ---------------------------------------------------------------------------

/// What a notation denotes where it stands inside a list.
pub open spec fn inner_read(s: Seq<char>) -> Option<JsonView> {
    match json_read("["@ + s + "]"@) {
        Some(JsonView::List(v)) => if v.len() == 1 {
            Some(v[0])
        } else {
            None
        },
        _ => None,
    }
}

/// What a notation denotes where it stands inside a list. The notation of a
/// value gives the value back.
pub fn read_inner(s: &str) -> (r: Option<Json>)
    ensures
        r.deep_view() == inner_read(s@),
        forall|j: JsonView| #[trigger]
            is_plain(j, 99) && s@ == json_text(j) ==> r.deep_view() == Some(inner_value(j)),
{
    broadcast use lemma_list_view;

    let mut notation = text("[");
    notation.append(s);
    notation.append("]");
    proof {
        assert forall|j: JsonView| #[trigger] is_plain(j, 99) && s@ == json_text(j) implies {
            &&& is_plain(JsonView::List(seq![j]), 100)
            &&& notation@ == json_text(JsonView::List(seq![j]))
            &&& outer_value(JsonView::List(seq![j])) == JsonView::List(seq![inner_value(j)])
        } by {
            let list = seq![j];
            assert(list_texts(list) =~= seq![json_text(j)]);
            assert(joined(list_texts(list), ","@) == json_text(j));
            assert(Seq::new(list.len(), |i: int| inner_value(list[i])) =~= seq![inner_value(j)]);
        }
    }
    match read_json(notation.as_str()) {
        Some(Json::List(mut v)) => if v.len() == 1 {
            v.pop()
        } else {
            None
        },
        _ => None,
    }
}

/// The members of an object, each value as it is read.
pub open spec fn members_read(members: Seq<(Seq<char>, Seq<char>)>) -> Seq<
    (Seq<char>, Option<JsonView>),
> {
    members.map_values(|m: (Seq<char>, Seq<char>)| (m.0, inner_read(m.1)))
}

/// The entries of an object, each value as it is read inside another.
pub open spec fn entries_read(e: Entries) -> Seq<(Seq<char>, Option<JsonView>)> {
    e.map_values(|m: (Seq<char>, JsonView)| (m.0, Some(inner_value(m.1))))
}

/// Reads the value of each member.
pub fn read_values(members: &Vec<(String, String)>) -> (r: Vec<(String, Option<Json>)>)
    ensures
        r.deep_view() == members_read(members.deep_view()),
        forall|e: Entries| #[trigger]
            is_plain(JsonView::Object(e), 100) && members.deep_view() == member_texts(e)
                ==> r.deep_view() == entries_read(e),
{
    let ghost view = members.deep_view();
    let mut out: Vec<(String, Option<Json>)> = Vec::new();
    let mut i: usize = 0;
    while i < members.len()
        invariant
            i <= members.len(),
            view == members.deep_view(),
            out.deep_view() =~= members_read(view.take(i as int)),
            forall|e: Entries| #[trigger]
                is_plain(JsonView::Object(e), 100) && view == member_texts(e) ==> out.deep_view()
                    =~= entries_read(e.take(i as int)),
        decreases members.len() - i,
    {
        let ghost before = out.deep_view();
        let value = read_inner(members[i].1.as_str());
        proof {
            assert(view[i as int] == (members@[i as int].0@, members@[i as int].1@));
            assert forall|e: Entries| #[trigger]
                is_plain(JsonView::Object(e), 100) && view
                    == member_texts(e) implies value.deep_view() == Some(
                inner_value(e[i as int].1),
            ) by {
                assert(view[i as int] == member_texts(e)[i as int]);
                assert(is_plain(JsonView::Object(e)->Object_0[i as int].1, 99));
            }
        }
        out.push((members[i].0.clone(), value));
        assert(out.deep_view() =~= before.push((view[i as int].0, value.deep_view())));
        i = i + 1;
    }
    assert(view.take(i as int) =~= view);
    proof {
        assert forall|e: Entries| #[trigger]
            is_plain(JsonView::Object(e), 100) && view == member_texts(e) implies out.deep_view()
            == entries_read(e) by {
            assert(member_texts(e).len() == e.len());
            assert(e.take(i as int) =~= e);
        }
    }
    out
}

} // verus!
