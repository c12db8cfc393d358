//! JSON values as the library holds them, and their compact notation.

use vstd::prelude::*;
use vstd::string::*;

use crate::text::{join, signed_decimal_text, text, text_eq};
use crate::text::{joined, signed_decimal};

verus! {

/// A JSON value.
///
/// `Raw` holds the compact notation of a value that the library carries
/// through without looking inside. Numbers that the library makes itself are
/// integers; any other number is carried as `Raw`.
#[derive(Debug, PartialEq, Eq)]
pub enum Json {
    Null,
    Bool(bool),
    Int(i128),
    Text(String),
    List(Vec<Json>),
    Object(Vec<(String, Json)>),
    Raw(String),
}

/// What a [`Json`] stands for.
pub enum JsonView {
    Null,
    Bool(bool),
    Int(int),
    Text(Seq<char>),
    List(Seq<JsonView>),
    Object(Seq<(Seq<char>, JsonView)>),
    Raw(Seq<char>),
}

/// The named values of an object, in order.
pub type Entries = Seq<(Seq<char>, JsonView)>;

/// What the value `j` stands for.
pub open spec fn json_view(j: Json) -> JsonView
    decreases j,
{
    match j {
        Json::Null => JsonView::Null,
        Json::Bool(b) => JsonView::Bool(b),
        Json::Int(n) => JsonView::Int(n as int),
        Json::Text(s) => JsonView::Text(s@),
        Json::List(v) => JsonView::List(
            Seq::new(
                v@.len(),
                |i: int|
                    if 0 <= i < v@.len() {
                        json_view(v@[i])
                    } else {
                        JsonView::Null
                    },
            ),
        ),
        Json::Object(v) => JsonView::Object(
            Seq::new(
                v@.len(),
                |i: int|
                    if 0 <= i < v@.len() {
                        (v@[i].0@, json_view(v@[i].1))
                    } else {
                        (Seq::empty(), JsonView::Null)
                    },
            ),
        ),
        Json::Raw(s) => JsonView::Raw(s@),
    }
}

impl View for Json {
    type V = JsonView;

    open spec fn view(&self) -> JsonView {
        json_view(*self)
    }
}

impl DeepView for Json {
    type V = JsonView;

    open spec fn deep_view(&self) -> JsonView {
        json_view(*self)
    }
}

/// An object stands for its entries, a list for its items.
pub broadcast proof fn lemma_object_view(v: Vec<(String, Json)>)
    ensures
        #[trigger] json_view(Json::Object(v)) == JsonView::Object(v.deep_view()),
{
    assert(json_view(Json::Object(v))->Object_0 =~= v.deep_view());
}

/// A list stands for its items.
pub broadcast proof fn lemma_list_view(v: Vec<Json>)
    ensures
        #[trigger] json_view(Json::List(v)) == JsonView::List(v.deep_view()),
{
    assert(json_view(Json::List(v))->List_0 =~= v.deep_view());
}

impl Clone for Json {
    fn clone(&self) -> (r: Json)
        ensures
            r@ == self@,
        decreases self,
    {
        match self {
            Json::Null => Json::Null,
            Json::Bool(b) => Json::Bool(*b),
            Json::Int(n) => Json::Int(*n),
            Json::Text(s) => Json::Text(s.clone()),
            Json::Raw(s) => Json::Raw(s.clone()),
            Json::List(v) => {
                let mut out: Vec<Json> = Vec::new();
                let mut i: usize = 0;
                while i < v.len()
                    invariant
                        i <= v.len(),
                        out.len() == i,
                        forall|k: int| 0 <= k < i ==> (#[trigger] out@[k])@ == v@[k]@,
                        self == Json::List(*v),
                    decreases v.len() - i,
                {
                    assert(decreases_to!(self => (*self)->List_0@[i as int]));
                    out.push(v[i].clone());
                    i = i + 1;
                }
                let r = Json::List(out);
                assert(r@->List_0 =~= self@->List_0);
                r
            },
            Json::Object(v) => {
                let mut out: Vec<(String, Json)> = Vec::new();
                let mut i: usize = 0;
                while i < v.len()
                    invariant
                        i <= v.len(),
                        out.len() == i,
                        forall|k: int|
                            0 <= k < i ==> (#[trigger] out@[k]).1@ == v@[k].1@ && out@[k].0@
                                == v@[k].0@,
                        self == Json::Object(*v),
                    decreases v.len() - i,
                {
                    assert(decreases_to!(self => (*self)->Object_0@[i as int].1));
                    out.push((v[i].0.clone(), v[i].1.clone()));
                    i = i + 1;
                }
                let r = Json::Object(out);
                assert(r@->Object_0 =~= self@->Object_0);
                r
            },
        }
    }
}

// ---------------------------------------------------------------------------
// Entries of an object
// ---------------------------------------------------------------------------

/// The value that the first entry named `key` holds.
pub open spec fn entry(entries: Entries, key: Seq<char>) -> Option<JsonView>
    decreases entries.len(),
{
    if entries.len() == 0 {
        None
    } else if entries[0].0 == key {
        Some(entries[0].1)
    } else {
        entry(entries.drop_first(), key)
    }
}

/// `entries` with `key` holding `value`: in its place when it has one, else last.
pub open spec fn with_entry(entries: Entries, key: Seq<char>, value: JsonView) -> Entries
    decreases entries.len(),
{
    if entries.len() == 0 {
        seq![(key, value)]
    } else if entries[0].0 == key {
        seq![(key, value)] + entries.drop_first()
    } else {
        seq![entries[0]] + with_entry(entries.drop_first(), key, value)
    }
}

/// Reading an entry that was just written gives what was written; every other
/// entry reads as before.
pub proof fn entry_after_write(entries: Entries, key: Seq<char>, value: JsonView, other: Seq<char>)
    ensures
        entry(with_entry(entries, key, value), key) == Some(value),
        other != key ==> entry(with_entry(entries, key, value), other) == entry(entries, other),
    decreases entries.len(),
{
    let w = with_entry(entries, key, value);
    if entries.len() == 0 {
        assert(w.drop_first() =~= Seq::empty());
        assert(entry(Seq::empty(), other) is None);
    } else if entries[0].0 == key {
        assert(w.drop_first() =~= entries.drop_first());
    } else {
        entry_after_write(entries.drop_first(), key, value, other);
        assert(w.drop_first() =~= with_entry(entries.drop_first(), key, value));
    }
}

proof fn lemma_entry_skip(entries: Entries, key: Seq<char>, n: int)
    requires
        0 <= n <= entries.len(),
        forall|j: int| 0 <= j < n ==> (#[trigger] entries[j]).0 != key,
    ensures
        entry(entries, key) == entry(entries.skip(n), key),
    decreases n,
{
    if n == 0 {
        assert(entries.skip(0) =~= entries);
    } else {
        assert(entries[0].0 != key);
        assert forall|j: int| 0 <= j < n - 1 implies (#[trigger] entries.drop_first()[j]).0
            != key by {
            assert(entries[j + 1].0 != key);
        }
        lemma_entry_skip(entries.drop_first(), key, n - 1);
        assert(entries.drop_first().skip(n - 1) =~= entries.skip(n));
    }
}

/// No value stands under a name that no entry has.
pub proof fn lemma_entry_absent(entries: Entries, key: Seq<char>)
    requires
        forall|j: int| 0 <= j < entries.len() ==> (#[trigger] entries[j]).0 != key,
    ensures
        entry(entries, key) is None,
{
    lemma_entry_skip(entries, key, entries.len() as int);
    assert(entries.skip(entries.len() as int) =~= Seq::empty());
}

/// An entry that no earlier one shares its name with is read under its name.
pub proof fn lemma_entry_at(entries: Entries, k: int)
    requires
        0 <= k < entries.len(),
        forall|j: int| 0 <= j < k ==> (#[trigger] entries[j]).0 != entries[k].0,
    ensures
        entry(entries, entries[k].0) == Some(entries[k].1),
{
    lemma_entry_skip(entries, entries[k].0, k);
    assert(entries.skip(k)[0] == entries[k]);
}

proof fn lemma_with_entry_skip(entries: Entries, key: Seq<char>, value: JsonView, n: int)
    requires
        0 <= n <= entries.len(),
        forall|j: int| 0 <= j < n ==> (#[trigger] entries[j]).0 != key,
    ensures
        with_entry(entries, key, value) == entries.take(n) + with_entry(
            entries.skip(n),
            key,
            value,
        ),
    decreases n,
{
    if n == 0 {
        assert(entries.skip(0) =~= entries);
        assert(entries.take(0) + with_entry(entries, key, value) =~= with_entry(
            entries,
            key,
            value,
        ));
    } else {
        assert(entries[0].0 != key);
        assert forall|j: int| 0 <= j < n - 1 implies (#[trigger] entries.drop_first()[j]).0
            != key by {
            assert(entries[j + 1].0 != key);
        }
        lemma_with_entry_skip(entries.drop_first(), key, value, n - 1);
        assert(entries.drop_first().skip(n - 1) =~= entries.skip(n));
        assert(seq![entries[0]] + entries.drop_first().take(n - 1) =~= entries.take(n));
        assert(with_entry(entries, key, value) =~= entries.take(n) + with_entry(
            entries.skip(n),
            key,
            value,
        ));
    }
}

/// The value that the first entry named `key` holds.
pub fn get_entry<'a>(entries: &'a Vec<(String, Json)>, key: &str) -> (r: Option<&'a Json>)
    ensures
        r.deep_view() == entry(entries.deep_view(), key@),
{
    let ghost view = entries.deep_view();
    let mut i: usize = 0;
    while i < entries.len()
        invariant
            i <= entries.len(),
            view == entries.deep_view(),
            forall|j: int| 0 <= j < i ==> (#[trigger] view[j]).0 != key@,
        decreases entries.len() - i,
    {
        assert(view[i as int] == (entries@[i as int].0@, entries@[i as int].1@));
        if text_eq(entries[i].0.as_str(), key) {
            proof {
                lemma_entry_skip(view, key@, i as int);
                assert(view.skip(i as int)[0] == view[i as int]);
            }
            return Some(&entries[i].1);
        }
        i = i + 1;
    }
    proof {
        lemma_entry_skip(view, key@, i as int);
        assert(view.skip(i as int) =~= Seq::empty());
    }
    None
}

/// Writes `value` under `key`: in its place when it has one, else last.
pub fn put_entry(entries: &mut Vec<(String, Json)>, key: &str, value: Json)
    ensures
        final(entries).deep_view() == with_entry(old(entries).deep_view(), key@, value@),
{
    let ghost view = entries.deep_view();
    let mut i: usize = 0;
    while i < entries.len()
        invariant
            i <= entries.len(),
            *entries == *old(entries),
            view == entries.deep_view(),
            forall|j: int| 0 <= j < i ==> (#[trigger] view[j]).0 != key@,
        decreases entries.len() - i,
    {
        assert(view[i as int] == (entries@[i as int].0@, entries@[i as int].1@));
        if text_eq(entries[i].0.as_str(), key) {
            let ghost val = value@;
            entries.set(i, (text(key), value));
            proof {
                lemma_with_entry_skip(view, key@, val, i as int);
                assert(view.skip(i as int)[0] == view[i as int]);
                assert(view.skip(i as int).drop_first() =~= view.skip(i + 1));
                assert(entries.deep_view() =~= view.take(i as int) + (seq![(key@, val)]
                    + view.skip(i + 1)));
            }
            return ;
        }
        i = i + 1;
    }
    let ghost val = value@;
    entries.push((text(key), value));
    proof {
        lemma_with_entry_skip(view, key@, val, i as int);
        assert(view.skip(i as int) =~= Seq::empty());
        assert(entries.deep_view() =~= view.take(i as int) + seq![(key@, val)]);
    }
}

// ---------------------------------------------------------------------------
// Compact notation
// ---------------------------------------------------------------------------

/// A lower-case hexadecimal digit.
pub open spec fn hex_digit(d: nat) -> char {
    if d < 10 {
        (48 + d) as char
    } else {
        (87 + d) as char
    }
}

/// How one character stands inside a JSON string.
pub open spec fn escaped_char(c: char) -> Seq<char> {
    if c == '"' {
        seq!['\\', '"']
    } else if c == '\\' {
        seq!['\\', '\\']
    } else if c == '\n' {
        seq!['\\', 'n']
    } else if c == '\r' {
        seq!['\\', 'r']
    } else if c == '\t' {
        seq!['\\', 't']
    } else if c == '\u{8}' {
        seq!['\\', 'b']
    } else if c == '\u{c}' {
        seq!['\\', 'f']
    } else if (c as nat) < 32 {
        seq!['\\', 'u', '0', '0', hex_digit(c as nat / 16), hex_digit(c as nat % 16)]
    } else {
        seq![c]
    }
}

/// `s` with every character as it stands inside a JSON string.
pub open spec fn escaped(s: Seq<char>) -> Seq<char>
    decreases s.len(),
{
    if s.len() == 0 {
        Seq::empty()
    } else {
        escaped(s.drop_last()) + escaped_char(s.last())
    }
}

/// The JSON string that denotes `s`.
pub open spec fn quoted(s: Seq<char>) -> Seq<char> {
    "\""@ + escaped(s) + "\""@
}

/// `serde_json::to_string` on a string slice: the text between quotes, with
/// the quote, the backslash and the control characters below U+0020 escaped
/// (the short escapes where JSON has one, else `\u00` and two lower-case
/// hexadecimal digits), and every other character as it is.
#[verifier::external_body]
fn quote(s: &str) -> (r: String)
    ensures
        r@ == quoted(s@),
{
    serde_json::to_string(s).unwrap_or_default()
}

/// The compact notation of `j`.
pub open spec fn json_text(j: JsonView) -> Seq<char>
    decreases j,
{
    match j {
        JsonView::Null => "null"@,
        JsonView::Bool(b) => if b {
            "true"@
        } else {
            "false"@
        },
        JsonView::Int(n) => signed_decimal(n),
        JsonView::Text(s) => quoted(s),
        JsonView::List(v) => "["@ + joined(list_texts(v), ","@) + "]"@,
        JsonView::Object(v) => "{"@ + joined(entry_texts(v), ","@) + "}"@,
        JsonView::Raw(s) => s,
    }
}

/// The compact notation of each item of a list.
pub open spec fn list_texts(v: Seq<JsonView>) -> Seq<Seq<char>>
    decreases v,
{
    Seq::new(
        v.len(),
        |i: int|
            if 0 <= i < v.len() {
                json_text(v[i])
            } else {
                Seq::empty()
            },
    )
}

/// The compact notation of each entry of an object.
pub open spec fn entry_texts(v: Entries) -> Seq<Seq<char>>
    decreases v,
{
    Seq::new(
        v.len(),
        |i: int|
            if 0 <= i < v.len() {
                quoted(v[i].0) + ":"@ + json_text(v[i].1)
            } else {
                Seq::empty()
            },
    )
}

impl Json {
    /// The compact notation of the value.
    pub fn to_text(&self) -> (r: String)
        ensures
            r@ == json_text(self@),
        decreases self,
    {
        match self {
            Json::Null => text("null"),
            Json::Bool(b) => if *b {
                text("true")
            } else {
                text("false")
            },
            Json::Int(n) => signed_decimal_text(*n),
            Json::Text(s) => quote(s.as_str()),
            Json::Raw(s) => s.clone(),
            Json::List(v) => {
                let mut parts: Vec<String> = Vec::new();
                let mut i: usize = 0;
                while i < v.len()
                    invariant
                        i <= v.len(),
                        parts.len() == i,
                        forall|k: int| 0 <= k < i ==> (#[trigger] parts@[k])@ == json_text(v@[k]@),
                        self == Json::List(*v),
                    decreases v.len() - i,
                {
                    assert(decreases_to!(self => (*self)->List_0@[i as int]));
                    parts.push(v[i].to_text());
                    i = i + 1;
                }
                let ghost items = self@->List_0;
                assert(parts.deep_view() =~= list_texts(items));
                let mut out = text("[");
                out.append(join(&parts, ",").as_str());
                out.append("]");
                out
            },
            Json::Object(v) => {
                let mut parts: Vec<String> = Vec::new();
                let mut i: usize = 0;
                while i < v.len()
                    invariant
                        i <= v.len(),
                        parts.len() == i,
                        forall|k: int|
                            0 <= k < i ==> (#[trigger] parts@[k])@ == quoted(v@[k].0@) + ":"@
                                + json_text(v@[k].1@),
                        self == Json::Object(*v),
                    decreases v.len() - i,
                {
                    assert(decreases_to!(self => (*self)->Object_0@[i as int].1));
                    let mut part = quote(v[i].0.as_str());
                    part.append(":");
                    part.append(v[i].1.to_text().as_str());
                    parts.push(part);
                    i = i + 1;
                }
                let ghost items = self@->Object_0;
                assert(parts.deep_view() =~= entry_texts(items));
                let mut out = text("{");
                out.append(join(&parts, ",").as_str());
                out.append("}");
                out
            },
        }
    }

    /// The value under `key`, when this is an object that has one.
    pub fn get(&self, key: &str) -> (r: Option<&Json>)
        ensures
            r.deep_view() == member(self@, key@),
    {
        broadcast use lemma_object_view;

        match self {
            Json::Object(entries) => get_entry(entries, key),
            _ => None,
        }
    }

    /// The text that a JSON string holds.
    pub fn as_text(&self) -> (r: Option<&String>)
        ensures
            r.deep_view() == text_of(self@),
    {
        match self {
            Json::Text(s) => Some(s),
            _ => None,
        }
    }
}

/// The value under `key`, when `j` is an object that has one.
pub open spec fn member(j: JsonView, key: Seq<char>) -> Option<JsonView> {
    match j {
        JsonView::Object(entries) => entry(entries, key),
        _ => None,
    }
}

/// The text under `key`, when `j` is an object with a string there.
pub open spec fn text_member(j: JsonView, key: Seq<char>) -> Option<Seq<char>> {
    match member(j, key) {
        Some(v) => text_of(v),
        None => None,
    }
}

/// The text under `key`, when `j` is an object with a string there.
pub fn get_text_member<'a>(j: &'a Json, key: &str) -> (r: Option<&'a String>)
    ensures
        r.deep_view() == text_member(j@, key@),
{
    match j.get(key) {
        Some(v) => v.as_text(),
        None => None,
    }
}

/// The text that a JSON string holds.
pub open spec fn text_of(j: JsonView) -> Option<Seq<char>> {
    match j {
        JsonView::Text(s) => Some(s),
        _ => None,
    }
}

/// The text under `key`, when `key` holds a string.
pub open spec fn text_entry(entries: Entries, key: Seq<char>) -> Option<Seq<char>> {
    match entry(entries, key) {
        Some(j) => text_of(j),
        None => None,
    }
}

/// The text under `key`, when `key` holds a string.
pub fn get_text<'a>(entries: &'a Vec<(String, Json)>, key: &str) -> (r: Option<&'a String>)
    ensures
        r.deep_view() == text_entry(entries.deep_view(), key@),
{
    match get_entry(entries, key) {
        Some(j) => j.as_text(),
        None => None,
    }
}

// ---------------------------------------------------------------------------
// Reading
// ---------------------------------------------------------------------------

/// What `serde_json::from_str` reads in a text as a `serde_json::Value`, or
/// `None` when the text is not JSON. Strings, booleans and `null` are given as
/// they are, also as the items of a list and the values of an object; a number,
/// and a list or an object further inside, is given by its compact notation.
pub uninterp spec fn json_read(s: Seq<char>) -> Option<JsonView>;

/// A value that JSON text can hold as it is: every integer in the range of 64
/// bits, the names of an object all different, nothing carried as notation, and
/// lists and objects nested no more than `depth` times.
pub open spec fn is_plain(j: JsonView, depth: nat) -> bool
    decreases depth,
{
    match j {
        JsonView::Null => true,
        JsonView::Bool(_) => true,
        JsonView::Text(_) => true,
        JsonView::Int(n) => i64::MIN <= n <= u64::MAX,
        JsonView::List(v) => depth > 0 && forall|i: int|
            0 <= i < v.len() ==> is_plain(#[trigger] v[i], (depth - 1) as nat),
        JsonView::Object(v) => {
            &&& depth > 0
            &&& forall|i: int| 0 <= i < v.len() ==> is_plain((#[trigger] v[i]).1, (depth - 1) as nat)
            &&& forall|i: int, k: int|
                0 <= i < k < v.len() ==> (#[trigger] v[i]).0 != (#[trigger] v[k]).0
        },
        JsonView::Raw(_) => false,
    }
}

/// A value inside another as reading gives it: numbers, lists and objects by
/// their notation.
pub open spec fn inner_value(j: JsonView) -> JsonView {
    match j {
        JsonView::Int(_) => JsonView::Raw(json_text(j)),
        JsonView::List(_) => JsonView::Raw(json_text(j)),
        JsonView::Object(_) => JsonView::Raw(json_text(j)),
        _ => j,
    }
}

/// A value as reading gives it.
pub open spec fn outer_value(j: JsonView) -> JsonView {
    match j {
        JsonView::List(v) => JsonView::List(Seq::new(v.len(), |i: int| inner_value(v[i]))),
        JsonView::Object(v) => JsonView::Object(
            Seq::new(v.len(), |i: int| (v[i].0, inner_value(v[i].1))),
        ),
        _ => inner_value(j),
    }
}

/// `serde_json::from_str` into a `serde_json::Value`: what the text denotes is
/// a function of the text alone. The notation of a value reads back as that
/// value, as far as the parser's nesting limit allows; what the function is on
/// other texts is left unsaid.
#[verifier::external_body]
pub(crate) fn read_json(s: &str) -> (r: Option<Json>)
    ensures
        r.deep_view() == json_read(s@),
        forall|j: JsonView| #[trigger]
            is_plain(j, 100) && s@ == json_text(j) ==> r.deep_view() == Some(outer_value(j)),
{
    let inner = |value: serde_json::Value| match value {
        serde_json::Value::Null => Json::Null,
        serde_json::Value::Bool(b) => Json::Bool(b),
        serde_json::Value::String(s) => Json::Text(s),
        other => Json::Raw(other.to_string()),
    };
    serde_json::from_str(s).ok().map(|value| match value {
        serde_json::Value::Object(map) => Json::Object(
            map.into_iter().map(|(k, v)| (k, inner(v))).collect(),
        ),
        serde_json::Value::Array(items) => Json::List(items.into_iter().map(inner).collect()),
        other => inner(other),
    })
}

/// A value with its outside spelled out: one that is carried by its notation, as
/// reading gives it.
pub open spec fn opened(j: JsonView) -> JsonView {
    match j {
        JsonView::Raw(s) => match json_read(s) {
            Some(v) => v,
            None => j,
        },
        _ => j,
    }
}

/// A copy of a value with its outside spelled out.
pub fn open_value(j: &Json) -> (r: Json)
    ensures
        r@ == opened(j@),
{
    if let Json::Raw(s) = j {
        if let Some(v) = read_json(s.as_str()) {
            return v;
        }
    }
    j.clone()
}

/// The value under `key`, with its outside spelled out.
pub open spec fn opened_entry(entries: Entries, key: Seq<char>) -> Option<JsonView> {
    match entry(entries, key) {
        Some(j) => Some(opened(j)),
        None => None,
    }
}

/// A copy of the value under `key`, with its outside spelled out.
pub fn open_entry(entries: &Vec<(String, Json)>, key: &str) -> (r: Option<Json>)
    ensures
        r.deep_view() == opened_entry(entries.deep_view(), key@),
{
    match get_entry(entries, key) {
        Some(j) => Some(open_value(j)),
        None => None,
    }
}

} // verus!
