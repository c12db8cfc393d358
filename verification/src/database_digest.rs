//! A digest of all that the database of a thread holds.

use vstd::prelude::*;
use vstd::string::*;
use vstd::utf8::*;

use crate::idempotency::{hex, hex_encode, sha256, sha256_of};
use crate::json::{entry, get_entry, json_text, Entries, Json, JsonView};
use crate::ordering::{positions, sorted_positions, stable_order};
use crate::text::{chars_of, is_before, join, joined, stands_before, text};

verus! {

// ---------------------------------------------------------------------------
// Queries
// ---------------------------------------------------------------------------

/// A text with every quote doubled.
pub open spec fn doubled(s: Seq<char>) -> Seq<char>
    decreases s.len(),
{
    if s.len() == 0 {
        Seq::empty()
    } else if s.last() == '"' {
        doubled(s.drop_last()).push('"').push('"')
    } else {
        doubled(s.drop_last()).push(s.last())
    }
}

/// A name as it stands in a query.
pub open spec fn quoted_name(s: Seq<char>) -> Seq<char> {
    seq!['"'] + doubled(s) + seq!['"']
}

/// A name as it stands in a query.
pub fn quote_ident(name: &str) -> (r: String)
    ensures
        r@ == quoted_name(name@),
{
    let chars = chars_of(name);
    let ghost all = chars@;
    let mut out = String::new();
    out.push('"');
    assert(out@ =~= seq!['"'] + doubled(all.take(0)));
    let mut i: usize = 0;
    while i < chars.len()
        invariant
            i <= chars.len(),
            all == chars@,
            out@ == seq!['"'] + doubled(all.take(i as int)),
        decreases chars.len() - i,
    {
        assert(all.take(i + 1).drop_last() =~= all.take(i as int));
        let ghost before = doubled(all.take(i as int));
        if chars[i] == '"' {
            out.push('"');
            out.push('"');
            assert(out@ =~= seq!['"'] + before.push('"').push('"'));
        } else {
            out.push(chars[i]);
            assert(out@ =~= seq!['"'] + before.push(all[i as int]));
        }
        i = i + 1;
    }
    assert(all.take(i as int) =~= all);
    out.push('"');
    assert(out@ =~= quoted_name(name@));
    out
}

/// A column of a table: its name, and its place in the primary key.
#[derive(Debug, PartialEq, Eq)]
pub struct TableColumn {
    pub name: Option<String>,
    pub pk: Option<i64>,
}

/// What a [`TableColumn`] stands for.
#[verifier::ext_equal]
pub struct TableColumnView {
    pub name: Option<Seq<char>>,
    pub pk: Option<i64>,
}

impl View for TableColumn {
    type V = TableColumnView;

    open spec fn view(&self) -> TableColumnView {
        TableColumnView { name: self.name.deep_view(), pk: self.pk }
    }
}

impl DeepView for TableColumn {
    type V = TableColumnView;

    open spec fn deep_view(&self) -> TableColumnView {
        self@
    }
}

/// The column belongs to the primary key.
pub open spec fn is_key_column(c: TableColumnView) -> bool {
    c.name is Some && c.pk is Some && c.pk->0 > 0
}

/// The places in the primary key of those of the first `n` columns that belong
/// to it.
pub open spec fn key_places(columns: Seq<TableColumnView>, n: int) -> Seq<(i64, i64)>
    decreases n,
{
    if n <= 0 {
        Seq::empty()
    } else if is_key_column(columns[n - 1]) {
        key_places(columns, n - 1).push((columns[n - 1].pk->0, 0))
    } else {
        key_places(columns, n - 1)
    }
}

/// Their names, as they stand in a query.
pub open spec fn key_names(columns: Seq<TableColumnView>, n: int) -> Seq<Seq<char>>
    decreases n,
{
    if n <= 0 {
        Seq::empty()
    } else if is_key_column(columns[n - 1]) {
        key_names(columns, n - 1).push(quoted_name(columns[n - 1].name->0))
    } else {
        key_names(columns, n - 1)
    }
}

/// The names of the primary key, in the order of the key.
pub open spec fn ordered_key(columns: Seq<TableColumnView>) -> Seq<Seq<char>> {
    let n = columns.len() as int;
    stable_order(key_places(columns, n)).map_values(|k: int| key_names(columns, n)[k])
}

/// The query for all rows of a table, in the order of the primary key, or of the
/// rows themselves where there is none.
pub open spec fn select_query(table: Seq<char>, columns: Seq<TableColumnView>) -> Seq<char> {
    let key = ordered_key(columns);
    "SELECT * FROM "@ + quoted_name(table) + " ORDER BY "@ + (if key.len() == 0 {
        "rowid"@
    } else {
        joined(key, ", "@)
    })
}

/// The query for all rows of a table, in an order that does not depend on how
/// they came into it.
pub fn select_all_ordered(table: &str, columns: &Vec<TableColumn>) -> (r: String)
    ensures
        r@ == select_query(table@, columns.deep_view()),
{
    let ghost view = columns.deep_view();
    let mut places: Vec<(i64, i64)> = Vec::new();
    let mut names: Vec<String> = Vec::new();
    assert(places@ =~= key_places(view, 0));
    assert(names.deep_view() =~= key_names(view, 0));
    let mut i: usize = 0;
    while i < columns.len()
        invariant
            i <= columns.len(),
            view == columns.deep_view(),
            places@ == key_places(view, i as int),
            names.deep_view() == key_names(view, i as int),
            places.len() == names.len(),
        decreases columns.len() - i,
    {
        let ghost before = names.deep_view();
        assert(view[i as int] == columns@[i as int]@);
        let pk: i64 = match columns[i].pk {
            Some(n) => n,
            None => 0,
        };
        if pk > 0 {
            if let Some(name) = &columns[i].name {
                places.push((pk, 0));
                names.push(quote_ident(name.as_str()));
                assert(names.deep_view() =~= before.push(quoted_name(name@)));
            }
        }
        i = i + 1;
    }
    let order = sorted_positions(&places);
    let ghost key = ordered_key(view);
    let ghost all = names.deep_view();
    let mut sorted: Vec<String> = Vec::new();
    assert(sorted.deep_view() =~= key.take(0));
    assert(positions(order@).len() == order.len());
    let mut k: usize = 0;
    while k < order.len()
        invariant
            k <= order.len(),
            all == names.deep_view(),
            all == key_names(view, view.len() as int),
            positions(order@) == stable_order(key_places(view, view.len() as int)),
            key == ordered_key(view),
            key.len() == order.len(),
            order.len() == names.len(),
            forall|p: int| 0 <= p < order.len() ==> #[trigger] order@[p] < names.len(),
            sorted.deep_view() == key.take(k as int),
        decreases order.len() - k,
    {
        let ghost before = sorted.deep_view();
        let at: usize = order[k];
        assert(positions(order@)[k as int] == at);
        assert(all[at as int] == names@[at as int]@);
        sorted.push(names[at].clone());
        assert(sorted.deep_view() =~= before.push(all[at as int]));
        assert(key.take(k + 1) =~= key.take(k as int).push(key[k as int]));
        k = k + 1;
    }
    assert(key.take(k as int) =~= key);
    assert(sorted.len() == sorted.deep_view().len());
    let mut sql = text("SELECT * FROM ");
    sql.append(quote_ident(table).as_str());
    sql.append(" ORDER BY ");
    if sorted.len() == 0 {
        sql.append("rowid");
    } else {
        sql.append(join(&sorted, ", ").as_str());
    }
    sql
}

// ---------------------------------------------------------------------------
// Bytes
// ---------------------------------------------------------------------------

/// The entry `i` put into an order of entries: behind every one that its name
/// does not stand before.
pub open spec fn placed_name(order: Seq<int>, e: Entries, i: int) -> Seq<int>
    decreases order.len(),
{
    if order.len() > 0 && stands_before(e[i].0, e[order.last()].0) {
        placed_name(order.drop_last(), e, i).push(order.last())
    } else {
        order.push(i)
    }
}

/// The positions of the first `n` entries, in the order of their names.
pub open spec fn name_order(e: Entries, n: int) -> Seq<int>
    decreases n,
{
    if n <= 0 {
        Seq::empty()
    } else {
        placed_name(name_order(e, n - 1), e, n - 1)
    }
}

/// The bytes of one value of a row: its name and its notation, each with an end.
pub open spec fn field_bytes(name: Seq<char>, value: JsonView) -> Seq<u8> {
    encode_utf8(name).push(0u8) + encode_utf8(json_text(value)).push(0xffu8)
}

/// The bytes of some values of a row, in the order `order`.
pub open spec fn fields_bytes(e: Entries, order: Seq<int>) -> Seq<u8>
    decreases order.len(),
{
    if order.len() == 0 {
        Seq::empty()
    } else {
        fields_bytes(e, order.drop_last()) + field_bytes(e[order.last()].0, e[order.last()].1)
    }
}

/// The bytes of a row: of its values in the order of their names.
pub open spec fn row_bytes(e: Entries) -> Seq<u8> {
    fields_bytes(e, name_order(e, e.len() as int))
}

/// The bytes of the first `n` rows.
pub open spec fn rows_bytes(rows: Seq<Entries>, n: int) -> Seq<u8>
    decreases n,
{
    if n <= 0 {
        Seq::empty()
    } else {
        rows_bytes(rows, n - 1) + row_bytes(rows[n - 1])
    }
}

/// A row as it was read.
#[derive(Debug, PartialEq, Eq)]
pub struct SqlRow {
    pub values: Vec<(String, Json)>,
}

impl View for SqlRow {
    type V = Entries;

    open spec fn view(&self) -> Entries {
        self.values.deep_view()
    }
}

impl DeepView for SqlRow {
    type V = Entries;

    open spec fn deep_view(&self) -> Entries {
        self@
    }
}

/// A table as it was read.
#[derive(Debug, PartialEq, Eq)]
pub struct TableImage {
    pub name: String,
    pub rows: Vec<SqlRow>,
}

/// What a [`TableImage`] stands for.
#[verifier::ext_equal]
pub struct TableImageView {
    pub name: Seq<char>,
    pub rows: Seq<Entries>,
}

impl View for TableImage {
    type V = TableImageView;

    open spec fn view(&self) -> TableImageView {
        TableImageView { name: self.name@, rows: self.rows.deep_view() }
    }
}

impl DeepView for TableImage {
    type V = TableImageView;

    open spec fn deep_view(&self) -> TableImageView {
        self@
    }
}

/// The bytes of a table.
pub open spec fn table_bytes(t: TableImageView) -> Seq<u8> {
    encode_utf8("table:"@) + encode_utf8(t.name).push(0u8) + rows_bytes(t.rows, t.rows.len() as int)
}

/// The bytes of the first `n` tables.
pub open spec fn tables_bytes(tables: Seq<TableImageView>, n: int) -> Seq<u8>
    decreases n,
{
    if n <= 0 {
        Seq::empty()
    } else {
        tables_bytes(tables, n - 1) + table_bytes(tables[n - 1])
    }
}

/// The bytes of a database: of its schema, and of its tables.
pub open spec fn database_bytes(schema: Seq<Entries>, tables: Seq<TableImageView>) -> Seq<u8> {
    rows_bytes(schema, schema.len() as int) + tables_bytes(tables, tables.len() as int)
}

fn append_bytes(out: &mut Vec<u8>, bytes: &[u8])
    ensures
        final(out)@ == old(out)@ + bytes@,
{
    let ghost start = out@;
    let mut i: usize = 0;
    while i < bytes.len()
        invariant
            i <= bytes.len(),
            out@ =~= start + bytes@.take(i as int),
        decreases bytes.len() - i,
    {
        out.push(bytes[i]);
        i = i + 1;
    }
    assert(bytes@.take(i as int) =~= bytes@);
}

fn place_name(order: &mut Vec<usize>, e: &Vec<(String, Json)>, i: usize)
    requires
        i < e.len(),
        forall|p: int| 0 <= p < old(order).len() ==> #[trigger] old(order)@[p] < e.len(),
    ensures
        positions(final(order)@) == placed_name(
            positions(old(order)@),
            e.deep_view(),
            i as int,
        ),
        forall|p: int| 0 <= p < final(order).len() ==> #[trigger] final(order)@[p] < e.len(),
    decreases old(order).len(),
{
    let n: usize = order.len();
    let ghost start = order@;
    let ghost view = e.deep_view();
    if n > 0 {
        let last: usize = order[n - 1];
        assert(view[i as int].0 == e@[i as int].0@);
        assert(view[last as int].0 == e@[last as int].0@);
        assert(positions(start).last() == last);
        if is_before(e[i].0.as_str(), e[last].0.as_str()) {
            order.pop();
            assert(positions(order@) =~= positions(start).drop_last());
            place_name(order, e, i);
            let ghost before = order@;
            order.push(last);
            assert(positions(order@) =~= positions(before).push(last as int));
            return ;
        }
    }
    order.push(i);
    assert(positions(order@) =~= positions(start).push(i as int));
}

fn append_row(out: &mut Vec<u8>, row: &SqlRow)
    ensures
        final(out)@ == old(out)@ + row_bytes(row@),
{
    let e = &row.values;
    let ghost view = e.deep_view();
    let mut order: Vec<usize> = Vec::new();
    assert(positions(order@) =~= Seq::<int>::empty());
    let mut i: usize = 0;
    while i < e.len()
        invariant
            i <= e.len(),
            view == e.deep_view(),
            positions(order@) == name_order(view, i as int),
            forall|p: int| 0 <= p < order.len() ==> #[trigger] order@[p] < e.len(),
        decreases e.len() - i,
    {
        place_name(&mut order, e, i);
        i = i + 1;
    }
    let ghost all = positions(order@);
    let ghost start = out@;
    assert(fields_bytes(view, all.take(0)) =~= Seq::<u8>::empty());
    let mut k: usize = 0;
    while k < order.len()
        invariant
            k <= order.len(),
            view == e.deep_view(),
            all == positions(order@),
            all.len() == order.len(),
            forall|p: int| 0 <= p < order.len() ==> #[trigger] order@[p] < e.len(),
            out@ =~= start + fields_bytes(view, all.take(k as int)),
        decreases order.len() - k,
    {
        let ghost before = fields_bytes(view, all.take(k as int));
        let at: usize = order[k];
        assert(all[k as int] == at);
        assert(view[at as int] == (e@[at as int].0@, e@[at as int].1@));
        append_bytes(out, e[at].0.as_str().as_bytes());
        out.push(0u8);
        let value = e[at].1.to_text();
        append_bytes(out, value.as_str().as_bytes());
        out.push(0xffu8);
        assert(all.take(k + 1).drop_last() =~= all.take(k as int));
        assert(all.take(k + 1).last() == at);
        assert(out@ =~= start + (before + field_bytes(view[at as int].0, view[at as int].1)));
        k = k + 1;
    }
    assert(all.take(k as int) =~= all);
}

fn append_rows(out: &mut Vec<u8>, rows: &Vec<SqlRow>)
    ensures
        final(out)@ == old(out)@ + rows_bytes(rows.deep_view(), rows.len() as int),
{
    let ghost view = rows.deep_view();
    let ghost start = out@;
    let mut i: usize = 0;
    assert(out@ =~= start + rows_bytes(view, 0));
    while i < rows.len()
        invariant
            i <= rows.len(),
            view == rows.deep_view(),
            out@ == start + rows_bytes(view, i as int),
        decreases rows.len() - i,
    {
        assert(view[i as int] == rows@[i as int]@);
        append_row(out, &rows[i]);
        assert(out@ =~= start + rows_bytes(view, i + 1));
        i = i + 1;
    }
}

/// The digest of a database in hexadecimal, from its schema and its tables as
/// they were read.
pub fn database_digest(schema: &Vec<SqlRow>, tables: &Vec<TableImage>) -> (r: String)
    ensures
        r@ == hex(sha256_of(database_bytes(schema.deep_view(), tables.deep_view()))),
{
    let mut out: Vec<u8> = Vec::new();
    append_rows(&mut out, schema);
    let ghost start = out@;
    let ghost schema_view = schema.deep_view();
    assert(start =~= rows_bytes(schema_view, schema_view.len() as int));
    let ghost view = tables.deep_view();
    let mut i: usize = 0;
    assert(out@ =~= start + tables_bytes(view, 0));
    while i < tables.len()
        invariant
            i <= tables.len(),
            view == tables.deep_view(),
            out@ == start + tables_bytes(view, i as int),
        decreases tables.len() - i,
    {
        let ghost before = tables_bytes(view, i as int);
        let t = &tables[i];
        assert(view[i as int] == t@);
        append_bytes(&mut out, "table:".as_bytes());
        append_bytes(&mut out, t.name.as_str().as_bytes());
        out.push(0u8);
        append_rows(&mut out, &t.rows);
        assert(out@ =~= start + (before + table_bytes(view[i as int])));
        i = i + 1;
    }
    hex_encode(sha256(out.as_slice()).as_slice())
}

/// The names in some rows, those without one left out.
pub open spec fn names_in(rows: Seq<Entries>, n: int) -> Seq<Seq<char>>
    decreases n,
{
    if n <= 0 {
        Seq::empty()
    } else {
        match entry(rows[n - 1], "name"@) {
            Some(JsonView::Text(s)) => names_in(rows, n - 1).push(s),
            _ => names_in(rows, n - 1),
        }
    }
}

/// The names of the tables, from the rows that list them.
pub fn table_names(rows: &Vec<SqlRow>) -> (r: Vec<String>)
    ensures
        r.deep_view() == names_in(rows.deep_view(), rows.len() as int),
{
    let ghost view = rows.deep_view();
    let mut out: Vec<String> = Vec::new();
    assert(out.deep_view() =~= names_in(view, 0));
    let mut i: usize = 0;
    while i < rows.len()
        invariant
            i <= rows.len(),
            view == rows.deep_view(),
            out.deep_view() == names_in(view, i as int),
        decreases rows.len() - i,
    {
        let ghost before = out.deep_view();
        assert(view[i as int] == rows@[i as int]@);
        if let Some(Json::Text(s)) = get_entry(&rows[i].values, "name") {
            out.push(s.clone());
            assert(out.deep_view() =~= before.push(s@));
        }
        i = i + 1;
    }
    out
}

/// Why a database cannot be read.
pub open spec fn path_error(path: Option<Seq<char>>, is_file: bool) -> Option<Seq<char>> {
    match path {
        None => Some("LHC database path is not utf-8"@),
        Some(p) => if is_file {
            None
        } else {
            Some("LHC database missing: "@ + p)
        },
    }
}

/// Why a database cannot be read: its path is no text, or there is no file.
pub fn database_path_error(path: Option<&str>, is_file: bool) -> (r: Option<String>)
    ensures
        r.deep_view() == path_error(path.deep_view(), is_file),
{
    match path {
        None => Some(text("LHC database path is not utf-8")),
        Some(p) => if is_file {
            None
        } else {
            let mut e = text("LHC database missing: ");
            e.append(p);
            Some(e)
        },
    }
}

// ---------------------------------------------------------------------------
// Laws
// ---------------------------------------------------------------------------

/// Two values of a column whose notations differ give different bytes, whatever
/// stands before and behind them: no change of a value goes unnoticed.
pub proof fn changed_value_changes_the_bytes(
    before: Seq<u8>,
    name: Seq<char>,
    old_value: JsonView,
    new_value: JsonView,
    after: Seq<u8>,
)
    requires
        json_text(old_value) != json_text(new_value),
    ensures
        before + field_bytes(name, old_value) + after != before + field_bytes(name, new_value)
            + after,
{
    let a = encode_utf8(json_text(old_value));
    let b = encode_utf8(json_text(new_value));
    let x = before + field_bytes(name, old_value) + after;
    let y = before + field_bytes(name, new_value) + after;
    let head = before + encode_utf8(name).push(0u8);
    let tail = seq![0xffu8] + after;
    assert(x =~= head + a + tail);
    assert(y =~= head + b + tail);
    if x == y {
        assert(x.len() == y.len());
        assert(a.len() == b.len());
        assert forall|i: int| 0 <= i < a.len() implies a[i] == b[i] by {
            assert(x[head.len() + i] == a[i]);
            assert(y[head.len() + i] == b[i]);
        }
        assert(a =~= b);
        encode_utf8_decode_utf8(json_text(old_value));
        encode_utf8_decode_utf8(json_text(new_value));
    }
}

/// `order` lists the first `n` entries once each, smaller names first.
pub open spec fn is_name_order(order: Seq<int>, e: Entries, n: int) -> bool {
    &&& order.len() == n
    &&& forall|p: int| 0 <= p < order.len() ==> 0 <= #[trigger] order[p] < n
    &&& forall|p: int, q: int|
        0 <= p < q < order.len() ==> #[trigger] order[p] != #[trigger] order[q] && !stands_before(
            e[order[q]].0,
            e[order[p]].0,
        )
}

proof fn lemma_placed_name(order: Seq<int>, e: Entries, i: int)
    requires
        0 <= i,
        forall|p: int| 0 <= p < order.len() ==> 0 <= #[trigger] order[p] < i,
        forall|p: int, q: int|
            0 <= p < q < order.len() ==> #[trigger] order[p] != #[trigger] order[q]
                && !stands_before(e[order[q]].0, e[order[p]].0),
    ensures
        ({
            let r = placed_name(order, e, i);
            &&& r.len() == order.len() + 1
            &&& forall|p: int| 0 <= p < r.len() ==> 0 <= #[trigger] r[p] <= i
            &&& forall|p: int|
                0 <= p < r.len() ==> #[trigger] r[p] == i || order.contains(r[p])
            &&& forall|p: int, q: int|
                0 <= p < q < r.len() ==> #[trigger] r[p] != #[trigger] r[q] && !stands_before(
                    e[r[q]].0,
                    e[r[p]].0,
                )
        }),
    decreases order.len(),
{
    let r = placed_name(order, e, i);
    if order.len() > 0 && stands_before(e[i].0, e[order.last()].0) {
        let rest = order.drop_last();
        lemma_placed_name(rest, e, i);
        let before = placed_name(rest, e, i);
        crate::text::order_is_strict(e[i].0, e[order.last()].0);
        assert forall|p: int| 0 <= p < r.len() implies #[trigger] r[p] == i || order.contains(
            r[p],
        ) by {
            if p < before.len() {
                if before[p] != i {
                    let k = choose|k: int| 0 <= k < rest.len() && rest[k] == before[p];
                    assert(order[k] == before[p]);
                }
            } else {
                assert(order[order.len() - 1] == r[p]);
            }
        }
        assert forall|p: int, q: int| 0 <= p < q < r.len() implies #[trigger] r[p]
            != #[trigger] r[q] && !stands_before(e[r[q]].0, e[r[p]].0) by {
            if q == r.len() - 1 {
                if before[p] != i {
                    let k = choose|k: int| 0 <= k < rest.len() && rest[k] == before[p];
                    assert(order[k] == before[p]);
                    assert(order[k] != order[order.len() - 1]);
                }
            } else {
                assert(r[p] == before[p] && r[q] == before[q]);
            }
        }
    } else {
        assert forall|p: int| 0 <= p < r.len() implies #[trigger] r[p] == i || order.contains(
            r[p],
        ) by {
            if p < order.len() {
                assert(order[p] == r[p]);
            }
        }
        assert forall|p: int, q: int| 0 <= p < q < r.len() implies #[trigger] r[p]
            != #[trigger] r[q] && !stands_before(e[r[q]].0, e[r[p]].0) by {
            if q == order.len() {
                assert(r[p] == order[p]);
                let last = order.len() - 1;
                if p < last {
                    assert(!stands_before(e[order[last]].0, e[order[p]].0));
                    crate::text::lemma_order_transitive(
                        e[order[p]].0,
                        e[order[last]].0,
                        e[i].0,
                    );
                }
            } else {
                assert(r[p] == order[p] && r[q] == order[q]);
            }
        }
    }
}

/// The values of a row are taken in the order of their names, each once: the
/// digest does not depend on the order in which they were read.
pub proof fn values_are_taken_in_name_order(e: Entries, n: int)
    requires
        0 <= n <= e.len(),
    ensures
        is_name_order(name_order(e, n), e, n),
    decreases n,
{
    if n > 0 {
        values_are_taken_in_name_order(e, n - 1);
        lemma_placed_name(name_order(e, n - 1), e, n - 1);
    }
}

/// Quotes inside a name are doubled, so that two names never give the same
/// identifier.
pub proof fn quoted_names_differ(a: Seq<char>, b: Seq<char>)
    requires
        a != b,
    ensures
        quoted_name(a) != quoted_name(b),
{
    if quoted_name(a) == quoted_name(b) {
        let x = quoted_name(a);
        let y = quoted_name(b);
        assert(x.len() == y.len());
        assert(doubled(a) =~= doubled(b)) by {
            assert(doubled(a) =~= x.subrange(1, x.len() - 1));
            assert(doubled(b) =~= y.subrange(1, y.len() - 1));
        }
        lemma_doubled_injective(a, b);
    }
}

proof fn lemma_doubled_injective(a: Seq<char>, b: Seq<char>)
    requires
        doubled(a) == doubled(b),
    ensures
        a == b,
    decreases a.len(),
{
    if a.len() == 0 {
        if b.len() > 0 {
            assert(doubled(b).len() > 0);
        }
        assert(a =~= b);
    } else if b.len() == 0 {
        assert(doubled(a).len() > 0);
    } else {
        let da = doubled(a);
        let db = doubled(b);
        assert(da.last() == a.last());
        assert(db.last() == b.last());
        if a.last() == '"' {
            assert(doubled(a.drop_last()) =~= da.drop_last().drop_last());
            assert(doubled(b.drop_last()) =~= db.drop_last().drop_last());
        } else {
            assert(doubled(a.drop_last()) =~= da.drop_last());
            assert(doubled(b.drop_last()) =~= db.drop_last());
        }
        lemma_doubled_injective(a.drop_last(), b.drop_last());
        assert(a =~= a.drop_last().push(a.last()));
        assert(b =~= b.drop_last().push(b.last()));
    }
}

} // verus!
