//! What goes into the digest of a database, and in which order it is read.

use vstd::prelude::*;
use vstd::string::*;
use vstd::utf8::encode_utf8;

use crate::database_digest::{
    database_bytes, field_bytes, fields_bytes, key_names, key_places, name_order, names_in,
    ordered_key, quoted_name, row_bytes, rows_bytes, select_query, table_bytes, tables_bytes,
    TableColumnView, TableImageView,
};
use crate::json::{entry, json_text, Entries};
use crate::ordering::stable_order;

verus! {

// ---------------------------------------------------------------------------
// Bytes
// ---------------------------------------------------------------------------

proof fn lemma_rows_bytes(rows: Seq<Entries>, n: int)
    requires
        0 <= n <= rows.len(),
    ensures
        rows_bytes(rows, n) == rows.take(n).map_values(|e: Entries| row_bytes(e)).flatten(),
    decreases n,
{
    let f = |e: Entries| row_bytes(e);
    let all = rows.take(n).map_values(f);
    if n == 0 {
        assert(all.len() == 0);
        assert(rows_bytes(rows, n) =~= all.flatten());
    } else {
        lemma_rows_bytes(rows, n - 1);
        let before = rows.take(n - 1).map_values(f);
        assert(all =~= before.push(row_bytes(rows[n - 1])));
        before.lemma_flatten_push(row_bytes(rows[n - 1]));
    }
}

proof fn lemma_tables_bytes(tables: Seq<TableImageView>, n: int)
    requires
        0 <= n <= tables.len(),
    ensures
        tables_bytes(tables, n) == tables.take(n).map_values(
            |t: TableImageView| table_bytes(t),
        ).flatten(),
    decreases n,
{
    let f = |t: TableImageView| table_bytes(t);
    let all = tables.take(n).map_values(f);
    if n == 0 {
        assert(all.len() == 0);
        assert(tables_bytes(tables, n) =~= all.flatten());
    } else {
        lemma_tables_bytes(tables, n - 1);
        let before = tables.take(n - 1).map_values(f);
        assert(all =~= before.push(table_bytes(tables[n - 1])));
        before.lemma_flatten_push(table_bytes(tables[n - 1]));
    }
}

/// The digest of a database is of all its schema, row by row, and then of all its
/// tables, one by one: of each its name, and then all its rows.
pub proof fn digest_is_of_everything(schema: Seq<Entries>, tables: Seq<TableImageView>, k: int)
    ensures
        database_bytes(schema, tables) == schema.map_values(|e: Entries| row_bytes(e)).flatten()
            + tables.map_values(|t: TableImageView| table_bytes(t)).flatten(),
        0 <= k < tables.len() ==> table_bytes(tables[k]) == encode_utf8("table:"@) + encode_utf8(
            tables[k].name,
        ) + seq![0u8] + tables[k].rows.map_values(|e: Entries| row_bytes(e)).flatten(),
{
    lemma_rows_bytes(schema, schema.len() as int);
    lemma_tables_bytes(tables, tables.len() as int);
    assert(schema.take(schema.len() as int) =~= schema);
    assert(tables.take(tables.len() as int) =~= tables);
    if 0 <= k < tables.len() {
        let rows = tables[k].rows;
        lemma_rows_bytes(rows, rows.len() as int);
        assert(rows.take(rows.len() as int) =~= rows);
        assert(table_bytes(tables[k]) =~= encode_utf8("table:"@) + encode_utf8(tables[k].name)
            + seq![0u8] + rows.map_values(|e: Entries| row_bytes(e)).flatten());
    }
}

proof fn lemma_fields_bytes(e: Entries, order: Seq<int>)
    ensures
        fields_bytes(e, order) == order.map_values(|i: int| field_bytes(e[i].0, e[i].1)).flatten(),
    decreases order.len(),
{
    let f = |i: int| field_bytes(e[i].0, e[i].1);
    let all = order.map_values(f);
    if order.len() == 0 {
        assert(all.len() == 0);
        assert(fields_bytes(e, order) =~= all.flatten());
    } else {
        let less = order.drop_last();
        lemma_fields_bytes(e, less);
        assert(all =~= less.map_values(f).push(f(order.last())));
        less.map_values(f).lemma_flatten_push(f(order.last()));
    }
}

/// A row goes in value by value, all of them: the name and the notation of each,
/// with an end behind either.
pub proof fn every_value_of_a_row_goes_in(e: Entries, k: int)
    ensures
        row_bytes(e) == name_order(e, e.len() as int).map_values(
            |i: int| field_bytes(e[i].0, e[i].1),
        ).flatten(),
        name_order(e, e.len() as int).len() == e.len(),
        0 <= k < e.len() ==> field_bytes(e[k].0, e[k].1) == encode_utf8(e[k].0) + seq![0u8]
            + encode_utf8(json_text(e[k].1)) + seq![0xffu8],
{
    lemma_fields_bytes(e, name_order(e, e.len() as int));
    crate::database_digest::values_are_taken_in_name_order(e, e.len() as int);
    if 0 <= k < e.len() {
        assert(field_bytes(e[k].0, e[k].1) =~= encode_utf8(e[k].0) + seq![0u8] + encode_utf8(
            json_text(e[k].1),
        ) + seq![0xffu8]);
    }
}

// ---------------------------------------------------------------------------
// Queries
// ---------------------------------------------------------------------------

/// The column is one of the primary key.
pub open spec fn is_of_the_key(c: TableColumnView) -> bool {
    c.name is Some && (c.pk matches Some(place) && place > 0)
}

proof fn lemma_key_listed(columns: Seq<TableColumnView>, n: int, i: int) -> (k: int)
    requires
        0 <= i < n <= columns.len(),
        is_of_the_key(columns[i]),
    ensures
        0 <= k < key_places(columns, n).len(),
        key_names(columns, n).len() == key_places(columns, n).len(),
        key_places(columns, n)[k] == (columns[i].pk->0, 0i64),
        key_names(columns, n)[k] == quoted_name(columns[i].name->0),
    decreases n,
{
    lemma_key_numbers(columns, n - 1);
    if i == n - 1 {
        key_places(columns, n).len() - 1
    } else {
        lemma_key_listed(columns, n - 1, i)
    }
}

proof fn lemma_key_numbers(columns: Seq<TableColumnView>, n: int)
    requires
        n <= columns.len(),
    ensures
        key_names(columns, n).len() == key_places(columns, n).len(),
        0 <= n ==> key_places(columns, n).len() == columns.take(n).filter(
            |c: TableColumnView| is_of_the_key(c),
        ).len(),
    decreases n,
{
    reveal(Seq::filter);
    if n > 0 {
        lemma_key_numbers(columns, n - 1);
        assert(columns.take(n).drop_last() =~= columns.take(n - 1));
    }
}

/// Rows are read in the order of all columns of the primary key: as many names as
/// the key has columns, and each before those that stand behind it in the key.
pub proof fn rows_are_read_in_the_order_of_the_key(
    columns: Seq<TableColumnView>,
    i: int,
    j: int,
)
    requires
        0 <= i < columns.len(),
        0 <= j < columns.len(),
        is_of_the_key(columns[i]),
        is_of_the_key(columns[j]),
        columns[i].pk->0 < columns[j].pk->0,
    ensures
        ordered_key(columns).len() == columns.filter(|c: TableColumnView| is_of_the_key(c)).len(),
        exists|p: int, q: int|
            0 <= p < q < ordered_key(columns).len() && #[trigger] ordered_key(columns)[p]
                == quoted_name(columns[i].name->0) && #[trigger] ordered_key(columns)[q]
                == quoted_name(columns[j].name->0),
{
    let n = columns.len() as int;
    let places = key_places(columns, n);
    let names = key_names(columns, n);
    let order = stable_order(places);
    lemma_key_numbers(columns, n);
    assert(columns.take(n) =~= columns);
    let a = lemma_key_listed(columns, n, i);
    let b = lemma_key_listed(columns, n, j);
    crate::ordering::stable_order_is_sorted(places);
    crate::ordering::every_row_is_ordered(places, a);
    crate::ordering::every_row_is_ordered(places, b);
    let p = choose|p: int| 0 <= p < order.len() && order[p] == a;
    let q = choose|q: int| 0 <= q < order.len() && order[q] == b;
    let key = ordered_key(columns);
    assert(key[p] == names[order[p]]);
    assert(key[q] == names[order[q]]);
    if q < p {
        assert(crate::ordering::in_order(places, order[q], order[p]));
    }
    assert(p < q);
}

/// A query asks for all rows of its table, in the order of the key; without a key
/// in the order of the rows.
pub proof fn queries_ask_for_all_rows(table: Seq<char>, columns: Seq<TableColumnView>)
    ensures
        ordered_key(columns).len() > 0 ==> select_query(table, columns) == "SELECT * FROM "@
            + quoted_name(table) + " ORDER BY "@ + crate::text::joined(
            ordered_key(columns),
            ", "@,
        ),
        columns.filter(|c: TableColumnView| is_of_the_key(c)).len() == 0 ==> select_query(
            table,
            columns,
        ) == "SELECT * FROM "@ + quoted_name(table) + " ORDER BY rowid"@,
{
    let n = columns.len() as int;
    lemma_key_numbers(columns, n);
    assert(columns.take(n) =~= columns);
    crate::ordering::stable_order_is_sorted(key_places(columns, n));
    reveal_strlit(" ORDER BY rowid");
    reveal_strlit(" ORDER BY ");
    reveal_strlit("rowid");
    assert(" ORDER BY rowid"@ =~= " ORDER BY "@ + "rowid"@);
    if columns.filter(|c: TableColumnView| is_of_the_key(c)).len() == 0 {
        assert(select_query(table, columns) =~= "SELECT * FROM "@ + quoted_name(table)
            + " ORDER BY rowid"@);
    }
}

/// A name stands in a query between quotes, and each quote in it twice.
pub proof fn names_are_quoted(a: Seq<char>, b: Seq<char>, c: char)
    ensures
        quoted_name(seq![c]) == (if c == '"' {
            seq!['"', '"', '"', '"']
        } else {
            seq!['"', c, '"']
        }),
        quoted_name(a + b) == quoted_name(a).drop_last() + quoted_name(b).drop_first(),
{
    reveal_with_fuel(crate::database_digest::doubled, 2);
    assert(seq![c].drop_last() =~= Seq::<char>::empty());
    if c == '"' {
        assert(quoted_name(seq![c]) =~= seq!['"', '"', '"', '"']);
    } else {
        assert(quoted_name(seq![c]) =~= seq!['"', c, '"']);
    }
    lemma_doubled_joined(a, b);
    assert(quoted_name(a + b) =~= quoted_name(a).drop_last() + quoted_name(b).drop_first());
}

proof fn lemma_doubled_joined(a: Seq<char>, b: Seq<char>)
    ensures
        crate::database_digest::doubled(a + b) == crate::database_digest::doubled(a)
            + crate::database_digest::doubled(b),
    decreases b.len(),
{
    let d = |s: Seq<char>| crate::database_digest::doubled(s);
    if b.len() == 0 {
        assert(a + b =~= a);
        assert(d(a) + d(b) =~= d(a));
    } else {
        lemma_doubled_joined(a, b.drop_last());
        assert((a + b).drop_last() =~= a + b.drop_last());
        assert(d(a + b) =~= d(a) + d(b));
    }
}

/// The tables are all those whose rows hold a name, in their order.
pub proof fn every_named_table_is_listed(rows: Seq<Entries>, n: int)
    requires
        0 <= n <= rows.len(),
    ensures
        names_in(rows, n) == rows.take(n).filter(
            |e: Entries| entry(e, "name"@) is Some && entry(e, "name"@)->0 is Text,
        ).map_values(|e: Entries| entry(e, "name"@)->0->Text_0),
    decreases n,
{
    reveal(Seq::filter);
    let p = |e: Entries| entry(e, "name"@) is Some && entry(e, "name"@)->0 is Text;
    let f = |e: Entries| entry(e, "name"@)->0->Text_0;
    if n == 0 {
        assert(rows.take(0).filter(p).map_values(f) =~= Seq::<Seq<char>>::empty());
    } else {
        every_named_table_is_listed(rows, n - 1);
        assert(rows.take(n).drop_last() =~= rows.take(n - 1));
        let before = rows.take(n - 1).filter(p);
        let e = rows[n - 1];
        if p(e) {
            assert(rows.take(n).filter(p) =~= before.push(e));
            assert(before.push(e).map_values(f) =~= before.map_values(f).push(f(e)));
        } else {
            assert(rows.take(n).filter(p) =~= before);
        }
    }
}

} // verus!
