//! Values inside rows are given their typed form once, in every table that keeps any.
use crate::definition::{
    CollectionDefinition, FieldDefinition, FieldType, GlobalDefinition, LeafView, Registry, leaves,
    row_fields,
};
use crate::migrate::meta;
use crate::migrate::helpers::paged::{
    PageView, ScanView, all_quoted, first_page_step, page_sql, page_step, update_sql,
};
use crate::migrate::nested_values::{
    Conversion, RowsView, convert_array_step, convert_blocks_step, convert_candidates_step,
    convert_collections_from, convert_columns_from, convert_globals_from, convert_leaves_from,
    convert_one_step, convert_pages, convert_rows_step, convert_step, json_names, stored_typed,
};
use crate::migrate::transaction::{
    in_convert_array_step, in_convert_blocks_step, in_convert_collections_from,
    in_convert_columns_from, in_convert_globals_from, in_convert_leaves_from, in_convert_one_step,
    in_convert_pages, in_convert_rows_step, in_first_page_step, in_meta_delete_step,
    in_meta_get_step, in_meta_upsert_step, in_noted, in_table_exists_step,
};
use crate::names::quoted;
use crate::promises::{
    after, answered, between, between_wider, first_mark, on_record, on_record_wider,
    parameters_are_counted_from_one, read_as, record_read, record_removed,
};
use crate::promises::lookups::{a_table_is_looked_for, asks_for_table, told_missing, told_there};
use crate::promises::records::{what_is_read_is_on_record, what_is_stored_is_on_record};
use crate::replay::{extends_itself, extends_on};
use crate::session::{Dialect, ReplyView, RequestView, SessionView, extends};
use crate::text::join;
use crate::value::{DbRowView, DbValueView, ErrorView, together};
use vstd::prelude::*;

verus! {

/// The statement reading the first rows that hold something in a column, by their ids.
pub open spec fn one_column_read(table: Seq<char>, column: Seq<char>) -> Seq<char> {
    "SELECT id, "@ + quoted(column) + " FROM "@ + quoted(table) + " WHERE "@ + quoted(column)
        + " IS NOT NULL ORDER BY id LIMIT 500"@
}

/// The statement reading the first rows that hold something in the second of two columns.
pub open spec fn two_columns_read(
    table: Seq<char>,
    first: Seq<char>,
    second: Seq<char>,
) -> Seq<char> {
    "SELECT id, "@ + quoted(first) + ", "@ + quoted(second) + " FROM "@ + quoted(table)
        + " WHERE "@ + quoted(second) + " IS NOT NULL ORDER BY id LIMIT 500"@
}

/// The statement reading the rows behind an id that hold something in a column.
pub open spec fn one_column_read_on(
    dialect: Dialect,
    table: Seq<char>,
    column: Seq<char>,
) -> Seq<char> {
    "SELECT id, "@ + quoted(column) + " FROM "@ + quoted(table) + " WHERE "@ + quoted(column)
        + " IS NOT NULL AND id > "@ + first_mark(dialect) + " ORDER BY id LIMIT 500"@
}

proof fn endings()
    ensures
        " IS NOT NULL"@ + ""@ + ""@ + " ORDER BY id LIMIT 500"@
            == " IS NOT NULL ORDER BY id LIMIT 500"@,
        " IS NOT NULL"@ + ""@ + " AND id > "@ == " IS NOT NULL AND id > "@,
        " IS NOT NULL"@ + " AND _deleted_at IS NULL"@ + ""@ + " ORDER BY id LIMIT 500"@
            == " IS NOT NULL AND _deleted_at IS NULL ORDER BY id LIMIT 500"@,
{
    assert(" IS NOT NULL"@ + ""@ + ""@ + " ORDER BY id LIMIT 500"@
        =~= " IS NOT NULL ORDER BY id LIMIT 500"@) by {
        reveal_strlit(" IS NOT NULL");
        reveal_strlit("");
        reveal_strlit(" ORDER BY id LIMIT 500");
        reveal_strlit(" IS NOT NULL ORDER BY id LIMIT 500");
    }
    assert(" IS NOT NULL"@ + ""@ + " AND id > "@ =~= " IS NOT NULL AND id > "@) by {
        reveal_strlit(" IS NOT NULL");
        reveal_strlit("");
        reveal_strlit(" AND id > ");
        reveal_strlit(" IS NOT NULL AND id > ");
    }
    assert(" IS NOT NULL"@ + " AND _deleted_at IS NULL"@ + ""@ + " ORDER BY id LIMIT 500"@
        =~= " IS NOT NULL AND _deleted_at IS NULL ORDER BY id LIMIT 500"@) by {
        reveal_strlit(" IS NOT NULL");
        reveal_strlit("");
        reveal_strlit(" AND _deleted_at IS NULL");
        reveal_strlit(" ORDER BY id LIMIT 500");
        reveal_strlit(" IS NOT NULL AND _deleted_at IS NULL ORDER BY id LIMIT 500");
    }
}

/// A first page of a column, or of two, is read in the order of the ids.
pub proof fn first_pages_are_read_so(
    dialect: Dialect,
    table: Seq<char>,
    first: Seq<char>,
    second: Seq<char>,
)
    ensures
        page_sql(
            dialect,
            ScanView { table, columns: seq![first], active_only: false },
            None,
        ) == one_column_read(table, first),
        page_sql(
            dialect,
            ScanView { table, columns: seq![first, second], active_only: false },
            None,
        ) == two_columns_read(table, first, second),
{
    endings();
    let one = ScanView { table, columns: seq![first], active_only: false };
    let two = ScanView { table, columns: seq![first, second], active_only: false };
    reveal_with_fuel(join, 3);
    assert(all_quoted(one.columns) =~= seq![quoted(first)]);
    assert(all_quoted(two.columns) =~= seq![quoted(first), quoted(second)]);
    assert(seq![quoted(first), quoted(second)].drop_last() =~= seq![quoted(first)]);
    let end = " IS NOT NULL"@ + ""@ + ""@ + " ORDER BY id LIMIT 500"@;
    assert(page_sql(dialect, one, None) =~= "SELECT id, "@ + quoted(first) + " FROM "@ + quoted(
        table,
    ) + " WHERE "@ + quoted(first) + end);
    assert(page_sql(dialect, two, None) =~= "SELECT id, "@ + quoted(first) + ", "@ + quoted(second)
        + " FROM "@ + quoted(table) + " WHERE "@ + quoted(second) + end);
}

/// A page of a column behind an id is read in the order of the ids, from that id on; the
/// page after it, if this one is full, begins behind its last id.
pub proof fn later_pages_are_read_so(
    s: SessionView,
    table: Seq<char>,
    column: Seq<char>,
    id: Seq<char>,
    rows: Seq<DbRowView>,
)
    ensures
        ({
            let (end, r) = page_step(
                s,
                ScanView { table, columns: seq![column], active_only: false },
                Some(id),
            );
            &&& end == after(
                s,
                seq![
                    RequestView::QueryAll {
                        sql: one_column_read_on(s.dialect, table, column),
                        params: seq![DbValueView::Text(id)],
                    },
                ],
            )
            &&& answered(s, 0, ReplyView::Rows(rows)) ==> {
                &&& r is Ok
                &&& r->Ok_0.rows == rows
                &&& rows.len() < 500 ==> r->Ok_0.next is None
                &&& rows.len() >= 500 && rows.last().values.len() > 0
                    && rows.last().values[0] is Text ==> r->Ok_0.next == Some(
                    rows.last().values[0]->Text_0,
                )
            }
        }),
{
    endings();
    parameters_are_counted_from_one(s.dialect);
    let scan = ScanView { table, columns: seq![column], active_only: false };
    reveal_with_fuel(join, 2);
    assert(all_quoted(scan.columns) =~= seq![quoted(column)]);
    let middle = " IS NOT NULL"@ + ""@ + " AND id > "@;
    assert(page_sql(s.dialect, scan, Some(id)) =~= "SELECT id, "@ + quoted(column) + " FROM "@
        + quoted(table) + " WHERE "@ + quoted(column) + middle + first_mark(s.dialect)
        + " ORDER BY id LIMIT 500"@);
    let asked = page_step(s, scan, Some(id)).0.sent.last();
    assert(s.sent.push(asked) =~= s.sent + seq![asked]);
}

/// Whether a table was looked for by the `k`-th request and, where it is there, read from
/// by the next.
pub open spec fn page_read(s: SessionView, k: int, table: Seq<char>, sql: Seq<char>) -> bool {
    &&& 0 <= k < s.sent.len()
    &&& s.sent[k] == asks_for_table(s.dialect, table)
    &&& told_missing(s, k) || told_there(s, k) && k + 1 < s.sent.len() && s.sent[k + 1] == (
    RequestView::QueryAll { sql, params: Seq::empty() })
}

/// Whether that was so of a request from the `i`-th on and before the `j`-th.
pub open spec fn read_between(
    s: SessionView,
    i: int,
    j: int,
    table: Seq<char>,
    sql: Seq<char>,
) -> bool {
    exists|k: int| 0 <= i <= k < j && #[trigger] page_read(s, k, table, sql)
}

/// Whether a table was looked for there and, where it is there, read from.
pub open spec fn table_scanned(
    s: SessionView,
    i: int,
    j: int,
    table: Seq<char>,
    sql: Seq<char>,
) -> bool {
    exists|k: int|
        0 <= i <= k < j && k < s.sent.len() && #[trigger] s.sent[k] == asks_for_table(
            s.dialect,
            table,
        ) && (told_missing(s, k) || told_there(s, k) && read_between(s, k + 1, j, table, sql))
}

pub(crate) proof fn read_between_wider(
    b: SessionView,
    d: SessionView,
    i: int,
    j: int,
    k: int,
    l: int,
    table: Seq<char>,
    sql: Seq<char>,
)
    requires
        extends(b, d),
        read_between(b, i, j, table, sql),
        0 <= k <= i,
        j <= l,
    ensures
        read_between(d, k, l, table, sql),
{
    let at = choose|at: int| 0 <= i <= at < j && #[trigger] page_read(b, at, table, sql);
    assert(d.sent[at] == b.sent[at]);
    if told_there(b, at) {
        assert(d.sent[at + 1] == b.sent[at + 1]);
    }
    assert(page_read(d, at, table, sql));
}

pub(crate) proof fn table_scanned_wider(
    b: SessionView,
    d: SessionView,
    i: int,
    j: int,
    k: int,
    l: int,
    table: Seq<char>,
    sql: Seq<char>,
)
    requires
        extends(b, d),
        table_scanned(b, i, j, table, sql),
        0 <= k <= i,
        j <= l,
    ensures
        table_scanned(d, k, l, table, sql),
{
    let at = choose|at: int|
        0 <= i <= at < j && at < b.sent.len() && #[trigger] b.sent[at] == asks_for_table(
            b.dialect,
            table,
        ) && (told_missing(b, at) || told_there(b, at) && read_between(b, at + 1, j, table, sql));
    assert(d.sent[at] == asks_for_table(d.dialect, table));
    if !told_missing(b, at) {
        read_between_wider(b, d, at + 1, j, at + 1, l, table, sql);
    }
}

spec fn rows_sql(kind: RowsView, table: Seq<char>) -> Seq<char> {
    match kind {
        RowsView::Column(name, _) => one_column_read(table, name),
        RowsView::Blocks(_) => two_columns_read(table, "_block_type"@, "data"@),
    }
}

proof fn rows_are_read(s: SessionView, table: Seq<char>, kind: RowsView)
    ensures
        ({
            let (end, r) = convert_rows_step(s, table, kind);
            r is Ok ==> read_between(
                end,
                s.sent.len() as int,
                end.sent.len() as int,
                table,
                rows_sql(kind, table),
            )
        }),
{
    broadcast use {in_convert_pages, in_first_page_step};

    let (end, r) = convert_rows_step(s, table, kind);
    if r is Ok {
        let at = s.sent.len() as int;
        let scan = kind.scan(table);
        let (s1, page) = first_page_step(s, scan);
        a_table_is_looked_for(s, table, Seq::empty());
        first_pages_are_read_so(s.dialect, table, "_block_type"@, "data"@);
        match kind {
            RowsView::Column(name, _) => {
                first_pages_are_read_so(s.dialect, table, name, name);
            },
            _ => {},
        }
        assert(end == convert_pages(s1, table, kind, page->Ok_0, 0).0);
        assert(extends(s1, end));
        assert(s1.sent[at] == asks_for_table(s.dialect, table));
        assert(end.sent[at] == s1.sent[at]);
        if told_there(s, at) {
            assert(s1.sent[at + 1] == (RequestView::QueryAll {
                sql: rows_sql(kind, table),
                params: Seq::empty(),
            }));
            assert(end.sent[at + 1] == s1.sent[at + 1]);
        }
        assert(page_read(end, at, table, rows_sql(kind, table)));
    }
}

proof fn columns_are_read(
    s: SessionView,
    table: Seq<char>,
    sub: Seq<FieldDefinition>,
    names: Seq<Seq<char>>,
    i: int,
    n: nat,
    k: int,
)
    requires
        0 <= i <= k < names.len(),
    ensures
        ({
            let (end, r) = convert_columns_from(s, table, sub, names, i, n);
            r is Ok ==> read_between(
                end,
                s.sent.len() as int,
                end.sent.len() as int,
                table,
                one_column_read(table, names[k]),
            )
        }),
    decreases names.len() - i,
{
    broadcast use {in_convert_columns_from, in_convert_rows_step};

    let (end, r) = convert_columns_from(s, table, sub, names, i, n);
    if r is Ok {
        let kind = RowsView::Column(names[i], sub);
        let (s1, r1) = convert_rows_step(s, table, kind);
        let m = together(n, r1->Ok_0);
        assert(end == convert_columns_from(s1, table, sub, names, i + 1, m).0);
        let last = end.sent.len() as int;
        let sql = one_column_read(table, names[k]);
        if i == k {
            rows_are_read(s, table, kind);
            read_between_wider(
                s1,
                end,
                s.sent.len() as int,
                s1.sent.len() as int,
                s.sent.len() as int,
                last,
                table,
                sql,
            );
        } else {
            columns_are_read(s1, table, sub, names, i + 1, m, k);
            read_between_wider(
                end,
                end,
                s1.sent.len() as int,
                last,
                s.sent.len() as int,
                last,
                table,
                sql,
            );
        }
    }
}

pub(crate) proof fn json_is_named(subs: Seq<FieldDefinition>, r: int)
    requires
        0 <= r < subs.len(),
        subs[r].field_type == FieldType::Group || subs[r].field_type == FieldType::Array
            || subs[r].field_type == FieldType::Blocks,
    ensures
        json_names(subs).contains(subs[r].name@),
    decreases subs.len(),
{
    let before = json_names(subs.drop_last());
    if r < subs.len() - 1 {
        json_is_named(subs.drop_last(), r);
        assert(subs.drop_last()[r] == subs[r]);
        let k = choose|k: int| 0 <= k < before.len() && before[k] == subs[r].name@;
        assert(json_names(subs)[k] == subs[r].name@);
    } else {
        assert(json_names(subs).last() == subs[r].name@);
    }
}

/// Whether what a field keeps as JSON in rows of its own was read: the data of its blocks,
/// and each group, array and blocks field in the rows of an array.
pub open spec fn rows_scanned(
    s: SessionView,
    i: int,
    j: int,
    table: Seq<char>,
    leaf: LeafView,
) -> bool {
    let rows = table + "_"@ + leaf.path();
    match leaf.field.field_type {
        FieldType::Blocks => table_scanned(
            s,
            i,
            j,
            rows,
            two_columns_read(rows, "_block_type"@, "data"@),
        ),
        FieldType::Array => forall|r: int|
            #![trigger row_fields(leaf.field.fields@)[r]]
            0 <= r < row_fields(leaf.field.fields@).len() && {
                let sub = row_fields(leaf.field.fields@)[r];
                sub.field_type == FieldType::Group || sub.field_type == FieldType::Array
                    || sub.field_type == FieldType::Blocks
            } ==> table_scanned(
                s,
                i,
                j,
                rows,
                one_column_read(rows, row_fields(leaf.field.fields@)[r].name@),
            ),
        _ => true,
    }
}

pub(crate) proof fn rows_scanned_wider(
    b: SessionView,
    d: SessionView,
    i: int,
    j: int,
    k: int,
    l: int,
    table: Seq<char>,
    leaf: LeafView,
)
    requires
        extends(b, d),
        rows_scanned(b, i, j, table, leaf),
        0 <= k <= i,
        j <= l,
    ensures
        rows_scanned(d, k, l, table, leaf),
{
    let rows = table + "_"@ + leaf.path();
    let subs = row_fields(leaf.field.fields@);
    match leaf.field.field_type {
        FieldType::Blocks => {
            table_scanned_wider(
                b,
                d,
                i,
                j,
                k,
                l,
                rows,
                two_columns_read(rows, "_block_type"@, "data"@),
            );
        },
        FieldType::Array => {
            assert forall|r: int|
                #![trigger subs[r]]
                0 <= r < subs.len() && (subs[r].field_type == FieldType::Group
                    || subs[r].field_type == FieldType::Array || subs[r].field_type
                    == FieldType::Blocks) implies table_scanned(
                d,
                k,
                l,
                rows,
                one_column_read(rows, subs[r].name@),
            ) by {
                table_scanned_wider(b, d, i, j, k, l, rows, one_column_read(rows, subs[r].name@));
            }
        },
        _ => {},
    }
}

proof fn a_leafs_rows_are_scanned(s: SessionView, table: Seq<char>, leaf: LeafView)
    ensures
        ({
            let rows = table + "_"@ + leaf.path();
            let (end, r) = match leaf.field.field_type {
                FieldType::Array => convert_array_step(s, rows, leaf.field.fields@),
                FieldType::Blocks => convert_blocks_step(s, rows, leaf.field.blocks@),
                _ => (s, Ok::<nat, ErrorView>(0)),
            };
            r is Ok ==> rows_scanned(end, s.sent.len() as int, end.sent.len() as int, table, leaf)
        }),
{
    broadcast use {in_convert_columns_from, in_convert_rows_step, in_table_exists_step};

    let rows = table + "_"@ + leaf.path();
    let at = s.sent.len() as int;
    a_table_is_looked_for(s, rows, Seq::empty());
    let s1 = after(s, seq![asks_for_table(s.dialect, rows)]);
    assert(s1.sent[at] == asks_for_table(s.dialect, rows));
    match leaf.field.field_type {
        FieldType::Array => {
            let sub = leaf.field.fields@;
            let subs = row_fields(sub);
            let names = json_names(subs);
            let (end, r) = convert_array_step(s, rows, sub);
            if r is Ok {
                let last = end.sent.len() as int;
                assert forall|k: int|
                    #![trigger subs[k]]
                    0 <= k < subs.len() && (subs[k].field_type == FieldType::Group
                        || subs[k].field_type == FieldType::Array || subs[k].field_type
                        == FieldType::Blocks) implies table_scanned(
                    end,
                    at,
                    last,
                    rows,
                    one_column_read(rows, subs[k].name@),
                ) by {
                    json_is_named(subs, k);
                    let m = choose|m: int| 0 <= m < names.len() && names[m] == subs[k].name@;
                    if told_there(s, at) {
                        columns_are_read(s1, rows, sub, names, 0, 0, m);
                        assert(end == convert_columns_from(s1, rows, sub, names, 0, 0).0);
                        assert(extends(s1, end));
                    }
                    assert(end.sent[at] == asks_for_table(s.dialect, rows));
                }
            }
        },
        FieldType::Blocks => {
            let kind = RowsView::Blocks(leaf.field.blocks@);
            let (end, r) = convert_blocks_step(s, rows, leaf.field.blocks@);
            if r is Ok {
                if told_there(s, at) {
                    rows_are_read(s1, rows, kind);
                    assert(extends(s1, end));
                }
                assert(end.sent[at] == asks_for_table(s.dialect, rows));
            }
        },
        _ => {},
    }
}

proof fn leaves_rows_are_scanned(
    s: SessionView,
    table: Seq<char>,
    found: Seq<LeafView>,
    i: int,
    n: nat,
    k: int,
)
    requires
        0 <= i <= k < found.len(),
    ensures
        ({
            let (end, r) = convert_leaves_from(s, table, found, i, n);
            r is Ok ==> rows_scanned(
                end,
                s.sent.len() as int,
                end.sent.len() as int,
                table,
                found[k],
            )
        }),
    decreases found.len() - i,
{
    broadcast use {
        in_convert_leaves_from, in_convert_array_step, in_convert_blocks_step, extends_itself,
    };

    let (end, r) = convert_leaves_from(s, table, found, i, n);
    if r is Ok {
        let rows = table + "_"@ + found[i].path();
        let (s1, r1) = match found[i].field.field_type {
            FieldType::Array => convert_array_step(s, rows, found[i].field.fields@),
            FieldType::Blocks => convert_blocks_step(s, rows, found[i].field.blocks@),
            _ => (s, Ok::<nat, ErrorView>(0)),
        };
        let m = together(n, r1->Ok_0);
        assert(extends(s, s1));
        assert(end == convert_leaves_from(s1, table, found, i + 1, m).0);
        let last = end.sent.len() as int;
        if i == k {
            a_leafs_rows_are_scanned(s, table, found[i]);
            rows_scanned_wider(
                s1,
                end,
                s.sent.len() as int,
                s1.sent.len() as int,
                s.sent.len() as int,
                last,
                table,
                found[k],
            );
        } else {
            leaves_rows_are_scanned(s1, table, found, i + 1, m, k);
            rows_scanned_wider(
                end,
                end,
                s1.sent.len() as int,
                last,
                s.sent.len() as int,
                last,
                table,
                found[k],
            );
        }
    }
}

/// Whether, from the `i`-th request on and before the `j`-th, the values that a
/// definition's rows hold are on record as typed and, unless that was read, all of its
/// rows that hold any were read.
pub open spec fn nested_kept(
    s: SessionView,
    i: int,
    j: int,
    slug: Seq<char>,
    table: Seq<char>,
    fields: Seq<FieldDefinition>,
) -> bool {
    let key = "nested_values:"@ + slug;
    &&& between(s, i, j, record_removed(s.dialect, "nested_timezone_dates:"@ + slug))
    &&& exists|k: int|
        0 <= i <= k < j && k < s.sent.len() && #[trigger] s.sent[k] == record_read(
            s.dialect,
            key,
        ) && {
            ||| read_as(s, k, "1"@)
            ||| on_record(s, k + 1, j, key, "1"@) && forall|m: int|
                0 <= m < leaves(fields, Seq::empty(), false).len() ==> rows_scanned(
                    s,
                    k + 1,
                    j,
                    table,
                    #[trigger] leaves(fields, Seq::empty(), false)[m],
                )
        }
}

pub(crate) proof fn nested_kept_wider(
    b: SessionView,
    d: SessionView,
    i: int,
    j: int,
    k: int,
    l: int,
    slug: Seq<char>,
    table: Seq<char>,
    fields: Seq<FieldDefinition>,
)
    requires
        extends(b, d),
        nested_kept(b, i, j, slug, table, fields),
        0 <= k <= i,
        j <= l,
    ensures
        nested_kept(d, k, l, slug, table, fields),
{
    let key = "nested_values:"@ + slug;
    let found = leaves(fields, Seq::empty(), false);
    between_wider(
        b,
        d,
        i,
        j,
        k,
        l,
        record_removed(b.dialect, "nested_timezone_dates:"@ + slug),
    );
    let at = choose|at: int|
        0 <= i <= at < j && at < b.sent.len() && #[trigger] b.sent[at] == record_read(
            b.dialect,
            key,
        ) && {
            ||| read_as(b, at, "1"@)
            ||| on_record(b, at + 1, j, key, "1"@) && forall|m: int|
                0 <= m < leaves(fields, Seq::empty(), false).len() ==> rows_scanned(
                    b,
                    at + 1,
                    j,
                    table,
                    #[trigger] leaves(fields, Seq::empty(), false)[m],
                )
        };
    assert(d.sent[at] == record_read(d.dialect, key));
    if !read_as(b, at, "1"@) {
        on_record_wider(b, d, at + 1, j, at + 1, l, key, "1"@);
        assert forall|m: int| 0 <= m < found.len() implies rows_scanned(
            d,
            at + 1,
            l,
            table,
            #[trigger] found[m],
        ) by {
            rows_scanned_wider(b, d, at + 1, j, at + 1, l, table, found[m]);
        }
    }
}

/// The values that a definition's rows hold are typed unless that is on record; then it
/// is on record.
pub proof fn a_definitions_rows_are_typed(
    s: SessionView,
    slug: Seq<char>,
    table: Seq<char>,
    fields: Seq<FieldDefinition>,
)
    ensures
        ({
            let (end, r) = convert_one_step(s, slug, table, fields);
            r is Ok ==> nested_kept(
                end,
                s.sent.len() as int,
                end.sent.len() as int,
                slug,
                table,
                fields,
            )
        }),
{
    broadcast use {
        in_meta_delete_step, in_meta_get_step, in_meta_upsert_step, in_convert_leaves_from,
        extends_on, in_noted,
    };

    let (end, r) = convert_one_step(s, slug, table, fields);
    if r is Ok {
        parameters_are_counted_from_one(s.dialect);
        let at = s.sent.len() as int;
        let last = end.sent.len() as int;
        let key = "nested_values:"@ + slug;
        let removed = record_removed(s.dialect, "nested_timezone_dates:"@ + slug);
        let s1 = s.asked(removed);
        assert(s1 == meta::delete_step(s, "nested_timezone_dates:"@ + slug).0);
        assert(s1.sent[at] == removed);
        let (s2, stored) = meta::get_step(s1, key);
        what_is_read_is_on_record(s1, key);
        assert(s2.sent[at + 1] == record_read(s.dialect, key));
        assert(s2.sent[at] == removed);
        let found = leaves(fields, Seq::empty(), false);
        if stored == Ok::<Option<Seq<char>>, ErrorView>(Some("1"@)) {
            assert(end == s2);
            assert(read_as(end, at + 1, "1"@));
        } else {
            let (s3, r3) = convert_leaves_from(s2, table, found, 0, 0);
            let s4 = stored_typed(s3, slug, r3->Ok_0);
            assert(extends(s3, s4)) by {
                broadcast use extends_itself;

            }
            assert(end == meta::upsert_step(s4, key, "1"@).0);
            assert(extends(s2, s3) && extends(s4, end));
            assert(extends(s3, end));
            assert(extends(s2, end));
            assert(end.sent[at] == removed);
            assert(end.sent[at + 1] == record_read(s.dialect, key));
            what_is_stored_is_on_record(s4, key, "1"@);
            on_record_wider(end, end, s4.sent.len() as int, last, at + 2, last, key, "1"@);
            assert forall|m: int| 0 <= m < found.len() implies rows_scanned(
                end,
                at + 2,
                last,
                table,
                #[trigger] found[m],
            ) by {
                leaves_rows_are_scanned(s2, table, found, 0, 0, m);
                rows_scanned_wider(
                    s3,
                    end,
                    at + 2,
                    s3.sent.len() as int,
                    at + 2,
                    last,
                    table,
                    found[m],
                );
            }
        }
        assert(between(end, at, last, removed));
    }
}

proof fn collections_rows_are_typed(
    s: SessionView,
    collections: Seq<CollectionDefinition>,
    i: int,
    k: int,
)
    requires
        0 <= i <= k < collections.len(),
    ensures
        ({
            let (end, r) = convert_collections_from(s, collections, i);
            r is Ok ==> nested_kept(
                end,
                s.sent.len() as int,
                end.sent.len() as int,
                collections[k].slug@,
                collections[k].slug@,
                collections[k].fields@,
            )
        }),
    decreases collections.len() - i,
{
    broadcast use {in_convert_collections_from, in_convert_one_step};

    let (end, r) = convert_collections_from(s, collections, i);
    if r is Ok {
        let slug = collections[i].slug@;
        let s1 = convert_one_step(s, slug, slug, collections[i].fields@).0;
        assert(end == convert_collections_from(s1, collections, i + 1).0);
        let (b, from, to) = if i == k {
            a_definitions_rows_are_typed(s, slug, slug, collections[i].fields@);
            (s1, s.sent.len() as int, s1.sent.len() as int)
        } else {
            collections_rows_are_typed(s1, collections, i + 1, k);
            (end, s1.sent.len() as int, end.sent.len() as int)
        };
        nested_kept_wider(
            b,
            end,
            from,
            to,
            s.sent.len() as int,
            end.sent.len() as int,
            collections[k].slug@,
            collections[k].slug@,
            collections[k].fields@,
        );
    }
}

proof fn globals_rows_are_typed(
    s: SessionView,
    globals: Seq<GlobalDefinition>,
    i: int,
    k: int,
)
    requires
        0 <= i <= k < globals.len(),
    ensures
        ({
            let (end, r) = convert_globals_from(s, globals, i);
            r is Ok ==> nested_kept(
                end,
                s.sent.len() as int,
                end.sent.len() as int,
                globals[k].slug@,
                "_global_"@ + globals[k].slug@,
                globals[k].fields@,
            )
        }),
    decreases globals.len() - i,
{
    broadcast use {in_convert_globals_from, in_convert_one_step};

    let (end, r) = convert_globals_from(s, globals, i);
    if r is Ok {
        let slug = globals[i].slug@;
        let s1 = convert_one_step(s, slug, "_global_"@ + slug, globals[i].fields@).0;
        assert(end == convert_globals_from(s1, globals, i + 1).0);
        let (b, from, to) = if i == k {
            a_definitions_rows_are_typed(s, slug, "_global_"@ + slug, globals[i].fields@);
            (s1, s.sent.len() as int, s1.sent.len() as int)
        } else {
            globals_rows_are_typed(s1, globals, i + 1, k);
            (end, s1.sent.len() as int, end.sent.len() as int)
        };
        nested_kept_wider(
            b,
            end,
            from,
            to,
            s.sent.len() as int,
            end.sent.len() as int,
            globals[k].slug@,
            "_global_"@ + globals[k].slug@,
            globals[k].fields@,
        );
    }
}

/// Whether the values in the rows of every collection and of every global are typed, or
/// on record as typed.
pub open spec fn all_nested_kept(s: SessionView, i: int, j: int, registry: Registry) -> bool {
    &&& forall|c: int|
        0 <= c < registry.collections@.len() ==> nested_kept(
            s,
            i,
            j,
            (#[trigger] registry.collections@[c]).slug@,
            registry.collections@[c].slug@,
            registry.collections@[c].fields@,
        )
    &&& forall|g: int|
        0 <= g < registry.globals@.len() ==> nested_kept(
            s,
            i,
            j,
            (#[trigger] registry.globals@[g]).slug@,
            "_global_"@ + registry.globals@[g].slug@,
            registry.globals@[g].fields@,
        )
}

/// The values in the rows of every collection and of every global are typed once.
pub proof fn every_nested_value_is_typed(s: SessionView, registry: Registry)
    ensures
        ({
            let (end, r) = convert_step(s, registry);
            r is Ok ==> all_nested_kept(end, s.sent.len() as int, end.sent.len() as int, registry)
        }),
{
    broadcast use {in_convert_collections_from, in_convert_globals_from};

    let (end, r) = convert_step(s, registry);
    if r is Ok {
        let collections = registry.collections@;
        let globals = registry.globals@;
        let s1 = convert_collections_from(s, collections, 0).0;
        assert(end == convert_globals_from(s1, globals, 0).0);
        let at = s.sent.len() as int;
        let last = end.sent.len() as int;
        assert forall|c: int| 0 <= c < collections.len() implies nested_kept(
            end,
            at,
            last,
            (#[trigger] collections[c]).slug@,
            collections[c].slug@,
            collections[c].fields@,
        ) by {
            collections_rows_are_typed(s, collections, 0, c);
            nested_kept_wider(
                s1,
                end,
                at,
                s1.sent.len() as int,
                at,
                last,
                collections[c].slug@,
                collections[c].slug@,
                collections[c].fields@,
            );
        }
        assert forall|g: int| 0 <= g < globals.len() implies nested_kept(
            end,
            at,
            last,
            (#[trigger] globals[g]).slug@,
            "_global_"@ + globals[g].slug@,
            globals[g].fields@,
        ) by {
            globals_rows_are_typed(s1, globals, 0, g);
            nested_kept_wider(
                end,
                end,
                s1.sent.len() as int,
                last,
                at,
                last,
                globals[g].slug@,
                "_global_"@ + globals[g].slug@,
                globals[g].fields@,
            );
        }
    }
}

pub(crate) proof fn all_nested_kept_wider(
    b: SessionView,
    d: SessionView,
    i: int,
    j: int,
    k: int,
    l: int,
    registry: Registry,
)
    requires
        extends(b, d),
        all_nested_kept(b, i, j, registry),
        0 <= k <= i,
        j <= l,
    ensures
        all_nested_kept(d, k, l, registry),
{
    let collections = registry.collections@;
    let globals = registry.globals@;
    assert forall|c: int| 0 <= c < collections.len() implies nested_kept(
        d,
        k,
        l,
        (#[trigger] collections[c]).slug@,
        collections[c].slug@,
        collections[c].fields@,
    ) by {
        nested_kept_wider(
            b,
            d,
            i,
            j,
            k,
            l,
            collections[c].slug@,
            collections[c].slug@,
            collections[c].fields@,
        );
    }
    assert forall|g: int| 0 <= g < globals.len() implies nested_kept(
        d,
        k,
        l,
        (#[trigger] globals[g]).slug@,
        "_global_"@ + globals[g].slug@,
        globals[g].fields@,
    ) by {
        nested_kept_wider(
            b,
            d,
            i,
            j,
            k,
            l,
            globals[g].slug@,
            "_global_"@ + globals[g].slug@,
            globals[g].fields@,
        );
    }
}

/// Rows are converted page by page until a page is not full: behind a full one the next is
/// read, from its last id on.
pub proof fn pages_are_converted_to_the_end(
    s: SessionView,
    table: Seq<char>,
    column: Seq<char>,
    sub: Seq<FieldDefinition>,
    page: PageView,
    n: nat,
    id: Seq<char>,
)
    ensures
        ({
            let kind = RowsView::Column(column, sub);
            let (s1, more) = convert_candidates_step(
                s,
                Conversion::Typed,
                table,
                update_sql(s.dialect, table, column),
                kind.failed(table),
                kind.fields(),
                kind.blocks(),
                kind.candidates(page.rows),
            );
            let asked = RequestView::QueryAll {
                sql: one_column_read_on(s1.dialect, table, column),
                params: seq![DbValueView::Text(id)],
            };
            let (end, r) = convert_pages(s, table, kind, page, n);
            &&& more is Ok && page.next is None ==> end == s1 && r is Ok
            &&& more is Ok && page.next == Some(id) ==> s1.sent.len() < end.sent.len() && end.sent[
                s1.sent.len() as int
            ] == asked
        }),
{
    let kind = RowsView::Column(column, sub);
    let (s1, more) = convert_candidates_step(
        s,
        Conversion::Typed,
        table,
        update_sql(s.dialect, table, column),
        kind.failed(table),
        kind.fields(),
        kind.blocks(),
        kind.candidates(page.rows),
    );
    if more is Ok && page.next == Some(id) {
        later_pages_are_read_so(s1, table, column, id, Seq::empty());
        let (s2, next) = page_step(s1, kind.scan(table), Some(id));
        assert(s2.sent[s1.sent.len() as int] == s2.sent.last());
        if next is Ok {
            in_convert_pages(s2, table, kind, next->Ok_0, together(n, more->Ok_0));
            let end = convert_pages(s, table, kind, page, n).0;
            assert(end.sent[s1.sent.len() as int] == s2.sent[s1.sent.len() as int]);
        }
    }
}

} // verus!
