//! Values inside rows on their way to another form: which are converted, and where the
//! converted ones go.
use crate::definition::{
    BlockDefinition, BlockView, FieldDefinition, FieldType, FieldView, LeafView, Registry, leaves,
    row_fields,
};
use crate::json_text::{prints_object, reprinted};
use crate::migrate::meta;
use crate::migrate::helpers::paged::update_sql;
use crate::migrate::nested_timezone_dates::{
    column_sql, converted_dates, date_array_step, date_blocks_step, date_column_step,
    date_columns_from, date_from, date_leaves_from, date_one_step, store_sql,
};
use crate::migrate::nested_values::{
    CandidateView, Conversion, block_candidates, block_value, changed, column_candidates,
    convert_candidates_step, json_names,
};
use crate::migrate::transaction::{
    in_convert_candidates_step, in_meta_get_step, in_meta_upsert_step,
};
use crate::names::quoted;
use crate::promises::{
    answered, between, between_asked, between_wider, first_mark, on_record, on_record_wider,
    parameters_are_counted_from_one, read_as, record_read, second_mark,
};
use crate::promises::lookups::{a_table_is_looked_for, asks_for_table, told_missing, told_there};
use crate::promises::nested::json_is_named;
use crate::promises::records::{what_is_read_is_on_record, what_is_stored_is_on_record};
use crate::replay::{extends_itself, extends_on, on_ask_done, on_noted};
use crate::session::{Dialect, ReplyView, RequestView, SessionView, extends};
use crate::text::decimal;
use crate::value::{DbRowView, DbValueView, ErrorView, together};
use vstd::prelude::*;

verus! {

proof fn a_changed_value_is_listed(
    candidates: Seq<CandidateView>,
    converted: Seq<Seq<char>>,
    n: int,
    i: int,
)
    requires
        0 <= i < n <= candidates.len(),
        candidates.len() == converted.len(),
        converted[i] != candidates[i].value,
    ensures
        changed(candidates, converted, n).contains(
            seq![DbValueView::Text(converted[i]), DbValueView::Text(candidates[i].id)],
        ),
    decreases n,
{
    let row = seq![DbValueView::Text(converted[i]), DbValueView::Text(candidates[i].id)];
    let before = changed(candidates, converted, n - 1);
    let all = changed(candidates, converted, n);
    if i == n - 1 {
        assert(all.last() == row);
    } else {
        a_changed_value_is_listed(candidates, converted, n - 1, i);
        let k = choose|k: int| 0 <= k < before.len() && before[k] == row;
        assert(all[k] == row);
    }
}

proof fn only_changed_values_are_listed(
    candidates: Seq<CandidateView>,
    converted: Seq<Seq<char>>,
    n: int,
    k: int,
)
    requires
        0 <= n <= candidates.len(),
        candidates.len() == converted.len(),
        0 <= k < changed(candidates, converted, n).len(),
    ensures
        exists|i: int|
            0 <= i < n && #[trigger] converted[i] != candidates[i].value && changed(
                candidates,
                converted,
                n,
            )[k] == seq![DbValueView::Text(converted[i]), DbValueView::Text(candidates[i].id)],
    decreases n,
{
    if n > 0 {
        let before = changed(candidates, converted, n - 1);
        if k < before.len() {
            only_changed_values_are_listed(candidates, converted, n - 1, k);
            let i = choose|i: int|
                0 <= i < n - 1 && #[trigger] converted[i] != candidates[i].value && before[k]
                    == seq![DbValueView::Text(converted[i]), DbValueView::Text(candidates[i].id)];
            assert(converted[i] != candidates[i].value);
        } else {
            assert(converted[n - 1] != candidates[n - 1].value);
        }
    }
}

/// Values are converted all at once, and each that came back changed is stored in its own
/// row, by the row's id; one that came back as it was is not. As many are said to be
/// converted as were stored.
pub proof fn converted_values_go_back_to_their_rows(
    s: SessionView,
    table: Seq<char>,
    update: Seq<char>,
    failed: Seq<char>,
    fields: Seq<FieldView>,
    blocks: Seq<BlockView>,
    candidates: Seq<CandidateView>,
    converted: Seq<Seq<char>>,
    n: u64,
    i: int,
    k: int,
)
    requires
        candidates.len() > 0,
        candidates.len() == converted.len(),
        answered(s, 0, ReplyView::Names(converted)),
    ensures
        ({
            let parts = Seq::new(candidates.len(), |i: int| candidates[i].part);
            let values = Seq::new(candidates.len(), |i: int| candidates[i].value);
            let updates = changed(candidates, converted, candidates.len() as int);
            let typed = convert_candidates_step(
                s,
                Conversion::Typed,
                table,
                update,
                failed,
                fields,
                blocks,
                candidates,
            );
            let dated = convert_candidates_step(
                s,
                Conversion::Dates,
                table,
                update,
                failed,
                fields,
                blocks,
                candidates,
            );
            let stored = RequestView::ExecuteMany { sql: update, rows: updates };
            let typing = s.sent.push(
                RequestView::StoreNestedValues { table, fields, blocks, parts, values },
            );
            let dating = s.sent.push(
                RequestView::ConvertTimezoneDates { table, fields, blocks, parts, values },
            );
            &&& updates.len() > 0 ==> typed.0.sent == typing.push(stored) && dated.0.sent
                == dating.push(stored)
            &&& updates.len() == 0 ==> typed.0.sent == typing && dated.0.sent == dating
            &&& updates.len() == 0 || answered(s, 1, ReplyView::Count(n)) ==> typed.1 == Ok::<
                nat,
                ErrorView,
            >(updates.len()) && dated.1 == Ok::<nat, ErrorView>(updates.len())
            &&& 0 <= i < candidates.len() && converted[i] != candidates[i].value
                ==> updates.contains(
                seq![DbValueView::Text(converted[i]), DbValueView::Text(candidates[i].id)],
            )
            &&& 0 <= k < updates.len() ==> exists|i: int|
                0 <= i < candidates.len() && #[trigger] converted[i] != candidates[i].value
                    && updates[k] == seq![
                    DbValueView::Text(converted[i]),
                    DbValueView::Text(candidates[i].id),
                ]
        }),
{
    let updates = changed(candidates, converted, candidates.len() as int);
    if 0 <= i < candidates.len() && converted[i] != candidates[i].value {
        a_changed_value_is_listed(candidates, converted, candidates.len() as int, i);
    }
    if 0 <= k < updates.len() {
        only_changed_values_are_listed(candidates, converted, candidates.len() as int, k);
    }
}

/// A converted value is stored in its column of the row with its id.
pub proof fn a_converted_value_is_stored_by_id(
    dialect: Dialect,
    table: Seq<char>,
    column: Seq<char>,
)
    ensures
        update_sql(dialect, table, column) == "UPDATE "@ + quoted(table) + " SET "@ + quoted(column)
            + " = "@ + first_mark(dialect) + " WHERE id = "@ + second_mark(dialect),
        store_sql(dialect, table, column) == "UPDATE \""@ + table + "\" SET "@ + column + " = "@
            + first_mark(dialect) + " WHERE id = "@ + second_mark(dialect),
        column_sql(table, column) == "SELECT id, \""@ + column + "\" FROM \""@ + table
            + "\" WHERE \""@ + column + "\" IS NOT NULL"@,
{
    parameters_are_counted_from_one(dialect);
}

/// Every row of an array whose column holds JSON is converted, by its id, with the value
/// it holds.
pub proof fn json_in_a_column_is_converted(
    rows: Seq<DbRowView>,
    part: Seq<char>,
    m: int,
    id: Seq<char>,
    raw: Seq<char>,
    value: Seq<char>,
)
    requires
        0 <= m < rows.len(),
        rows[m].values.len() >= 2,
        rows[m].values[0] == DbValueView::Text(id),
        rows[m].values[1] == DbValueView::Text(raw),
    ensures
        reprinted(raw) == Some(value) ==> column_candidates(rows, part).contains(
            CandidateView { id, part, value },
        ),
    decreases rows.len(),
{
    if reprinted(raw) == Some(value) {
        let one = CandidateView { id, part, value };
        let before = column_candidates(rows.drop_last(), part);
        let all = column_candidates(rows, part);
        if m == rows.len() - 1 {
            assert(all.last() == one);
        } else {
            assert(rows.drop_last()[m] == rows[m]);
            json_in_a_column_is_converted(rows.drop_last(), part, m, id, raw, value);
            let k = choose|k: int| 0 <= k < before.len() && before[k] == one;
            assert(all[k] == one);
        }
    }
}

/// Every row of a blocks table whose kind is still defined and whose data is an object is
/// converted, by its id, as a row of its kind. A row of a kind that is gone is not.
pub proof fn data_of_a_block_is_converted(
    rows: Seq<DbRowView>,
    blocks: Seq<BlockDefinition>,
    b: int,
    m: int,
    id: Seq<char>,
    part: Seq<char>,
    raw: Seq<char>,
    value: Seq<char>,
)
    requires
        0 <= m < rows.len(),
        rows[m].values.len() >= 3,
        rows[m].values[0] == DbValueView::Text(id),
        rows[m].values[1] == DbValueView::Text(part),
        rows[m].values[2] == DbValueView::Text(raw),
    ensures
        reprinted(raw) == Some(value) && prints_object(value) && 0 <= b < blocks.len()
            && blocks[b].block_type@ == part ==> block_candidates(
            rows,
            blocks,
        ).contains(CandidateView { id, part, value }),
        (forall|k: int| 0 <= k < blocks.len() ==> (#[trigger] blocks[k]).block_type@ != part)
            ==> block_value(blocks, part, reprinted(raw)) is None,
    decreases rows.len(),
{
    if reprinted(raw) == Some(value) && prints_object(value) && 0 <= b < blocks.len()
        && blocks[b].block_type@ == part {
        let one = CandidateView { id, part, value };
        let before = block_candidates(rows.drop_last(), blocks);
        let all = block_candidates(rows, blocks);
        assert(block_value(blocks, part, reprinted(raw)) == Some(value));
        if m == rows.len() - 1 {
            assert(all.last() == one);
        } else {
            assert(rows.drop_last()[m] == rows[m]);
            data_of_a_block_is_converted(
                rows.drop_last(),
                blocks,
                b,
                m,
                id,
                part,
                raw,
                value,
            );
            let k = choose|k: int| 0 <= k < before.len() && before[k] == one;
            assert(all[k] == one);
        }
    }
}

/// Whether a table was looked for there and, where it is there, asked by a statement.
pub open spec fn table_asked(
    s: SessionView,
    i: int,
    j: int,
    table: Seq<char>,
    sql: Seq<char>,
) -> bool {
    exists|k: int|
        0 <= i <= k < j && k < s.sent.len() && #[trigger] s.sent[k] == asks_for_table(
            s.dialect,
            table,
        ) && (told_missing(s, k) || told_there(s, k) && between(
            s,
            k + 1,
            j,
            RequestView::QueryAll { sql, params: Seq::empty() },
        ))
}

proof fn table_asked_wider(
    b: SessionView,
    d: SessionView,
    i: int,
    j: int,
    k: int,
    l: int,
    table: Seq<char>,
    sql: Seq<char>,
)
    requires
        extends(b, d),
        table_asked(b, i, j, table, sql),
        0 <= k <= i,
        j <= l,
    ensures
        table_asked(d, k, l, table, sql),
{
    let asked = RequestView::QueryAll { sql, params: Seq::empty() };
    let at = choose|at: int|
        0 <= i <= at < j && at < b.sent.len() && #[trigger] b.sent[at] == asks_for_table(
            b.dialect,
            table,
        ) && (told_missing(b, at) || told_there(b, at) && between(b, at + 1, j, asked));
    assert(d.sent[at] == b.sent[at]);
    if !told_missing(b, at) {
        between_wider(b, d, at + 1, j, at + 1, l, asked);
    }
}

/// Whether what a field keeps as JSON in rows of its own was read.
pub open spec fn rows_asked(
    s: SessionView,
    i: int,
    j: int,
    table: Seq<char>,
    leaf: LeafView,
) -> bool {
    let rows = table + "_"@ + leaf.path();
    match leaf.field.field_type {
        FieldType::Blocks => table_asked(
            s,
            i,
            j,
            rows,
            "SELECT id, _block_type, data FROM \""@ + rows + "\""@,
        ),
        FieldType::Array => forall|r: int|
            #![trigger row_fields(leaf.field.fields@)[r]]
            0 <= r < row_fields(leaf.field.fields@).len() && {
                let sub = row_fields(leaf.field.fields@)[r];
                sub.field_type == FieldType::Group || sub.field_type == FieldType::Array
                    || sub.field_type == FieldType::Blocks
            } ==> {
                let name = row_fields(leaf.field.fields@)[r].name@;
                table_asked(
                    s,
                    i,
                    j,
                    rows,
                    "SELECT id, \""@ + name + "\" FROM \""@ + rows + "\" WHERE \""@ + name
                        + "\" IS NOT NULL"@,
                )
            },
        _ => true,
    }
}

proof fn rows_asked_wider(
    b: SessionView,
    d: SessionView,
    i: int,
    j: int,
    k: int,
    l: int,
    table: Seq<char>,
    leaf: LeafView,
)
    requires
        extends(b, d),
        rows_asked(b, i, j, table, leaf),
        0 <= k <= i,
        j <= l,
    ensures
        rows_asked(d, k, l, table, leaf),
{
    let rows = table + "_"@ + leaf.path();
    let subs = row_fields(leaf.field.fields@);
    match leaf.field.field_type {
        FieldType::Blocks => {
            table_asked_wider(
                b,
                d,
                i,
                j,
                k,
                l,
                rows,
                "SELECT id, _block_type, data FROM \""@ + rows + "\""@,
            );
        },
        FieldType::Array => {
            assert forall|r: int|
                #![trigger subs[r]]
                0 <= r < subs.len() && (subs[r].field_type == FieldType::Group
                    || subs[r].field_type == FieldType::Array || subs[r].field_type
                    == FieldType::Blocks) implies table_asked(
                d,
                k,
                l,
                rows,
                column_sql(rows, subs[r].name@),
            ) by {
                assert(table_asked(b, i, j, rows, column_sql(rows, subs[r].name@)));
                table_asked_wider(b, d, i, j, k, l, rows, column_sql(rows, subs[r].name@));
            }
        },
        _ => {},
    }
}

proof fn on_date_column(
    s: SessionView,
    table: Seq<char>,
    sub: Seq<FieldDefinition>,
    column: Seq<char>,
)
    ensures
        ({
            let (end, r) = date_column_step(s, table, sub, column);
            &&& extends(s, end)
            &&& r is Ok ==> between(
                end,
                s.sent.len() as int,
                end.sent.len() as int,
                RequestView::QueryAll { sql: column_sql(table, column), params: Seq::empty() },
            )
        }),
{
    broadcast use {in_convert_candidates_step, extends_itself};

    let (end, r) = date_column_step(s, table, sub, column);
    let asked = RequestView::QueryAll { sql: column_sql(table, column), params: Seq::empty() };
    let s1 = s.asked(asked);
    on_ask_done(s, asked);
    assert(extends(s1, end));
    extends_on(s, s1, end);
    if r is Ok {
        between_asked(s, end, s.sent.len() as int, end.sent.len() as int, asked);
    }
}

proof fn on_date_columns(
    s: SessionView,
    table: Seq<char>,
    sub: Seq<FieldDefinition>,
    names: Seq<Seq<char>>,
    i: int,
    n: nat,
    k: int,
)
    requires
        0 <= i <= names.len(),
    ensures
        ({
            let (end, r) = date_columns_from(s, table, sub, names, i, n);
            &&& extends(s, end)
            &&& r is Ok && i <= k < names.len() ==> between(
                end,
                s.sent.len() as int,
                end.sent.len() as int,
                RequestView::QueryAll { sql: column_sql(table, names[k]), params: Seq::empty() },
            )
        }),
    decreases names.len() - i,
{
    let (end, r) = date_columns_from(s, table, sub, names, i, n);
    extends_itself(s);
    if i < names.len() {
        let (s1, r1) = date_column_step(s, table, sub, names[i]);
        on_date_column(s, table, sub, names[i]);
        if r1 is Ok {
            let m = together(n, r1->Ok_0);
            on_date_columns(s1, table, sub, names, i + 1, m, k);
            extends_on(s, s1, end);
            extends_itself(end);
            if r is Ok && i <= k < names.len() {
                let asked = RequestView::QueryAll {
                    sql: column_sql(table, names[k]),
                    params: Seq::empty(),
                };
                let (from, to) = (s.sent.len() as int, end.sent.len() as int);
                if k == i {
                    between_wider(s1, end, from, s1.sent.len() as int, from, to, asked);
                } else {
                    between_wider(end, end, s1.sent.len() as int, to, from, to, asked);
                }
            }
        }
    }
}

proof fn on_date_leaf(s: SessionView, table: Seq<char>, leaf: LeafView)
    ensures
        ({
            let rows = table + "_"@ + leaf.path();
            let (end, r) = match leaf.field.field_type {
                FieldType::Array => date_array_step(s, rows, leaf.field.fields@),
                FieldType::Blocks => date_blocks_step(s, rows, leaf.field.blocks@),
                _ => (s, Ok::<nat, ErrorView>(0)),
            };
            &&& extends(s, end)
            &&& r is Ok ==> rows_asked(end, s.sent.len() as int, end.sent.len() as int, table, leaf)
        }),
{
    broadcast use in_convert_candidates_step;

    let rows = table + "_"@ + leaf.path();
    let at = s.sent.len() as int;
    a_table_is_looked_for(s, rows, Seq::empty());
    let looking = asks_for_table(s.dialect, rows);
    let s1 = s.asked(looking);
    assert(s1.sent =~= s.sent + seq![looking]);
    on_ask_done(s, looking);
    extends_itself(s);
    extends_itself(s1);
    assert(s1.sent[at] == looking);
    match leaf.field.field_type {
        FieldType::Array => {
            let sub = leaf.field.fields@;
            let subs = row_fields(sub);
            let names = json_names(subs);
            let (end, r) = date_array_step(s, rows, sub);
            on_date_columns(s1, rows, sub, names, 0, 0, 0);
            extends_on(s, s1, date_columns_from(s1, rows, sub, names, 0, 0).0);
            if r is Ok {
                let last = end.sent.len() as int;
                assert forall|k: int|
                    #![trigger subs[k]]
                    0 <= k < subs.len() && (subs[k].field_type == FieldType::Group
                        || subs[k].field_type == FieldType::Array || subs[k].field_type
                        == FieldType::Blocks) implies table_asked(
                    end,
                    at,
                    last,
                    rows,
                    column_sql(rows, subs[k].name@),
                ) by {
                    json_is_named(subs, k);
                    let m = choose|m: int| 0 <= m < names.len() && names[m] == subs[k].name@;
                    on_date_columns(s1, rows, sub, names, 0, 0, m);
                    assert(extends(s1, end));
                    assert(end.sent[at] == looking);
                }
            }
        },
        FieldType::Blocks => {
            let (end, r) = date_blocks_step(s, rows, leaf.field.blocks@);
            let sql = "SELECT id, _block_type, data FROM \""@ + rows + "\""@;
            let asked = RequestView::QueryAll { sql, params: Seq::empty() };
            let s2 = s1.asked(asked);
            on_ask_done(s1, asked);
            extends_itself(s2);
            if told_there(s, at) {
                assert(extends(s2, end));
                extends_on(s1, s2, end);
            }
            assert(extends(s1, end));
            extends_on(s, s1, end);
            assert(end.sent[at] == looking);
            if r is Ok && told_there(s, at) {
                between_asked(s1, end, at + 1, end.sent.len() as int, asked);
            }
        },
        _ => {},
    }
}

proof fn on_date_leaves(
    s: SessionView,
    table: Seq<char>,
    found: Seq<LeafView>,
    i: int,
    n: nat,
    k: int,
)
    requires
        0 <= i <= found.len(),
    ensures
        ({
            let (end, r) = date_leaves_from(s, table, found, i, n);
            &&& extends(s, end)
            &&& r is Ok && i <= k < found.len() ==> rows_asked(
                end,
                s.sent.len() as int,
                end.sent.len() as int,
                table,
                found[k],
            )
        }),
    decreases found.len() - i,
{
    let (end, r) = date_leaves_from(s, table, found, i, n);
    extends_itself(s);
    if i < found.len() {
        let rows = table + "_"@ + found[i].path();
        let (s1, r1) = match found[i].field.field_type {
            FieldType::Array => date_array_step(s, rows, found[i].field.fields@),
            FieldType::Blocks => date_blocks_step(s, rows, found[i].field.blocks@),
            _ => (s, Ok::<nat, ErrorView>(0)),
        };
        on_date_leaf(s, table, found[i]);
        if r1 is Ok {
            let m = together(n, r1->Ok_0);
            on_date_leaves(s1, table, found, i + 1, m, k);
            extends_on(s, s1, end);
            extends_itself(end);
            if r is Ok && i <= k < found.len() {
                let (from, to) = (s.sent.len() as int, end.sent.len() as int);
                if k == i {
                    rows_asked_wider(
                        s1,
                        end,
                        from,
                        s1.sent.len() as int,
                        from,
                        to,
                        table,
                        found[k],
                    );
                } else {
                    rows_asked_wider(
                        end,
                        end,
                        s1.sent.len() as int,
                        to,
                        from,
                        to,
                        table,
                        found[k],
                    );
                }
            }
        }
    }
}

/// The dates that a definition's rows hold are converted unless that is on record: all of
/// its rows that hold any are read, and it is on record afterwards.
pub proof fn a_definitions_dates_are_converted(
    s: SessionView,
    slug: Seq<char>,
    table: Seq<char>,
    fields: Seq<FieldDefinition>,
    m: int,
)
    ensures
        ({
            let (end, r) = date_one_step(s, slug, table, fields);
            let key = "nested_timezone_dates:"@ + slug;
            let found = leaves(fields, Seq::empty(), false);
            let (i, j) = (s.sent.len() as int, end.sent.len() as int);
            &&& extends(s, end)
            &&& i < j && end.sent[i] == record_read(s.dialect, key)
            &&& r is Ok && !read_as(s, i, "1"@) ==> {
                &&& on_record(end, i + 1, j, key, "1"@)
                &&& 0 <= m < found.len() ==> rows_asked(end, i + 1, j, table, found[m])
            }
        }),
{
    broadcast use {in_meta_get_step, in_meta_upsert_step};

    let (end, r) = date_one_step(s, slug, table, fields);
    let key = "nested_timezone_dates:"@ + slug;
    let found = leaves(fields, Seq::empty(), false);
    let i = s.sent.len() as int;
    let (s1, stored) = meta::get_step(s, key);
    what_is_read_is_on_record(s, key);
    assert(s1.sent[i] == record_read(s.dialect, key));
    extends_itself(s1);
    let (s2, r2) = date_leaves_from(s1, table, found, 0, 0);
    on_date_leaves(s1, table, found, 0, 0, m);
    if stored is Ok && stored != Ok::<Option<Seq<char>>, ErrorView>(Some("1"@)) {
        if r2 is Ok {
            let s3 = converted_dates(s2, slug, r2->Ok_0);
            extends_itself(s2);
            assert(extends(s2, s3)) by {
                if r2->Ok_0 > 0 {
                    on_noted(
                        s2,
                        "Converted nested timezone dates to UTC in "@ + decimal(
                            r2->Ok_0,
                        ) + " row(s) of '"@ + slug + "'"@,
                    );
                }
            }
            assert(end == meta::upsert_step(s3, key, "1"@).0);
            assert(extends(s3, end));
            extends_on(s2, s3, end);
            extends_on(s1, s2, end);
            let j = end.sent.len() as int;
            if r is Ok {
                what_is_stored_is_on_record(s3, key, "1"@);
                extends_itself(end);
                on_record_wider(end, end, s3.sent.len() as int, j, i + 1, j, key, "1"@);
                if 0 <= m < found.len() {
                    rows_asked_wider(
                        s2,
                        end,
                        i + 1,
                        s2.sent.len() as int,
                        i + 1,
                        j,
                        table,
                        found[m],
                    );
                }
            }
        } else {
            assert(end == s2);
        }
    } else {
        assert(end == s1);
    }
    assert(extends(s1, end));
    extends_on(s, s1, end);
    assert(end.sent[i] == s1.sent[i]);
}

/// The dates in the rows of every collection and of every global are converted: for each
/// it is read whether they were.
pub proof fn every_definitions_dates_are_converted(
    s: SessionView,
    registry: Registry,
    i: int,
    k: int,
)
    requires
        0 <= i <= k < registry.collections@.len() + registry.globals@.len(),
        date_from(s, registry, i).1 is Ok,
    ensures
        ({
            let end = date_from(s, registry, i).0;
            let n = registry.collections@.len();
            let slug = if k < n {
                registry.collections@[k].slug@
            } else {
                registry.globals@[k - n].slug@
            };
            let key = "nested_timezone_dates:"@ + slug;
            &&& extends(s, end)
            &&& on_record(end, s.sent.len() as int, end.sent.len() as int, key, "1"@)
        }),
    decreases registry.collections@.len() + registry.globals@.len() - i,
{
    let end = date_from(s, registry, i).0;
    let n = registry.collections@.len();
    let (slug, table, fields) = if i < n {
        (
            registry.collections@[i].slug@,
            registry.collections@[i].slug@,
            registry.collections@[i].fields@,
        )
    } else {
        (
            registry.globals@[i - n].slug@,
            "_global_"@ + registry.globals@[i - n].slug@,
            registry.globals@[i - n].fields@,
        )
    };
    let (s1, r1) = date_one_step(s, slug, table, fields);
    let key = "nested_timezone_dates:"@ + slug;
    a_definitions_dates_are_converted(s, slug, table, fields, 0);
    let at = s.sent.len() as int;
    extends_itself(s1);
    if read_as(s, at, "1"@) {
        assert(s1.sent[at] == record_read(s1.dialect, key));
        assert(read_as(s1, at, "1"@));
        assert(on_record(s1, at, s1.sent.len() as int, key, "1"@));
    } else {
        on_record_wider(
            s1,
            s1,
            at + 1,
            s1.sent.len() as int,
            at,
            s1.sent.len() as int,
            key,
            "1"@,
        );
    }
    dates_from_grow(s1, registry, i + 1);
    extends_on(s, s1, end);
    extends_itself(end);
    if i == k {
        on_record_wider(
            s1,
            end,
            at,
            s1.sent.len() as int,
            at,
            end.sent.len() as int,
            key,
            "1"@,
        );
    } else {
        every_definitions_dates_are_converted(s1, registry, i + 1, k);
        let other = if k < n {
            registry.collections@[k].slug@
        } else {
            registry.globals@[k - n].slug@
        };
        on_record_wider(
            end,
            end,
            s1.sent.len() as int,
            end.sent.len() as int,
            at,
            end.sent.len() as int,
            "nested_timezone_dates:"@ + other,
            "1"@,
        );
    }
}

proof fn dates_from_grow(s: SessionView, registry: Registry, i: int)
    requires
        0 <= i,
    ensures
        extends(s, date_from(s, registry, i).0),
    decreases registry.collections@.len() + registry.globals@.len() - i,
{
    let n = registry.collections@.len();
    extends_itself(s);
    if i < n + registry.globals@.len() {
        let (slug, table, fields) = if i < n {
            (
                registry.collections@[i].slug@,
                registry.collections@[i].slug@,
                registry.collections@[i].fields@,
            )
        } else {
            (
                registry.globals@[i - n].slug@,
                "_global_"@ + registry.globals@[i - n].slug@,
                registry.globals@[i - n].fields@,
            )
        };
        let (s1, r1) = date_one_step(s, slug, table, fields);
        a_definitions_dates_are_converted(s, slug, table, fields, 0);
        dates_from_grow(s1, registry, i + 1);
        extends_on(s, s1, date_from(s1, registry, i + 1).0);
    }
}

} // verus!
