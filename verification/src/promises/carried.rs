//! References that change between one and many take their values along.
use crate::definition::{
    CollectionDefinition, FieldDefinition, GlobalDefinition, LocaleConfig, Registry,
};
use crate::migrate::meta;
use crate::migrate::helpers::paged::{PageView, first_page_step, page_step};
use crate::migrate::reference_cardinality::{
    CopyView, RefColumn, RefLeafView, Shape, a_record_tells_every_shape, carried,
    carry_between_step, carry_collections_from, carry_globals_from, carry_leaf_step,
    carry_leaves_from, carry_owner_step, carry_step, column_to_junction_step, copy_column_step,
    copy_columns_from, copy_page_step, copy_pages, distinct_paths, held_columns, insert_row_sql,
    junction_to_column_step, multiple_sql, read_parts, ref_columns_from, ref_leaves_of, refill_from,
    refill_sql, row_params, shape_record, shape_under,
};
use crate::migrate::transaction::{
    in_carry_between_step, in_carry_collections_from, in_carry_globals_from, in_carry_leaf_step,
    in_carry_leaves_from, in_carry_owner_step, in_column_to_junction_step, in_copy_column_step,
    in_copy_columns_from, in_copy_pages, in_junction_to_column_step, in_meta_upsert_step,
    in_refill_from,
};
use crate::names::{locale_column_name, placeholder_text, quoted};
use crate::promises::{
    answered, between, between_asked, between_wider, first_mark, parameters_are_counted_from_one,
    read_as, record_read, running, second_mark,
};
use crate::promises::lookups::{
    a_table_is_looked_for, asks_for_columns, asks_for_table, columns_are_looked_for, told_columns,
    told_missing, told_there,
};
use crate::promises::nested::{
    first_pages_are_read_so, later_pages_are_read_so, one_column_read, one_column_read_on,
    page_read, read_between, read_between_wider,
};
use crate::promises::records::what_is_read_is_on_record;
use crate::promises::references::an_owners_references_are_kept;
use crate::replay::extends_itself;
use crate::session::{Dialect, ReplyView, RequestView, SessionView, extends};
use crate::text::{decimal, find_from, find_separator, pieces};
use crate::value::{DbRowView, DbValueView, ErrorView, together};
use vstd::prelude::*;

verus! {

/// The statement filling a column of every document from the rows of a junction.
pub open spec fn filled_from(
    dialect: Dialect,
    table: Seq<char>,
    junction: Seq<char>,
    column: Seq<char>,
    polymorphic: bool,
    locale: Option<Seq<char>>,
) -> RequestView {
    let value = if polymorphic {
        "j.related_collection || '/' || j.related_id"@
    } else {
        "j.related_id"@
    };
    let head = "UPDATE "@ + quoted(table) + " SET "@ + quoted(column) + " = (SELECT "@ + value
        + " FROM "@ + quoted(junction) + " j WHERE j.parent_id = "@ + quoted(table) + ".id"@;
    match locale {
        None => RequestView::Execute { sql: head + ")"@, params: Seq::empty() },
        Some(code) => RequestView::Execute {
            sql: head + " AND j._locale = "@ + first_mark(dialect) + ")"@,
            params: seq![DbValueView::Text(code)],
        },
    }
}

/// The statement naming documents that hold several values, per locale where values are
/// kept so.
pub open spec fn several_held(junction: Seq<char>, localized: bool) -> RequestView {
    let sql = if localized {
        "SELECT DISTINCT parent_id FROM (SELECT parent_id, _locale FROM "@ + quoted(junction)
            + " GROUP BY parent_id, _locale HAVING COUNT(*) > 1) multi ORDER BY parent_id LIMIT 10"@
    } else {
        "SELECT DISTINCT parent_id FROM (SELECT parent_id FROM "@ + quoted(junction)
            + " GROUP BY parent_id HAVING COUNT(*) > 1) multi ORDER BY parent_id LIMIT 10"@
    };
    RequestView::QueryAll { sql, params: Seq::empty() }
}

/// Whether a column keeps the values of a reference to one document, of a locale or of
/// none.
pub open spec fn keeps_values(
    leaf: RefLeafView,
    locales: Seq<Seq<char>>,
    column: Seq<char>,
    locale: Option<Seq<char>>,
) -> bool {
    match locale {
        None => !leaf.localized && column == leaf.path,
        Some(code) => leaf.localized && locales.contains(code) && locale_column_name(
            leaf.path,
            code,
        ) == Ok::<Seq<char>, ErrorView>(column),
    }
}

/// Whether the columns of a table were asked for by the `k`-th request and, where it has
/// the column given, the values moved: into the junction, which is emptied before, or out
/// of it, once no document holds several.
pub open spec fn column_moved(
    s: SessionView,
    k: int,
    j: int,
    table: Seq<char>,
    leaf: RefLeafView,
    column: Seq<char>,
    locale: Option<Seq<char>>,
) -> bool {
    let junction = table + "_"@ + leaf.path;
    &&& 0 <= k < j && k < s.sent.len()
    &&& s.sent[k] == asks_for_columns(s.dialect, table)
    &&& told_columns(s, k) matches Some(existing) && (existing.contains(column) ==> {
        &&& k + 1 < j && k + 1 < s.sent.len()
        &&& if leaf.shape().has_many {
            &&& s.sent[k + 1] == running("DELETE FROM "@ + quoted(junction))
            &&& read_between(s, k + 2, j, table, one_column_read(table, column))
        } else {
            &&& s.sent[k + 1] == several_held(junction, leaf.localized)
            &&& between(
                s,
                k + 2,
                j,
                filled_from(s.dialect, table, junction, column, leaf.shape().polymorphic, locale),
            )
        }
    })
}

/// Whether the junction of a reference was looked for and, where it is there, the values
/// of a column moved.
pub open spec fn values_moved(
    s: SessionView,
    i: int,
    j: int,
    table: Seq<char>,
    leaf: RefLeafView,
    column: Seq<char>,
    locale: Option<Seq<char>>,
) -> bool {
    exists|k: int|
        0 <= i <= k < j && k < s.sent.len() && #[trigger] s.sent[k] == asks_for_table(
            s.dialect,
            table + "_"@ + leaf.path,
        ) && (told_missing(s, k) || told_there(s, k) && column_moved(
            s,
            k + 1,
            j,
            table,
            leaf,
            column,
            locale,
        ))
}

proof fn values_moved_wider(
    b: SessionView,
    d: SessionView,
    i: int,
    j: int,
    k: int,
    l: int,
    table: Seq<char>,
    leaf: RefLeafView,
    column: Seq<char>,
    locale: Option<Seq<char>>,
)
    requires
        extends(b, d),
        values_moved(b, i, j, table, leaf, column, locale),
        0 <= k <= i,
        j <= l,
    ensures
        values_moved(d, k, l, table, leaf, column, locale),
{
    let junction = table + "_"@ + leaf.path;
    let at = choose|at: int|
        0 <= i <= at < j && at < b.sent.len() && #[trigger] b.sent[at] == asks_for_table(
            b.dialect,
            junction,
        ) && (told_missing(b, at) || told_there(b, at) && column_moved(
            b,
            at + 1,
            j,
            table,
            leaf,
            column,
            locale,
        ));
    assert(d.sent[at] == b.sent[at]);
    if !told_missing(b, at) {
        assert(d.sent[at + 1] == b.sent[at + 1]);
        if told_columns(b, at + 1)->Some_0.contains(column) {
            assert(d.sent[at + 2] == b.sent[at + 2]);
            if leaf.shape().has_many {
                read_between_wider(
                    b,
                    d,
                    at + 3,
                    j,
                    at + 3,
                    l,
                    table,
                    one_column_read(table, column),
                );
            } else {
                between_wider(
                    b,
                    d,
                    at + 3,
                    j,
                    at + 3,
                    l,
                    filled_from(
                        b.dialect,
                        table,
                        junction,
                        column,
                        leaf.shape().polymorphic,
                        locale,
                    ),
                );
            }
        }
        assert(column_moved(d, at + 1, l, table, leaf, column, locale));
    }
}

proof fn held_where_there(columns: Seq<RefColumn>, existing: Seq<Seq<char>>, at: RefColumn)
    requires
        columns.contains(at),
        existing.contains(at.0),
    ensures
        held_columns(columns, existing).contains(at),
    decreases columns.len(),
{
    let before = held_columns(columns.drop_last(), existing);
    let held = held_columns(columns, existing);
    if columns.last() == at {
        assert(held.last() == at);
    } else {
        let k = choose|k: int| 0 <= k < columns.len() && columns[k] == at;
        assert(columns.drop_last()[k] == at);
        held_where_there(columns.drop_last(), existing, at);
        let m = choose|m: int| 0 <= m < before.len() && before[m] == at;
        assert(held[m] == at);
    }
}

proof fn columns_of_locales(
    path: Seq<char>,
    locales: Seq<Seq<char>>,
    i: int,
    done: Seq<RefColumn>,
    at: RefColumn,
)
    requires
        0 <= i <= locales.len(),
        ref_columns_from(path, locales, i, done) is Ok,
        done.contains(at) || exists|k: int|
            i <= k < locales.len() && at.1 == Some(#[trigger] locales[k]) && locale_column_name(
                path,
                locales[k],
            ) == Ok::<Seq<char>, ErrorView>(at.0),
    ensures
        ref_columns_from(path, locales, i, done)->Ok_0.contains(at),
    decreases locales.len() - i,
{
    if i < locales.len() {
        let column = locale_column_name(path, locales[i])->Ok_0;
        let more = done.push((column, Some(locales[i])));
        if done.contains(at) {
            let m = choose|m: int| 0 <= m < done.len() && done[m] == at;
            assert(more[m] == at);
        } else {
            let k = choose|k: int|
                i <= k < locales.len() && at.1 == Some(#[trigger] locales[k])
                    && locale_column_name(path, locales[k]) == Ok::<Seq<char>, ErrorView>(at.0);
            if k == i {
                assert(more.last() == at);
            }
        }
        columns_of_locales(path, locales, i + 1, more, at);
    }
}

proof fn a_leafs_columns(
    leaf: RefLeafView,
    locales: Seq<Seq<char>>,
    column: Seq<char>,
    locale: Option<Seq<char>>,
)
    requires
        keeps_values(leaf, locales, column, locale),
        leaf.columns(locales) is Ok,
    ensures
        leaf.columns(locales)->Ok_0.contains((column, locale)),
{
    match locale {
        None => {
            assert(leaf.columns(locales)->Ok_0[0] == (column, locale));
        },
        Some(code) => {
            let k = choose|k: int| 0 <= k < locales.len() && locales[k] == code;
            columns_of_locales(leaf.path, locales, 0, Seq::empty(), (column, locale));
        },
    }
}

proof fn a_column_is_read(s: SessionView, copy: CopyView)
    requires
        copy_column_step(s, copy).1 is Ok,
    ensures
        ({
            let end = copy_column_step(s, copy).0;
            read_between(
                end,
                s.sent.len() as int,
                end.sent.len() as int,
                copy.table,
                one_column_read(copy.table, copy.column),
            )
        }),
{
    let end = copy_column_step(s, copy).0;
    let at = s.sent.len() as int;
    let scan = copy.scan();
    let (s1, page) = first_page_step(s, scan);
    let sql = one_column_read(copy.table, copy.column);
    a_table_is_looked_for(s, copy.table, Seq::empty());
    first_pages_are_read_so(s.dialect, copy.table, copy.column, copy.column);
    in_copy_pages(s1, copy, page->Ok_0, 0);
    assert(end == copy_pages(s1, copy, page->Ok_0, 0).0);
    assert(s1.sent[at] == asks_for_table(s.dialect, copy.table));
    assert(end.sent[at] == s1.sent[at]);
    if told_there(s, at) {
        assert(s1.sent[at + 1] == (RequestView::QueryAll { sql, params: Seq::empty() }));
        assert(end.sent[at + 1] == s1.sent[at + 1]);
    }
    assert(page_read(end, at, copy.table, sql));
}

proof fn all_columns_are_read(
    s: SessionView,
    table: Seq<char>,
    junction: Seq<char>,
    polymorphic: bool,
    columns: Seq<RefColumn>,
    i: int,
    n: nat,
    k: int,
)
    requires
        0 <= i <= k < columns.len(),
        copy_columns_from(s, table, junction, polymorphic, columns, i, n).1 is Ok,
    ensures
        ({
            let end = copy_columns_from(s, table, junction, polymorphic, columns, i, n).0;
            read_between(
                end,
                s.sent.len() as int,
                end.sent.len() as int,
                table,
                one_column_read(table, columns[k].0),
            )
        }),
    decreases columns.len() - i,
{
    broadcast use {in_copy_columns_from, in_copy_column_step};

    let end = copy_columns_from(s, table, junction, polymorphic, columns, i, n).0;
    let copy = CopyView {
        table,
        junction,
        column: columns[i].0,
        polymorphic,
        locale: columns[i].1,
    };
    let (s1, r1) = copy_column_step(s, copy);
    let m = together(n, r1->Ok_0);
    assert(end == copy_columns_from(s1, table, junction, polymorphic, columns, i + 1, m).0);
    let last = end.sent.len() as int;
    let (b, from, to) = if i == k {
        a_column_is_read(s, copy);
        (s1, s.sent.len() as int, s1.sent.len() as int)
    } else {
        all_columns_are_read(s1, table, junction, polymorphic, columns, i + 1, m, k);
        (end, s1.sent.len() as int, last)
    };
    read_between_wider(
        b,
        end,
        from,
        to,
        s.sent.len() as int,
        last,
        table,
        one_column_read(table, columns[k].0),
    );
}

proof fn filled_as_said(
    dialect: Dialect,
    table: Seq<char>,
    junction: Seq<char>,
    column: Seq<char>,
    polymorphic: bool,
    locale: Option<Seq<char>>,
)
    ensures
        filled_from(dialect, table, junction, column, polymorphic, locale) == (
        RequestView::Execute {
            sql: refill_sql(dialect, table, junction, column, polymorphic, locale is Some),
            params: match locale {
                Some(code) => seq![DbValueView::Text(code)],
                None => Seq::empty(),
            },
        }),
{
    parameters_are_counted_from_one(dialect);
    let value = if polymorphic {
        "j.related_collection || '/' || j.related_id"@
    } else {
        "j.related_id"@
    };
    let head = "UPDATE "@ + quoted(table) + " SET "@ + quoted(column) + " = (SELECT "@ + value
        + " FROM "@ + quoted(junction) + " j WHERE j.parent_id = "@ + quoted(table) + ".id"@;
    let sql = refill_sql(dialect, table, junction, column, polymorphic, locale is Some);
    reveal_strlit("");
    match locale {
        None => {
            assert(head + ""@ =~= head);
        },
        Some(_) => {
            assert(sql =~= head + " AND j._locale = "@ + first_mark(dialect) + ")"@);
        },
    }
}

proof fn all_columns_are_filled(
    s: SessionView,
    table: Seq<char>,
    junction: Seq<char>,
    polymorphic: bool,
    columns: Seq<RefColumn>,
    i: int,
    k: int,
)
    requires
        0 <= i <= k < columns.len(),
        refill_from(s, table, junction, polymorphic, columns, i).1 is Ok,
    ensures
        ({
            let end = refill_from(s, table, junction, polymorphic, columns, i).0;
            between(
                end,
                s.sent.len() as int,
                end.sent.len() as int,
                filled_from(
                    s.dialect,
                    table,
                    junction,
                    columns[k].0,
                    polymorphic,
                    columns[k].1,
                ),
            )
        }),
    decreases columns.len() - i,
{
    broadcast use in_refill_from;

    let end = refill_from(s, table, junction, polymorphic, columns, i).0;
    let here = filled_from(s.dialect, table, junction, columns[i].0, polymorphic, columns[i].1);
    filled_as_said(s.dialect, table, junction, columns[i].0, polymorphic, columns[i].1);
    let s1 = s.asked(here);
    assert(end == refill_from(s1, table, junction, polymorphic, columns, i + 1).0);
    let last = end.sent.len() as int;
    if i == k {
        between_asked(s, end, s.sent.len() as int, last, here);
    } else {
        all_columns_are_filled(s1, table, junction, polymorphic, columns, i + 1, k);
        between_wider(
            end,
            end,
            s1.sent.len() as int,
            last,
            s.sent.len() as int,
            last,
            filled_from(s.dialect, table, junction, columns[k].0, polymorphic, columns[k].1),
        );
    }
}

proof fn held_as_said(junction: Seq<char>, localized: bool)
    ensures
        several_held(junction, localized) == (RequestView::QueryAll {
            sql: multiple_sql(junction, localized),
            params: Seq::empty(),
        }),
{
    let q = quoted(junction);
    let a = "SELECT DISTINCT parent_id FROM (SELECT "@;
    let b = " FROM "@;
    let c = " GROUP BY "@;
    let d = " HAVING COUNT(*) > 1) multi ORDER BY parent_id LIMIT 10"@;
    if localized {
        let g = "parent_id, _locale"@;
        assert(a + g + b =~= "SELECT DISTINCT parent_id FROM (SELECT parent_id, _locale FROM "@) by {
            reveal_strlit("SELECT DISTINCT parent_id FROM (SELECT ");
            reveal_strlit("parent_id, _locale");
            reveal_strlit(" FROM ");
            reveal_strlit("SELECT DISTINCT parent_id FROM (SELECT parent_id, _locale FROM ");
        }
        assert(c + g + d
            =~= " GROUP BY parent_id, _locale HAVING COUNT(*) > 1) multi ORDER BY parent_id LIMIT 10"@)
            by {
            reveal_strlit(" GROUP BY ");
            reveal_strlit("parent_id, _locale");
            reveal_strlit(" HAVING COUNT(*) > 1) multi ORDER BY parent_id LIMIT 10");
            reveal_strlit(
                " GROUP BY parent_id, _locale HAVING COUNT(*) > 1) multi ORDER BY parent_id LIMIT 10",
            );
        }
        assert(multiple_sql(junction, localized) =~= (a + g + b) + q + (c + g + d));
    } else {
        let g = "parent_id"@;
        assert(a + g + b =~= "SELECT DISTINCT parent_id FROM (SELECT parent_id FROM "@) by {
            reveal_strlit("SELECT DISTINCT parent_id FROM (SELECT ");
            reveal_strlit("parent_id");
            reveal_strlit(" FROM ");
            reveal_strlit("SELECT DISTINCT parent_id FROM (SELECT parent_id FROM ");
        }
        assert(c + g + d
            =~= " GROUP BY parent_id HAVING COUNT(*) > 1) multi ORDER BY parent_id LIMIT 10"@) by {
            reveal_strlit(" GROUP BY ");
            reveal_strlit("parent_id");
            reveal_strlit(" HAVING COUNT(*) > 1) multi ORDER BY parent_id LIMIT 10");
            reveal_strlit(
                " GROUP BY parent_id HAVING COUNT(*) > 1) multi ORDER BY parent_id LIMIT 10",
            );
        }
        assert(multiple_sql(junction, localized) =~= (a + g + b) + q + (c + g + d));
    }
}

proof fn a_column_is_moved(
    s: SessionView,
    table: Seq<char>,
    leaf: RefLeafView,
    locales: Seq<Seq<char>>,
    column: Seq<char>,
    locale: Option<Seq<char>>,
)
    requires
        keeps_values(leaf, locales, column, locale),
        carry_between_step(s, table, table + "_"@ + leaf.path, leaf, locales).1 is Ok,
    ensures
        ({
            let end = carry_between_step(s, table, table + "_"@ + leaf.path, leaf, locales).0;
            &&& extends(s, end)
            &&& column_moved(
                end,
                s.sent.len() as int,
                end.sent.len() as int,
                table,
                leaf,
                column,
                locale,
            )
        }),
{
    let junction = table + "_"@ + leaf.path;
    let end = carry_between_step(s, table, junction, leaf, locales).0;
    let at = s.sent.len() as int;
    let last = end.sent.len() as int;
    in_carry_between_step(s, table, junction, leaf, locales);
    columns_are_looked_for(s, table, Seq::empty());
    let asked = asks_for_columns(s.dialect, table);
    let s1 = s.asked(asked);
    assert(s1.sent =~= s.sent + seq![asked]);
    let existing = told_columns(s, at)->Some_0;
    let held = held_columns(leaf.columns(locales)->Ok_0, existing);
    if existing.contains(column) {
        a_leafs_columns(leaf, locales, column, locale);
        held_where_there(leaf.columns(locales)->Ok_0, existing, (column, locale));
        let k = choose|k: int| 0 <= k < held.len() && held[k] == (column, locale);
        if leaf.shape().has_many {
            a_junction_is_filled(s1, table, junction, leaf, held, k);
            in_column_to_junction_step(s1, table, junction, leaf, held);
        } else {
            columns_are_refilled(s1, table, junction, leaf, held, k);
            in_junction_to_column_step(s1, table, junction, leaf, held);
        }
        assert(extends(s1, end));
        assert(end.sent[at] == s1.sent[at]);
    } else {
        assert(s1.sent[at] == asked);
        if held.len() > 0 {
            in_column_to_junction_step(s1, table, junction, leaf, held);
            in_junction_to_column_step(s1, table, junction, leaf, held);
        } else {
            extends_itself(s1);
        }
        assert(extends(s1, end));
        assert(end.sent[at] == s1.sent[at]);
    }
}

proof fn a_junction_is_filled(
    s: SessionView,
    table: Seq<char>,
    junction: Seq<char>,
    leaf: RefLeafView,
    columns: Seq<RefColumn>,
    k: int,
)
    requires
        0 <= k < columns.len(),
        column_to_junction_step(s, table, junction, leaf, columns).1 is Ok,
    ensures
        ({
            let end = column_to_junction_step(s, table, junction, leaf, columns).0;
            let at = s.sent.len() as int;
            &&& at < end.sent.len()
            &&& end.sent[at] == running("DELETE FROM "@ + quoted(junction))
            &&& read_between(
                end,
                at + 1,
                end.sent.len() as int,
                table,
                one_column_read(table, columns[k].0),
            )
        }),
{
    let end = column_to_junction_step(s, table, junction, leaf, columns).0;
    let at = s.sent.len() as int;
    let emptied = running("DELETE FROM "@ + quoted(junction));
    let s1 = s.asked(emptied);
    let polymorphic = leaf.shape().polymorphic;
    let (s2, n) = copy_columns_from(s1, table, junction, polymorphic, columns, 0, 0);
    all_columns_are_read(s1, table, junction, polymorphic, columns, 0, 0, k);
    in_copy_columns_from(s1, table, junction, polymorphic, columns, 0, 0);
    assert(s1.sent[at] == emptied);
    assert(s2.sent[at] == emptied);
    assert(end.sent == s2.sent && end.replies == s2.replies && end.dialect == s2.dialect);
    let sql = one_column_read(table, columns[k].0);
    let m = choose|m: int|
        0 <= at + 1 <= m < s2.sent.len() as int && #[trigger] page_read(s2, m, table, sql);
    assert(page_read(end, m, table, sql));
}

proof fn columns_are_refilled(
    s: SessionView,
    table: Seq<char>,
    junction: Seq<char>,
    leaf: RefLeafView,
    columns: Seq<RefColumn>,
    k: int,
)
    requires
        0 <= k < columns.len(),
        junction_to_column_step(s, table, junction, leaf, columns).1 is Ok,
    ensures
        ({
            let end = junction_to_column_step(s, table, junction, leaf, columns).0;
            let at = s.sent.len() as int;
            &&& at < end.sent.len()
            &&& end.sent[at] == several_held(junction, leaf.localized)
            &&& between(
                end,
                at + 1,
                end.sent.len() as int,
                filled_from(
                    s.dialect,
                    table,
                    junction,
                    columns[k].0,
                    leaf.shape().polymorphic,
                    columns[k].1,
                ),
            )
        }),
{
    let end = junction_to_column_step(s, table, junction, leaf, columns).0;
    let at = s.sent.len() as int;
    held_as_said(junction, leaf.localized);
    let asked = several_held(junction, leaf.localized);
    let s1 = s.asked(asked);
    let polymorphic = leaf.shape().polymorphic;
    let s2 = refill_from(s1, table, junction, polymorphic, columns, 0).0;
    all_columns_are_filled(s1, table, junction, polymorphic, columns, 0, k);
    in_refill_from(s1, table, junction, polymorphic, columns, 0);
    assert(s1.sent[at] == asked);
    assert(s2.sent[at] == asked);
    assert(end.sent == s2.sent);
    let request = filled_from(
        s.dialect,
        table,
        junction,
        columns[k].0,
        polymorphic,
        columns[k].1,
    );
    let m = choose|m: int|
        0 <= at + 1 <= m < s2.sent.len() as int && m < s2.sent.len() && #[trigger] s2.sent[m]
            == request;
    assert(end.sent[m] == request);
}

/// A reference that changed between one and many takes its values along: every column it
/// keeps or kept a value in is moved into or out of its junction. Anything else that
/// changed with it is refused.
pub proof fn a_changed_reference_is_moved(
    s: SessionView,
    table: Seq<char>,
    leaf: RefLeafView,
    before: RefLeafView,
    locales: Seq<Seq<char>>,
    column: Seq<char>,
    locale: Option<Seq<char>>,
)
    requires
        before.shape().has_many != leaf.shape().has_many,
        keeps_values(leaf, locales, column, locale),
    ensures
        ({
            let (end, r) = carry_leaf_step(s, table, leaf, before.shape(), locales);
            &&& r is Ok ==> {
                &&& before.localized == leaf.localized
                &&& before.shape().polymorphic == leaf.shape().polymorphic
                &&& values_moved(
                    end,
                    s.sent.len() as int,
                    end.sent.len() as int,
                    table,
                    leaf,
                    column,
                    locale,
                )
            }
            &&& before.localized != leaf.localized || before.shape().polymorphic
                != leaf.shape().polymorphic ==> end == s && r matches Err(ErrorView::Refused(_))
        }),
{
    let (end, r) = carry_leaf_step(s, table, leaf, before.shape(), locales);
    if r is Ok {
        let junction = table + "_"@ + leaf.path;
        let at = s.sent.len() as int;
        let last = end.sent.len() as int;
        a_table_is_looked_for(s, junction, Seq::empty());
        let asked = asks_for_table(s.dialect, junction);
        let s1 = s.asked(asked);
        assert(s1.sent =~= s.sent + seq![asked]);
        assert(s1.sent[at] == asked);
        if told_there(s, at) {
            a_column_is_moved(s1, table, leaf, locales, column, locale);
            assert(end.sent[at] == s1.sent[at]);
        }
    }
}

proof fn a_listed_reference_is_moved(
    s: SessionView,
    table: Seq<char>,
    refs: Seq<RefLeafView>,
    recorded: Seq<(Seq<char>, Shape)>,
    locales: Seq<Seq<char>>,
    i: int,
    k: int,
    before: RefLeafView,
    column: Seq<char>,
    locale: Option<Seq<char>>,
)
    requires
        0 <= i <= k < refs.len(),
        shape_under(recorded, refs[k].path) == Some(before.shape()),
        before.shape().has_many != refs[k].shape().has_many,
        keeps_values(refs[k], locales, column, locale),
        carry_leaves_from(s, table, refs, recorded, locales, i).1 is Ok,
    ensures
        ({
            let end = carry_leaves_from(s, table, refs, recorded, locales, i).0;
            values_moved(
                end,
                s.sent.len() as int,
                end.sent.len() as int,
                table,
                refs[k],
                column,
                locale,
            )
        }),
    decreases refs.len() - i,
{
    broadcast use {in_carry_leaves_from, in_carry_leaf_step, extends_itself};

    let end = carry_leaves_from(s, table, refs, recorded, locales, i).0;
    let s1 = match shape_under(recorded, refs[i].path) {
        None => s,
        Some(was) => carry_leaf_step(s, table, refs[i], was, locales).0,
    };
    assert(extends(s, s1));
    assert(end == carry_leaves_from(s1, table, refs, recorded, locales, i + 1).0);
    assert(extends(s1, end));
    let last = end.sent.len() as int;
    let (b, from, to) = if i == k {
        a_changed_reference_is_moved(s, table, refs[k], before, locales, column, locale);
        (s1, s.sent.len() as int, s1.sent.len() as int)
    } else {
        a_listed_reference_is_moved(
            s1,
            table,
            refs,
            recorded,
            locales,
            i + 1,
            k,
            before,
            column,
            locale,
        );
        (end, s1.sent.len() as int, last)
    };
    values_moved_wider(
        b,
        end,
        from,
        to,
        s.sent.len() as int,
        last,
        table,
        refs[k],
        column,
        locale,
    );
}

/// Where the record of a table, a collection's or a global's, tells of references that
/// have changed between one and many since, each of them takes its values along.
pub proof fn an_owners_changed_references_are_moved(
    s: SessionView,
    table: Seq<char>,
    fields: Seq<FieldDefinition>,
    config: LocaleConfig,
    row: DbRowView,
    earlier: Seq<RefLeafView>,
    e: int,
    k: int,
    column: Seq<char>,
    locale: Option<Seq<char>>,
)
    requires
        distinct_paths(earlier),
        row.values.len() > 0,
        row.values[0] == DbValueView::Text(shape_record(earlier)),
        answered(s, 0, ReplyView::Row(Some(row))),
        0 <= e < earlier.len(),
        0 <= k < ref_leaves_of(fields, config.enabled()).len(),
        ref_leaves_of(fields, config.enabled())[k].path == earlier[e].path,
        earlier[e].shape().has_many != ref_leaves_of(fields, config.enabled())[k].shape().has_many,
        keeps_values(
            ref_leaves_of(fields, config.enabled())[k],
            config.locales.deep_view(),
            column,
            locale,
        ),
        shape_record(earlier) != shape_record(ref_leaves_of(fields, config.enabled())),
    ensures
        ({
            let (end, r) = carry_owner_step(s, table, fields, config);
            r is Ok ==> values_moved(
                end,
                s.sent.len() as int,
                end.sent.len() as int,
                table,
                ref_leaves_of(fields, config.enabled())[k],
                column,
                locale,
            )
        }),
{
    let (end, r) = carry_owner_step(s, table, fields, config);
    if r is Ok {
        let key = "reference_cardinality:"@ + table;
        let refs = ref_leaves_of(fields, config.enabled());
        let locales = config.locales.deep_view();
        let recorded = read_parts(pieces(shape_record(earlier), ','));
        let (s1, previous) = meta::get_step(s, key);
        what_is_read_is_on_record(s, key);
        a_record_tells_every_shape(earlier, e);
        let s2 = carry_leaves_from(s1, table, refs, recorded, locales, 0).0;
        a_listed_reference_is_moved(
            s1,
            table,
            refs,
            recorded,
            locales,
            0,
            k,
            earlier[e],
            column,
            locale,
        );
        in_meta_upsert_step(s2, key, shape_record(refs));
        values_moved_wider(
            s2,
            end,
            s1.sent.len() as int,
            s2.sent.len() as int,
            s.sent.len() as int,
            end.sent.len() as int,
            table,
            refs[k],
            column,
            locale,
        );
    }
}

/// The statement putting a row of a plain reference into a junction, first.
pub open spec fn row_inserted(dialect: Dialect, junction: Seq<char>) -> Seq<char> {
    "INSERT INTO "@ + quoted(junction) + " (parent_id, related_id, _order) VALUES ("@ + first_mark(
        dialect,
    ) + ", "@ + second_mark(dialect) + ", 0)"@
}

proof fn inserted_as_said(dialect: Dialect, junction: Seq<char>)
    ensures
        insert_row_sql(dialect, junction, false, false) == row_inserted(dialect, junction),
{
    parameters_are_counted_from_one(dialect);
    assert(" ("@ + ("parent_id, related_id"@ + ""@ + ""@) + ", _order) VALUES ("@
        =~= " (parent_id, related_id, _order) VALUES ("@) by {
        reveal_strlit("");
        reveal_strlit(" (");
        reveal_strlit("parent_id, related_id");
        reveal_strlit(", _order) VALUES (");
        reveal_strlit(" (parent_id, related_id, _order) VALUES (");
    }
    reveal_strlit("");
    let head = "INSERT INTO "@ + quoted(junction);
    let columns = " ("@ + ("parent_id, related_id"@ + ""@ + ""@) + ", _order) VALUES ("@;
    let marks = first_mark(dialect) + ", "@ + second_mark(dialect);
    assert(marks + ""@ =~= marks);
    assert(insert_row_sql(dialect, junction, false, false) =~= head + columns + marks + ", 0)"@);
}

/// The rows made from the values of a plain reference: the document and what it refers
/// to, one for each document.
pub open spec fn rows_of(parents: Seq<Seq<char>>, values: Seq<Seq<char>>) -> Seq<
    Seq<DbValueView>,
> {
    Seq::new(
        parents.len(),
        |i: int| seq![DbValueView::Text(parents[i]), DbValueView::Text(values[i])],
    )
}

proof fn carried_as_they_are(
    rows: Seq<DbRowView>,
    parents: Seq<Seq<char>>,
    values: Seq<Seq<char>>,
    table: Seq<char>,
    column: Seq<char>,
)
    requires
        rows.len() == parents.len() == values.len(),
        forall|i: int|
            #![trigger rows[i]]
            0 <= i < rows.len() ==> rows[i].values == seq![
                DbValueView::Text(parents[i]),
                DbValueView::Text(values[i]),
            ] && values[i].len() > 0,
    ensures
        carried(rows, table, column, false, None) == (
            rows_of(parents, values),
            Seq::<Seq<char>>::empty(),
        ),
    decreases rows.len(),
{
    if rows.len() > 0 {
        let n = rows.len() - 1;
        assert(rows[n].values[0] == DbValueView::Text(parents[n]));
        assert(rows[n].values[1] == DbValueView::Text(values[n]));
        carried_as_they_are(
            rows.drop_last(),
            parents.drop_last(),
            values.drop_last(),
            table,
            column,
        );
        assert(rows.last() == rows[n]);
        let row = seq![DbValueView::Text(parents[n]), DbValueView::Text(values[n])];
        assert(row_params(parents[n], values[n], false, None) == Some(row));
        assert(rows_of(parents.drop_last(), values.drop_last()).push(row) =~= rows_of(
            parents,
            values,
        ));
    } else {
        assert(rows_of(parents, values) =~= Seq::empty());
    }
}

/// A reference that was to one document and is to many now has, for each document that
/// held a value, one row of its junction, with that document and that value.
pub proof fn each_value_becomes_a_row(
    s: SessionView,
    table: Seq<char>,
    junction: Seq<char>,
    column: Seq<char>,
    rows: Seq<DbRowView>,
    parents: Seq<Seq<char>>,
    values: Seq<Seq<char>>,
    n: u64,
)
    requires
        s.dialect == Dialect::Sqlite,
        0 < rows.len() < 500,
        rows.len() == parents.len() == values.len(),
        forall|i: int|
            #![trigger rows[i]]
            0 <= i < rows.len() ==> rows[i].values == seq![
                DbValueView::Text(parents[i]),
                DbValueView::Text(values[i]),
            ] && values[i].len() > 0,
        answered(s, 0, ReplyView::Flag(true)),
        answered(s, 1, ReplyView::Rows(rows)),
        answered(s, 2, ReplyView::Count(n)),
    ensures
        ({
            let copy = CopyView { table, junction, column, polymorphic: false, locale: None };
            let (end, r) = copy_column_step(s, copy);
            &&& r == Ok::<nat, ErrorView>(rows.len())
            &&& end.sent == s.sent.push(RequestView::TableExists { table }).push(
                RequestView::QueryAll {
                    sql: one_column_read(table, column),
                    params: Seq::empty(),
                },
            ).push(
                RequestView::ExecuteMany {
                    sql: row_inserted(s.dialect, junction),
                    rows: rows_of(parents, values),
                },
            )
            &&& end.warnings == s.warnings
        }),
{
    let copy = CopyView { table, junction, column, polymorphic: false, locale: None };
    carried_as_they_are(rows, parents, values, table, column);
    inserted_as_said(s.dialect, junction);
    first_pages_are_read_so(s.dialect, table, column, column);
    reveal_with_fuel(copy_pages, 2);
    assert(rows_of(parents, values).len() == rows.len());
    assert(s.warnings + Seq::<Seq<char>>::empty() =~= s.warnings);
}

/// The row made from a stored reference: the document, what it refers to, where that has
/// several kinds its kind, and the locale where there is one. A value that is empty, or
/// without the kind it has to name, is no reference.
pub proof fn rows_hold_what_was_stored(
    parent: Seq<char>,
    value: Seq<char>,
    kind: Seq<char>,
    id: Seq<char>,
    locale: Seq<char>,
)
    ensures
        value.len() > 0 ==> row_params(parent, value, false, None) == Some(
            seq![DbValueView::Text(parent), DbValueView::Text(value)],
        ),
        value.len() > 0 ==> row_params(parent, value, false, Some(locale)) == Some(
            seq![
                DbValueView::Text(parent),
                DbValueView::Text(value),
                DbValueView::Text(locale),
            ],
        ),
        kind.len() > 0 && id.len() > 0 && !kind.contains('/') ==> {
            let stored = kind + "/"@ + id;
            &&& row_params(parent, stored, true, None) == Some(
                seq![
                    DbValueView::Text(parent),
                    DbValueView::Text(id),
                    DbValueView::Text(kind),
                ],
            )
            &&& row_params(parent, stored, true, Some(locale)) == Some(
                seq![
                    DbValueView::Text(parent),
                    DbValueView::Text(id),
                    DbValueView::Text(kind),
                    DbValueView::Text(locale),
                ],
            )
        },
        row_params(parent, Seq::empty(), false, None) is None,
        row_params(parent, Seq::empty(), true, None) is None,
        !value.contains('/') ==> row_params(parent, value, true, None) is None,
{
    if value.len() > 0 {
        assert(seq![DbValueView::Text(parent), DbValueView::Text(value)].push(
            DbValueView::Text(locale),
        ) =~= seq![DbValueView::Text(parent), DbValueView::Text(value), DbValueView::Text(locale)]);
    }
    if kind.len() > 0 && id.len() > 0 && !kind.contains('/') {
        reveal_strlit("/");
        let stored = kind + "/"@ + id;
        assert("/"@ =~= seq!['/']);
        find_separator(kind, '/', id);
        assert(stored =~= kind + seq!['/'] + id);
        assert(stored.take(kind.len() as int) =~= kind);
        assert(stored.skip(kind.len() as int + 1) =~= id);
        assert(seq![
            DbValueView::Text(parent),
            DbValueView::Text(id),
            DbValueView::Text(kind),
        ].push(DbValueView::Text(locale)) =~= seq![
            DbValueView::Text(parent),
            DbValueView::Text(id),
            DbValueView::Text(kind),
            DbValueView::Text(locale),
        ]);
    }
    if !value.contains('/') {
        never_found(value, '/', 0);
    }
}

proof fn never_found(s: Seq<char>, c: char, from: int)
    requires
        !s.contains(c),
    ensures
        find_from(s, c, from) is None,
    decreases s.len() - from,
{
    if 0 <= from < s.len() {
        assert(s[from] != c);
        never_found(s, c, from + 1);
    }
}

/// The statement that puts rows into a junction names a column for each of their values,
/// in the same order.
pub proof fn rows_are_inserted_by_column(dialect: Dialect, junction: Seq<char>)
    ensures
        insert_row_sql(dialect, junction, false, false) == row_inserted(dialect, junction),
        insert_row_sql(dialect, junction, true, false) == "INSERT INTO "@ + quoted(junction)
            + " ("@ + ("parent_id, related_id"@ + ", related_collection"@ + ""@)
            + ", _order) VALUES ("@ + (first_mark(dialect) + ", "@ + second_mark(dialect) + (", "@
            + third_mark(dialect))) + ", 0)"@,
        insert_row_sql(dialect, junction, false, true) == "INSERT INTO "@ + quoted(junction)
            + " ("@ + ("parent_id, related_id"@ + ""@ + ", _locale"@) + ", _order) VALUES ("@ + (
        first_mark(dialect) + ", "@ + second_mark(dialect) + (", "@ + third_mark(dialect)))
            + ", 0)"@,
        insert_row_sql(dialect, junction, true, true) == "INSERT INTO "@ + quoted(junction)
            + " ("@ + ("parent_id, related_id"@ + ", related_collection"@ + ", _locale"@)
            + ", _order) VALUES ("@ + (first_mark(dialect) + ", "@ + second_mark(dialect) + (", "@
            + third_mark(dialect) + ", "@ + fourth_mark(dialect))) + ", 0)"@,
{
    inserted_as_said(dialect, junction);
    parameters_are_counted_from_one(dialect);
    later_parameters(dialect);
}

/// What stands for the third parameter of a statement.
pub open spec fn third_mark(dialect: Dialect) -> Seq<char> {
    match dialect {
        Dialect::Sqlite => "?3"@,
        Dialect::Postgres => "$3"@,
    }
}

/// What stands for the fourth parameter of a statement.
pub open spec fn fourth_mark(dialect: Dialect) -> Seq<char> {
    match dialect {
        Dialect::Sqlite => "?4"@,
        Dialect::Postgres => "$4"@,
    }
}

proof fn later_parameters(dialect: Dialect)
    ensures
        placeholder_text(dialect, 3) == third_mark(dialect),
        placeholder_text(dialect, 4) == fourth_mark(dialect),
{
    reveal_strlit("?");
    reveal_strlit("$");
    reveal_strlit("?3");
    reveal_strlit("$3");
    reveal_strlit("?4");
    reveal_strlit("$4");
    reveal_with_fuel(decimal, 2);
    assert(placeholder_text(dialect, 3) =~= third_mark(dialect));
    assert(placeholder_text(dialect, 4) =~= fourth_mark(dialect));
}

/// A reference that is another than recorded: what was recorded, and which of it; the
/// reference now; and a column that keeps its values, with the locale they are of.
pub ghost struct ChangeView {
    pub earlier: Seq<RefLeafView>,
    pub was: int,
    pub now: int,
    pub column: Seq<char>,
    pub locale: Option<Seq<char>>,
}

impl ChangeView {
    /// Whether a reference of a definition changed so between one and many.
    pub open spec fn of(self, fields: Seq<FieldDefinition>, config: LocaleConfig) -> bool {
        let refs = ref_leaves_of(fields, config.enabled());
        &&& distinct_paths(self.earlier)
        &&& 0 <= self.was < self.earlier.len()
        &&& 0 <= self.now < refs.len()
        &&& refs[self.now].path == self.earlier[self.was].path
        &&& self.earlier[self.was].shape().has_many != refs[self.now].shape().has_many
        &&& shape_record(self.earlier) != shape_record(refs)
        &&& keeps_values(refs[self.now], config.locales.deep_view(), self.column, self.locale)
    }
}

/// Whether the record of a table was read there and, where it tells of the reference as it
/// was, the reference's values were moved.
pub open spec fn change_carried(
    s: SessionView,
    i: int,
    j: int,
    table: Seq<char>,
    fields: Seq<FieldDefinition>,
    config: LocaleConfig,
    change: ChangeView,
) -> bool {
    exists|k: int|
        0 <= i <= k < j && k < s.sent.len() && #[trigger] s.sent[k] == record_read(
            s.dialect,
            "reference_cardinality:"@ + table,
        ) && (read_as(s, k, shape_record(change.earlier)) ==> values_moved(
            s,
            k,
            j,
            table,
            ref_leaves_of(fields, config.enabled())[change.now],
            change.column,
            change.locale,
        ))
}

proof fn change_carried_wider(
    b: SessionView,
    d: SessionView,
    i: int,
    j: int,
    k: int,
    l: int,
    table: Seq<char>,
    fields: Seq<FieldDefinition>,
    config: LocaleConfig,
    change: ChangeView,
)
    requires
        extends(b, d),
        change_carried(b, i, j, table, fields, config, change),
        0 <= k <= i,
        j <= l,
    ensures
        change_carried(d, k, l, table, fields, config, change),
{
    let leaf = ref_leaves_of(fields, config.enabled())[change.now];
    let at = choose|at: int|
        0 <= i <= at < j && at < b.sent.len() && #[trigger] b.sent[at] == record_read(
            b.dialect,
            "reference_cardinality:"@ + table,
        ) && (read_as(b, at, shape_record(change.earlier)) ==> values_moved(
            b,
            at,
            j,
            table,
            leaf,
            change.column,
            change.locale,
        ));
    assert(d.sent[at] == b.sent[at]);
    if read_as(b, at, shape_record(change.earlier)) {
        values_moved_wider(b, d, at, j, at, l, table, leaf, change.column, change.locale);
    }
}

proof fn an_owners_change_is_carried(
    s: SessionView,
    table: Seq<char>,
    fields: Seq<FieldDefinition>,
    config: LocaleConfig,
    change: ChangeView,
)
    requires
        change.of(fields, config),
        carry_owner_step(s, table, fields, config).1 is Ok,
    ensures
        ({
            let end = carry_owner_step(s, table, fields, config).0;
            change_carried(
                end,
                s.sent.len() as int,
                end.sent.len() as int,
                table,
                fields,
                config,
                change,
            )
        }),
{
    let end = carry_owner_step(s, table, fields, config).0;
    let at = s.sent.len() as int;
    an_owners_references_are_kept(s, table, fields, config);
    in_carry_owner_step(s, table, fields, config);
    if read_as(end, at, shape_record(change.earlier)) {
        let row = s.replies[at]->Row_0->Some_0;
        an_owners_changed_references_are_moved(
            s,
            table,
            fields,
            config,
            row,
            change.earlier,
            change.was,
            change.now,
            change.column,
            change.locale,
        );
    }
}

proof fn collections_changes_are_carried(
    s: SessionView,
    collections: Seq<CollectionDefinition>,
    config: LocaleConfig,
    i: int,
    k: int,
    change: ChangeView,
)
    requires
        0 <= i <= k < collections.len(),
        change.of(collections[k].fields@, config),
        carry_collections_from(s, collections, config, i).1 is Ok,
    ensures
        ({
            let end = carry_collections_from(s, collections, config, i).0;
            change_carried(
                end,
                s.sent.len() as int,
                end.sent.len() as int,
                collections[k].slug@,
                collections[k].fields@,
                config,
                change,
            )
        }),
    decreases collections.len() - i,
{
    let end = carry_collections_from(s, collections, config, i).0;
    let s1 = carry_owner_step(s, collections[i].slug@, collections[i].fields@, config).0;
    in_carry_owner_step(s, collections[i].slug@, collections[i].fields@, config);
    in_carry_collections_from(s1, collections, config, i + 1);
    extends_itself(end);
    let last = end.sent.len() as int;
    let (b, from, to) = if i == k {
        an_owners_change_is_carried(
            s,
            collections[k].slug@,
            collections[k].fields@,
            config,
            change,
        );
        (s1, s.sent.len() as int, s1.sent.len() as int)
    } else {
        collections_changes_are_carried(s1, collections, config, i + 1, k, change);
        (end, s1.sent.len() as int, last)
    };
    change_carried_wider(
        b,
        end,
        from,
        to,
        s.sent.len() as int,
        last,
        collections[k].slug@,
        collections[k].fields@,
        config,
        change,
    );
}

proof fn globals_changes_are_carried(
    s: SessionView,
    globals: Seq<GlobalDefinition>,
    config: LocaleConfig,
    i: int,
    k: int,
    change: ChangeView,
)
    requires
        0 <= i <= k < globals.len(),
        change.of(globals[k].fields@, config),
        carry_globals_from(s, globals, config, i).1 is Ok,
    ensures
        ({
            let end = carry_globals_from(s, globals, config, i).0;
            change_carried(
                end,
                s.sent.len() as int,
                end.sent.len() as int,
                "_global_"@ + globals[k].slug@,
                globals[k].fields@,
                config,
                change,
            )
        }),
    decreases globals.len() - i,
{
    let end = carry_globals_from(s, globals, config, i).0;
    let table = "_global_"@ + globals[i].slug@;
    let s1 = carry_owner_step(s, table, globals[i].fields@, config).0;
    in_carry_owner_step(s, table, globals[i].fields@, config);
    in_carry_globals_from(s1, globals, config, i + 1);
    extends_itself(end);
    let last = end.sent.len() as int;
    let (b, from, to) = if i == k {
        an_owners_change_is_carried(s, table, globals[k].fields@, config, change);
        (s1, s.sent.len() as int, s1.sent.len() as int)
    } else {
        globals_changes_are_carried(s1, globals, config, i + 1, k, change);
        (end, s1.sent.len() as int, last)
    };
    change_carried_wider(
        b,
        end,
        from,
        to,
        s.sent.len() as int,
        last,
        "_global_"@ + globals[k].slug@,
        globals[k].fields@,
        config,
        change,
    );
}

/// Wherever a reference changed between one and many since it was recorded, in a
/// collection or in a global, its values are moved to where they are read from now.
pub proof fn every_changed_reference_is_moved(
    s: SessionView,
    registry: Registry,
    config: LocaleConfig,
    d: int,
    change: ChangeView,
)
    requires
        carry_step(s, registry, config).1 is Ok,
    ensures
        ({
            let end = carry_step(s, registry, config).0;
            let (i, j) = (s.sent.len() as int, end.sent.len() as int);
            &&& 0 <= d < registry.collections@.len() && change.of(
                registry.collections@[d].fields@,
                config,
            ) ==> change_carried(
                end,
                i,
                j,
                registry.collections@[d].slug@,
                registry.collections@[d].fields@,
                config,
                change,
            )
            &&& 0 <= d < registry.globals@.len() && change.of(
                registry.globals@[d].fields@,
                config,
            ) ==> change_carried(
                end,
                i,
                j,
                "_global_"@ + registry.globals@[d].slug@,
                registry.globals@[d].fields@,
                config,
                change,
            )
        }),
{
    let end = carry_step(s, registry, config).0;
    let collections = registry.collections@;
    let globals = registry.globals@;
    let s1 = carry_collections_from(s, collections, config, 0).0;
    in_carry_collections_from(s, collections, config, 0);
    in_carry_globals_from(s1, globals, config, 0);
    extends_itself(end);
    let (i, j) = (s.sent.len() as int, end.sent.len() as int);
    if 0 <= d < collections.len() && change.of(collections[d].fields@, config) {
        collections_changes_are_carried(s, collections, config, 0, d, change);
        change_carried_wider(
            s1,
            end,
            i,
            s1.sent.len() as int,
            i,
            j,
            collections[d].slug@,
            collections[d].fields@,
            config,
            change,
        );
    }
    if 0 <= d < globals.len() && change.of(globals[d].fields@, config) {
        globals_changes_are_carried(s1, globals, config, 0, d, change);
        change_carried_wider(
            end,
            end,
            s1.sent.len() as int,
            j,
            i,
            j,
            "_global_"@ + globals[d].slug@,
            globals[d].fields@,
            config,
            change,
        );
    }
}

/// Values are carried page by page until a page is not full: behind a full one the next
/// is read, from its last id on.
pub proof fn pages_are_carried_to_the_end(
    s: SessionView,
    copy: CopyView,
    page: PageView,
    n: nat,
    id: Seq<char>,
)
    requires
        copy_page_step(s, copy, page.rows).1 is Ok,
    ensures
        ({
            let (s1, more) = copy_page_step(s, copy, page.rows);
            let asked = RequestView::QueryAll {
                sql: one_column_read_on(s1.dialect, copy.table, copy.column),
                params: seq![DbValueView::Text(id)],
            };
            let (end, r) = copy_pages(s, copy, page, n);
            &&& page.next is None ==> end == s1 && r is Ok
            &&& page.next == Some(id) ==> s1.sent.len() < end.sent.len() && end.sent[
                s1.sent.len() as int
            ] == asked
        }),
{
    let (s1, more) = copy_page_step(s, copy, page.rows);
    if page.next == Some(id) {
        later_pages_are_read_so(s1, copy.table, copy.column, id, Seq::empty());
        let (s2, next) = page_step(s1, copy.scan(), Some(id));
        assert(s2.sent[s1.sent.len() as int] == s2.sent.last());
        if next is Ok {
            in_copy_pages(s2, copy, next->Ok_0, together(n, more->Ok_0));
            let end = copy_pages(s, copy, page, n).0;
            assert(end.sent[s1.sent.len() as int] == s2.sent[s1.sent.len() as int]);
        }
    }
}

} // verus!
