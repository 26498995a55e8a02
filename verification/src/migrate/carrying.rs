//! What carrying references between a column and its junction comes to: the values go
//! into the rows, and come back out of them as they were.
use crate::migrate::helpers::paged::{
    PAGE_SIZE, PageView, first_page_step, next_after, page_at, page_step,
};
use crate::migrate::reference_cardinality::{
    CopyView, RefColumn, RefLeafView, carried, column_to_junction_step, copy_column_step,
    copy_columns_from, copy_page_step, copy_pages, insert_columns, insert_placeholders,
    insert_row_sql, junction_to_column_step, multiple_sql, poly_parts, refill_from, refill_sql,
    refuse_multiple_step, row_params,
};
use crate::migrate::transaction::{
    in_copy_column_step, in_copy_columns_from, in_copy_page_step, in_copy_pages, in_first_page_step,
    in_page_step, in_refill_from, inside,
};
use crate::names::quoted;
use crate::session::{
    Dialect, RequestView, SessionView, Step, ask_count, execute_step, query_all_step, within,
};
use crate::text::find_from;
use crate::value::{DbRowView, DbValueView, ErrorView, texts_in_column, together};
use vstd::prelude::*;

verus! {

/// One row of a junction, its order left out.
#[verifier::ext_equal]
pub ghost struct JunctionRow {
    pub parent: Seq<char>,
    pub related: Seq<char>,
    pub collection: Option<Seq<char>>,
    pub locale: Option<Seq<char>>,
}

/// The text of a parameter.
pub open spec fn param_text(params: Seq<DbValueView>, i: int) -> Seq<char> {
    params[i]->Text_0
}

/// The row that the parameters of an insert stand for.
pub open spec fn row_meant(
    params: Seq<DbValueView>,
    polymorphic: bool,
    localized: bool,
) -> JunctionRow {
    JunctionRow {
        parent: param_text(params, 0),
        related: param_text(params, 1),
        collection: if polymorphic {
            Some(param_text(params, 2))
        } else {
            None
        },
        locale: if localized {
            Some(param_text(params, params.len() - 1))
        } else {
            None
        },
    }
}

/// The rows that lists of parameters stand for.
pub open spec fn rows_meant(
    params: Seq<Seq<DbValueView>>,
    polymorphic: bool,
    localized: bool,
) -> Seq<JunctionRow> {
    Seq::new(params.len(), |i: int| row_meant(params[i], polymorphic, localized))
}

/// The statement emptying a junction.
pub open spec fn clear_sql(junction: Seq<char>) -> Seq<char> {
    "DELETE FROM "@ + quoted(junction)
}

/// What a junction that held `rows` holds after a request.
pub open spec fn rows_after_one(
    dialect: Dialect,
    junction: Seq<char>,
    polymorphic: bool,
    rows: Seq<JunctionRow>,
    request: RequestView,
) -> Seq<JunctionRow> {
    match request {
        RequestView::Execute { sql, .. } => if sql == clear_sql(junction) {
            Seq::empty()
        } else {
            rows
        },
        RequestView::ExecuteMany { sql, rows: added } => if sql == insert_row_sql(
            dialect,
            junction,
            polymorphic,
            true,
        ) {
            rows + rows_meant(added, polymorphic, true)
        } else if sql == insert_row_sql(dialect, junction, polymorphic, false) {
            rows + rows_meant(added, polymorphic, false)
        } else {
            rows
        },
        _ => rows,
    }
}

/// What a junction that held `rows` holds after the requests from the `i`-th on.
pub open spec fn rows_after(
    dialect: Dialect,
    junction: Seq<char>,
    polymorphic: bool,
    rows: Seq<JunctionRow>,
    sent: Seq<RequestView>,
    i: int,
) -> Seq<JunctionRow>
    decreases sent.len() - i,
{
    if i < 0 || i >= sent.len() {
        rows
    } else {
        rows_after(
            dialect,
            junction,
            polymorphic,
            rows_after_one(dialect, junction, polymorphic, rows, sent[i]),
            sent,
            i + 1,
        )
    }
}

/// The value that a document's column is set to from a junction: that of its row in the
/// locale, or nothing.
pub open spec fn refilled(
    rows: Seq<JunctionRow>,
    polymorphic: bool,
    parent: Seq<char>,
    locale: Option<Seq<char>>,
) -> Option<Seq<char>>
    decreases rows.len(),
{
    if rows.len() == 0 {
        None
    } else {
        let row = rows.last();
        if row.parent == parent && (locale is Some ==> row.locale == locale) {
            Some(
                if polymorphic {
                    row.collection->Some_0 + "/"@ + row.related
                } else {
                    row.related
                },
            )
        } else {
            refilled(rows.drop_last(), polymorphic, parent, locale)
        }
    }
}

/// Whether a stored value is a reference: an id, or a collection and an id.
pub open spec fn is_reference(value: Seq<char>, polymorphic: bool) -> bool {
    value.len() > 0 && (polymorphic ==> poly_parts(value) is Some)
}

/// The rows that the values of a column are carried into.
pub open spec fn rows_of_column(
    stored: Seq<DbRowView>,
    table: Seq<char>,
    column: RefColumn,
    polymorphic: bool,
) -> Seq<JunctionRow> {
    rows_meant(
        carried(stored, table, column.0, polymorphic, column.1).0,
        polymorphic,
        column.1 is Some,
    )
}

/// The rows that the values of the first `n` columns are carried into.
pub open spec fn rows_of_columns(
    stored: Seq<Seq<DbRowView>>,
    table: Seq<char>,
    columns: Seq<RefColumn>,
    polymorphic: bool,
    n: int,
) -> Seq<JunctionRow>
    decreases n,
{
    if n <= 0 || n > columns.len() || n > stored.len() {
        Seq::empty()
    } else {
        rows_of_columns(stored, table, columns, polymorphic, n - 1) + rows_of_column(
            stored[n - 1],
            table,
            columns[n - 1],
            polymorphic,
        )
    }
}

/// The page of a column's values that starts at the `k`-th.
pub open spec fn stored_page(all: Seq<DbRowView>, k: int) -> PageView {
    PageView { rows: page_at(all, k), next: next_after(page_at(all, k)) }
}

/// Whether a walk over a column's values, at the `k`-th, is answered with them.
pub open spec fn answers_walk(s: SessionView, copy: CopyView, all: Seq<DbRowView>, k: int) -> bool
    decreases all.len() - k,
{
    let (s1, r) = copy_page_step(s, copy, page_at(all, k));
    &&& 0 <= k <= all.len()
    &&& r is Ok
    &&& match next_after(page_at(all, k)) {
        None => true,
        Some(after) => {
            let (s2, page) = page_step(s1, copy.scan(), Some(after));
            &&& k + PAGE_SIZE <= all.len()
            &&& page == Ok::<PageView, ErrorView>(stored_page(all, k + PAGE_SIZE))
            &&& answers_walk(s2, copy, all, k + PAGE_SIZE)
        },
    }
}

/// Whether the copying of a column's values is answered with them.
pub open spec fn answers_copy(s: SessionView, copy: CopyView, all: Seq<DbRowView>) -> bool {
    let (s1, page) = first_page_step(s, copy.scan());
    page == Ok::<PageView, ErrorView>(stored_page(all, 0)) && answers_walk(s1, copy, all, 0)
}

/// The copying of one column.
pub open spec fn copy_of(
    table: Seq<char>,
    junction: Seq<char>,
    polymorphic: bool,
    column: RefColumn,
) -> CopyView {
    CopyView { table, junction, column: column.0, polymorphic, locale: column.1 }
}

/// Whether the copying of the columns from the `i`-th on is answered with their values.
pub open spec fn answers_copies(
    s: SessionView,
    table: Seq<char>,
    junction: Seq<char>,
    polymorphic: bool,
    columns: Seq<RefColumn>,
    stored: Seq<Seq<DbRowView>>,
    i: int,
) -> bool
    decreases columns.len() - i,
{
    if i < 0 || i >= columns.len() {
        true
    } else {
        let copy = copy_of(table, junction, polymorphic, columns[i]);
        answers_copy(s, copy, stored[i]) && answers_copies(
            copy_column_step(s, copy).0,
            table,
            junction,
            polymorphic,
            columns,
            stored,
            i + 1,
        )
    }
}

proof fn rows_after_in_parts(
    dialect: Dialect,
    junction: Seq<char>,
    polymorphic: bool,
    rows: Seq<JunctionRow>,
    first: Seq<RequestView>,
    sent: Seq<RequestView>,
    i: int,
)
    requires
        0 <= i <= first.len(),
        first.is_prefix_of(sent),
    ensures
        rows_after(dialect, junction, polymorphic, rows, sent, i) == rows_after(
            dialect,
            junction,
            polymorphic,
            rows_after(dialect, junction, polymorphic, rows, first, i),
            sent,
            first.len() as int,
        ),
    decreases first.len() - i,
{
    if i < first.len() {
        assert(first[i] == sent[i]);
        rows_after_in_parts(
            dialect,
            junction,
            polymorphic,
            rows_after_one(dialect, junction, polymorphic, rows, sent[i]),
            first,
            sent,
            i + 1,
        );
    }
}

proof fn inserts_differ(dialect: Dialect, junction: Seq<char>, polymorphic: bool)
    ensures
        insert_row_sql(dialect, junction, polymorphic, true) != insert_row_sql(
            dialect,
            junction,
            polymorphic,
            false,
        ),
{
    reveal_strlit(", _locale");
    reveal_strlit(", ");
    reveal_strlit("");
    assert(insert_columns(polymorphic, true).len() == insert_columns(polymorphic, false).len() + 9);
    assert(insert_placeholders(dialect, polymorphic, true).len() >= insert_placeholders(
        dialect,
        polymorphic,
        false,
    ).len());
    assert(insert_row_sql(dialect, junction, polymorphic, true).len() > insert_row_sql(
        dialect,
        junction,
        polymorphic,
        false,
    ).len());
}

proof fn carried_in_parts(
    a: Seq<DbRowView>,
    b: Seq<DbRowView>,
    table: Seq<char>,
    column: Seq<char>,
    polymorphic: bool,
    locale: Option<Seq<char>>,
)
    ensures
        carried(a + b, table, column, polymorphic, locale).0 == carried(
            a,
            table,
            column,
            polymorphic,
            locale,
        ).0 + carried(b, table, column, polymorphic, locale).0,
    decreases b.len(),
{
    let before = carried(a, table, column, polymorphic, locale).0;
    if b.len() > 0 {
        carried_in_parts(a, b.drop_last(), table, column, polymorphic, locale);
        assert((a + b).drop_last() =~= a + b.drop_last());
        let rest = carried(b.drop_last(), table, column, polymorphic, locale).0;
        if let (Some(parent), Some(value)) = (b.last().text_at(0), b.last().text_at(1)) {
            if let Some(row) = row_params(parent, value, polymorphic, locale) {
                assert((before + rest).push(row) =~= before + rest.push(row));
            }
        }
    } else {
        assert(a + b =~= a);
        assert(before + Seq::empty() =~= before);
    }
}

proof fn a_page_is_inserted(
    s: SessionView,
    copy: CopyView,
    page: Seq<DbRowView>,
    rows: Seq<JunctionRow>,
)
    requires
        copy_page_step(s, copy, page).1 is Ok,
    ensures
        rows_after(
            s.dialect,
            copy.junction,
            copy.polymorphic,
            rows,
            copy_page_step(s, copy, page).0.sent,
            s.sent.len() as int,
        ) == rows + rows_meant(
            carried(page, copy.table, copy.column, copy.polymorphic, copy.locale).0,
            copy.polymorphic,
            copy.locale is Some,
        ),
{
    inserts_differ(s.dialect, copy.junction, copy.polymorphic);
    reveal_with_fuel(rows_after, 3);
    let params = carried(page, copy.table, copy.column, copy.polymorphic, copy.locale).0;
    let meant = rows_meant(params, copy.polymorphic, copy.locale is Some);
    let s1 = copy_page_step(s, copy, page).0;
    if params.len() == 0 {
        assert(rows + meant =~= rows);
    } else {
        assert(s1.sent[s.sent.len() as int] == (RequestView::ExecuteMany {
            sql: insert_row_sql(
                s.dialect,
                copy.junction,
                copy.polymorphic,
                copy.locale is Some,
            ),
            rows: params,
        }));
    }
}

proof fn a_reading_changes_no_row(
    dialect: Dialect,
    junction: Seq<char>,
    polymorphic: bool,
    rows: Seq<JunctionRow>,
    sent: Seq<RequestView>,
    i: int,
)
    requires
        0 <= i,
        forall|j: int|
            i <= j < sent.len() ==> !((#[trigger] sent[j]) is Execute) && !(sent[j] is ExecuteMany),
    ensures
        rows_after(dialect, junction, polymorphic, rows, sent, i) == rows,
    decreases sent.len() - i,
{
    if i < sent.len() {
        assert(rows_after_one(dialect, junction, polymorphic, rows, sent[i]) == rows);
        a_reading_changes_no_row(dialect, junction, polymorphic, rows, sent, i + 1);
    }
}

proof fn a_walk_inserts_all(
    s: SessionView,
    copy: CopyView,
    all: Seq<DbRowView>,
    k: int,
    n: nat,
    rows: Seq<JunctionRow>,
)
    requires
        answers_walk(s, copy, all, k),
        forall|i: int| 0 <= i < all.len() ==> (#[trigger] all[i]).text_at(0) is Some,
    ensures
        copy_pages(s, copy, stored_page(all, k), n).1 is Ok,
        rows_after(
            s.dialect,
            copy.junction,
            copy.polymorphic,
            rows,
            copy_pages(s, copy, stored_page(all, k), n).0.sent,
            s.sent.len() as int,
        ) == rows + rows_meant(
            carried(all.skip(k), copy.table, copy.column, copy.polymorphic, copy.locale).0,
            copy.polymorphic,
            copy.locale is Some,
        ),
    decreases all.len() - k,
{
    broadcast use {in_copy_page_step, in_page_step, in_copy_pages};

    let page = page_at(all, k);
    let (s1, r) = copy_page_step(s, copy, page);
    let more = r->Ok_0;
    a_page_is_inserted(s, copy, page, rows);
    let here = rows + rows_meant(
        carried(page, copy.table, copy.column, copy.polymorphic, copy.locale).0,
        copy.polymorphic,
        copy.locale is Some,
    );
    match next_after(page) {
        None => {
            if k + PAGE_SIZE <= all.len() {
                assert(page.last() == all[k + PAGE_SIZE - 1]);
            }
            assert(page =~= all.skip(k));
        },
        Some(after) => {
            let (s2, _next) = page_step(s1, copy.scan(), Some(after));
            let last = copy_pages(
                s2,
                copy,
                stored_page(all, k + PAGE_SIZE),
                together(n, more),
            ).0;
            assert(inside(s, s1) && inside(s1, s2) && inside(s2, last));
            a_reading_changes_no_row(
                s.dialect,
                copy.junction,
                copy.polymorphic,
                here,
                s2.sent,
                s1.sent.len() as int,
            );
            rows_after_in_parts(
                s.dialect,
                copy.junction,
                copy.polymorphic,
                rows,
                s1.sent,
                s2.sent,
                s.sent.len() as int,
            );
            rows_after_in_parts(
                s.dialect,
                copy.junction,
                copy.polymorphic,
                rows,
                s2.sent,
                last.sent,
                s.sent.len() as int,
            );
            a_walk_inserts_all(s2, copy, all, k + PAGE_SIZE, together(n, more), here);
            assert(page =~= all.subrange(k, k + PAGE_SIZE));
            let rest = all.skip(k + PAGE_SIZE);
            assert(page + rest =~= all.skip(k));
            carried_in_parts(
                page,
                rest,
                copy.table,
                copy.column,
                copy.polymorphic,
                copy.locale,
            );
            let a = carried(page, copy.table, copy.column, copy.polymorphic, copy.locale).0;
            let b = carried(rest, copy.table, copy.column, copy.polymorphic, copy.locale).0;
            let localized = copy.locale is Some;
            assert(rows_meant(a + b, copy.polymorphic, localized) =~= rows_meant(
                a,
                copy.polymorphic,
                localized,
            ) + rows_meant(b, copy.polymorphic, localized));
            assert(here + rows_meant(b, copy.polymorphic, localized) =~= rows + (rows_meant(
                a,
                copy.polymorphic,
                localized,
            ) + rows_meant(b, copy.polymorphic, localized)));
        },
    }
}

proof fn a_column_is_inserted(
    s: SessionView,
    copy: CopyView,
    all: Seq<DbRowView>,
    rows: Seq<JunctionRow>,
)
    requires
        answers_copy(s, copy, all),
        forall|i: int| 0 <= i < all.len() ==> (#[trigger] all[i]).text_at(0) is Some,
    ensures
        copy_column_step(s, copy).1 is Ok,
        rows_after(
            s.dialect,
            copy.junction,
            copy.polymorphic,
            rows,
            copy_column_step(s, copy).0.sent,
            s.sent.len() as int,
        ) == rows + rows_meant(
            carried(all, copy.table, copy.column, copy.polymorphic, copy.locale).0,
            copy.polymorphic,
            copy.locale is Some,
        ),
{
    broadcast use {in_first_page_step, in_copy_pages};

    let s1 = first_page_step(s, copy.scan()).0;
    let last = copy_column_step(s, copy).0;
    assert(inside(s, s1) && inside(s1, last));
    a_reading_changes_no_row(
        s.dialect,
        copy.junction,
        copy.polymorphic,
        rows,
        s1.sent,
        s.sent.len() as int,
    );
    rows_after_in_parts(
        s.dialect,
        copy.junction,
        copy.polymorphic,
        rows,
        s1.sent,
        last.sent,
        s.sent.len() as int,
    );
    a_walk_inserts_all(s1, copy, all, 0, 0, rows);
    assert(all.skip(0) =~= all);
}

/// Where emptying a junction leaves a session.
pub open spec fn cleared(s: SessionView, junction: Seq<char>) -> Step<u64> {
    within(
        execute_step(s, clear_sql(junction), Seq::empty()),
        "Failed to clear '"@ + junction + "'"@,
    )
}

/// Whether every row of some columns' values has an id, as every row of a table does.
pub open spec fn all_have_ids(stored: Seq<Seq<DbRowView>>) -> bool {
    forall|i: int, j: int|
        0 <= i < stored.len() && 0 <= j < stored[i].len() ==> (#[trigger] stored[i][j]).text_at(
            0,
        ) is Some
}

proof fn columns_are_inserted(
    s: SessionView,
    table: Seq<char>,
    junction: Seq<char>,
    polymorphic: bool,
    columns: Seq<RefColumn>,
    stored: Seq<Seq<DbRowView>>,
    i: int,
    n: nat,
)
    requires
        0 <= i <= columns.len(),
        stored.len() == columns.len(),
        all_have_ids(stored),
        answers_copies(s, table, junction, polymorphic, columns, stored, i),
    ensures
        copy_columns_from(s, table, junction, polymorphic, columns, i, n).1 is Ok,
        rows_after(
            s.dialect,
            junction,
            polymorphic,
            rows_of_columns(stored, table, columns, polymorphic, i),
            copy_columns_from(s, table, junction, polymorphic, columns, i, n).0.sent,
            s.sent.len() as int,
        ) == rows_of_columns(stored, table, columns, polymorphic, columns.len() as int),
    decreases columns.len() - i,
{
    broadcast use {in_copy_column_step, in_copy_columns_from};

    if i < columns.len() {
        let copy = copy_of(table, junction, polymorphic, columns[i]);
        let here = rows_of_columns(stored, table, columns, polymorphic, i);
        assert forall|j: int| 0 <= j < stored[i].len() implies (#[trigger] stored[i][j]).text_at(
            0,
        ) is Some by {}
        a_column_is_inserted(s, copy, stored[i], here);
        let s1 = copy_column_step(s, copy).0;
        let m = together(n, copy_column_step(s, copy).1->Ok_0);
        let last = copy_columns_from(s1, table, junction, polymorphic, columns, i + 1, m).0;
        assert(inside(s, s1) && inside(s1, last));
        rows_after_in_parts(
            s.dialect,
            junction,
            polymorphic,
            here,
            s1.sent,
            last.sent,
            s.sent.len() as int,
        );
        columns_are_inserted(s1, table, junction, polymorphic, columns, stored, i + 1, m);
    }
}

/// Carrying a reference's columns into its junction leaves the junction with one row per
/// document and locale that had a reference, made of it, and with nothing it held before.
pub proof fn a_junction_holds_what_was_carried(
    s: SessionView,
    table: Seq<char>,
    junction: Seq<char>,
    leaf: RefLeafView,
    columns: Seq<RefColumn>,
    stored: Seq<Seq<DbRowView>>,
    rows: Seq<JunctionRow>,
)
    requires
        stored.len() == columns.len(),
        all_have_ids(stored),
        cleared(s, junction).1 is Ok,
        answers_copies(
            cleared(s, junction).0,
            table,
            junction,
            leaf.shape().polymorphic,
            columns,
            stored,
            0,
        ),
    ensures
        column_to_junction_step(s, table, junction, leaf, columns).1 is Ok,
        rows_after(
            s.dialect,
            junction,
            leaf.shape().polymorphic,
            rows,
            column_to_junction_step(s, table, junction, leaf, columns).0.sent,
            s.sent.len() as int,
        ) == rows_of_columns(
            stored,
            table,
            columns,
            leaf.shape().polymorphic,
            columns.len() as int,
        ),
{
    broadcast use in_copy_columns_from;

    let polymorphic = leaf.shape().polymorphic;
    let s1 = cleared(s, junction).0;
    let last = copy_columns_from(s1, table, junction, polymorphic, columns, 0, 0).0;
    assert(inside(s1, last));
    assert(s1.sent[s.sent.len() as int] == last.sent[s.sent.len() as int]);
    assert(rows_after_one(
        s.dialect,
        junction,
        polymorphic,
        rows,
        last.sent[s.sent.len() as int],
    ) =~= Seq::empty());
    columns_are_inserted(s1, table, junction, polymorphic, columns, stored, 0, 0);
}

proof fn found_is_there(s: Seq<char>, c: char, from: int)
    requires
        0 <= from,
    ensures
        find_from(s, c, from) matches Some(i) ==> from <= i < s.len() && s[i] == c,
    decreases s.len() - from,
{
    if from < s.len() && s[from] != c {
        found_is_there(s, c, from + 1);
    }
}

proof fn a_reference_is_put_together(value: Seq<char>)
    requires
        poly_parts(value) is Some,
    ensures
        poly_parts(value)->Some_0.0 + "/"@ + poly_parts(value)->Some_0.1 == value,
{
    reveal_strlit("/");
    found_is_there(value, '/', 0);
    let i = find_from(value, '/', 0)->Some_0;
    assert(value.take(i) + "/"@ + value.skip(i + 1) =~= value);
}

proof fn a_row_keeps_its_value(
    parent: Seq<char>,
    value: Seq<char>,
    polymorphic: bool,
    locale: Option<Seq<char>>,
)
    ensures
        row_params(parent, value, polymorphic, locale) is Some <==> is_reference(
            value,
            polymorphic,
        ),
        row_params(parent, value, polymorphic, locale) matches Some(params) ==> {
            let row = row_meant(params, polymorphic, locale is Some);
            &&& row.parent == parent
            &&& row.locale == locale
            &&& polymorphic ==> row.collection is Some && row.collection->Some_0 + "/"@
                + row.related == value
            &&& !polymorphic ==> row.related == value
        },
{
    if polymorphic && poly_parts(value) is Some {
        a_reference_is_put_together(value);
    }
}

proof fn refilled_in_parts(
    a: Seq<JunctionRow>,
    b: Seq<JunctionRow>,
    polymorphic: bool,
    parent: Seq<char>,
    locale: Option<Seq<char>>,
)
    ensures
        refilled(a + b, polymorphic, parent, locale) == (match refilled(
            b,
            polymorphic,
            parent,
            locale,
        ) {
            Some(value) => Some(value),
            None => refilled(a, polymorphic, parent, locale),
        }),
    decreases b.len(),
{
    if b.len() > 0 {
        assert((a + b).drop_last() =~= a + b.drop_last());
        refilled_in_parts(a, b.drop_last(), polymorphic, parent, locale);
    } else {
        assert(a + b =~= a);
    }
}

/// The value a column has for a document: that of its row, where it has one that is a
/// reference.
pub open spec fn stored_reference(
    stored: Seq<DbRowView>,
    parent: Seq<char>,
    polymorphic: bool,
) -> Option<Seq<char>>
    decreases stored.len(),
{
    if stored.len() == 0 {
        None
    } else {
        match (stored.last().text_at(0), stored.last().text_at(1)) {
            (Some(id), Some(value)) => if id == parent && is_reference(value, polymorphic) {
                Some(value)
            } else {
                stored_reference(stored.drop_last(), parent, polymorphic)
            },
            _ => stored_reference(stored.drop_last(), parent, polymorphic),
        }
    }
}

proof fn a_column_comes_back(
    stored: Seq<DbRowView>,
    table: Seq<char>,
    column: RefColumn,
    polymorphic: bool,
    parent: Seq<char>,
    locale: Option<Seq<char>>,
)
    ensures
        locale == column.1 ==> refilled(
            rows_of_column(stored, table, column, polymorphic),
            polymorphic,
            parent,
            locale,
        ) == stored_reference(stored, parent, polymorphic),
        locale is Some && locale != column.1 ==> refilled(
            rows_of_column(stored, table, column, polymorphic),
            polymorphic,
            parent,
            locale,
        ) is None,
    decreases stored.len(),
{
    if stored.len() > 0 {
        a_column_comes_back(stored.drop_last(), table, column, polymorphic, parent, locale);
        let before = rows_of_column(stored.drop_last(), table, column, polymorphic);
        let all = rows_of_column(stored, table, column, polymorphic);
        if let (Some(id), Some(value)) = (stored.last().text_at(0), stored.last().text_at(1)) {
            a_row_keeps_its_value(id, value, polymorphic, column.1);
            if let Some(params) = row_params(id, value, polymorphic, column.1) {
                let row = row_meant(params, polymorphic, column.1 is Some);
                assert(all =~= before.push(row));
                assert(all.drop_last() =~= before);
            } else {
                assert(all =~= before);
            }
        } else {
            assert(all =~= before);
        }
    }
}

/// Whether the rows made from the columns can be told apart: there is one column, or each
/// has a locale of its own.
pub open spec fn locales_differ(columns: Seq<RefColumn>) -> bool {
    columns.len() <= 1 || forall|i: int, j: int|
        0 <= i < columns.len() && 0 <= j < columns.len() && i != j ==> (#[trigger] columns[i]).1
            is Some && columns[i].1 != (#[trigger] columns[j]).1
}

proof fn columns_come_back(
    stored: Seq<Seq<DbRowView>>,
    table: Seq<char>,
    columns: Seq<RefColumn>,
    polymorphic: bool,
    parent: Seq<char>,
    k: int,
    n: int,
)
    requires
        stored.len() == columns.len(),
        locales_differ(columns),
        0 <= k < columns.len(),
        0 <= n <= columns.len(),
    ensures
        refilled(
            rows_of_columns(stored, table, columns, polymorphic, n),
            polymorphic,
            parent,
            columns[k].1,
        ) == (if k < n {
            stored_reference(stored[k], parent, polymorphic)
        } else {
            None
        }),
    decreases n,
{
    if n > 0 {
        columns_come_back(stored, table, columns, polymorphic, parent, k, n - 1);
        let before = rows_of_columns(stored, table, columns, polymorphic, n - 1);
        let own = rows_of_column(stored[n - 1], table, columns[n - 1], polymorphic);
        a_column_comes_back(
            stored[n - 1],
            table,
            columns[n - 1],
            polymorphic,
            parent,
            columns[k].1,
        );
        refilled_in_parts(before, own, polymorphic, parent, columns[k].1);
        if n - 1 != k {
            assert(columns[k].1 is Some && columns[k].1 != columns[n - 1].1);
        }
    }
}

proof fn refilling_is_not_clearing(
    dialect: Dialect,
    table: Seq<char>,
    junction: Seq<char>,
    column: Seq<char>,
    polymorphic: bool,
    localized: bool,
)
    ensures
        refill_sql(dialect, table, junction, column, polymorphic, localized) != clear_sql(
            junction,
        ),
{
    reveal_strlit("UPDATE ");
    reveal_strlit("DELETE FROM ");
    assert(refill_sql(dialect, table, junction, column, polymorphic, localized)[0] == 'U');
    assert(clear_sql(junction)[0] == 'D');
}

proof fn refilling_keeps_the_rows(
    s: SessionView,
    table: Seq<char>,
    junction: Seq<char>,
    polymorphic: bool,
    columns: Seq<RefColumn>,
    i: int,
    rows: Seq<JunctionRow>,
)
    requires
        0 <= i,
    ensures
        rows_after(
            s.dialect,
            junction,
            polymorphic,
            rows,
            refill_from(s, table, junction, polymorphic, columns, i).0.sent,
            s.sent.len() as int,
        ) == rows,
    decreases columns.len() - i,
{
    broadcast use in_refill_from;

    if i < columns.len() {
        let (locale, column) = (columns[i].1, columns[i].0);
        let s1 = s.asked(
            RequestView::Execute {
                sql: refill_sql(
                    s.dialect,
                    table,
                    junction,
                    column,
                    polymorphic,
                    locale is Some,
                ),
                params: match locale {
                    Some(locale) => seq![DbValueView::Text(locale)],
                    None => Seq::empty(),
                },
            },
        );
        refilling_is_not_clearing(
            s.dialect,
            table,
            junction,
            column,
            polymorphic,
            locale is Some,
        );
        let last = refill_from(s, table, junction, polymorphic, columns, i).0;
        assert(last == s1 || last == refill_from(
            s1,
            table,
            junction,
            polymorphic,
            columns,
            i + 1,
        ).0);
        refilling_keeps_the_rows(s1, table, junction, polymorphic, columns, i + 1, rows);
        assert(last == s1 || inside(s1, last));
        assert(last.sent[s.sent.len() as int] == s1.sent[s.sent.len() as int]);
        reveal_with_fuel(rows_after, 2);
    }
}

/// A junction's rows stay where its values are carried into the columns.
pub proof fn carrying_back_keeps_the_rows(
    s: SessionView,
    table: Seq<char>,
    junction: Seq<char>,
    leaf: RefLeafView,
    columns: Seq<RefColumn>,
    rows: Seq<JunctionRow>,
)
    ensures
        rows_after(
            s.dialect,
            junction,
            leaf.shape().polymorphic,
            rows,
            junction_to_column_step(s, table, junction, leaf, columns).0.sent,
            s.sent.len() as int,
        ) == rows,
{
    broadcast use in_refill_from;

    let polymorphic = leaf.shape().polymorphic;
    let (s1, r) = refuse_multiple_step(s, table, junction, leaf);
    let last = junction_to_column_step(s, table, junction, leaf, columns).0;
    if r is Ok {
        refilling_keeps_the_rows(s1, table, junction, polymorphic, columns, 0, rows);
        let filled = refill_from(s1, table, junction, polymorphic, columns, 0).0;
        assert(inside(s1, filled));
        assert(last.sent == filled.sent);
        assert(last.sent[s.sent.len() as int] == s1.sent[s.sent.len() as int]);
    }
    reveal_with_fuel(rows_after, 2);
}

/// Whether a junction holds two rows of a document, in one locale where they are kept per
/// locale.
pub open spec fn holds_several(rows: Seq<JunctionRow>, localized: bool, parent: Seq<char>) -> bool {
    exists|i: int, j: int|
        0 <= i < j < rows.len() && same_place(#[trigger] rows[i], #[trigger] rows[j], localized)
            && rows[i].parent == parent
}

/// Whether two rows are of one document, and of one locale where they are kept per locale.
pub open spec fn same_place(a: JunctionRow, b: JunctionRow, localized: bool) -> bool {
    a.parent == b.parent && (localized ==> a.locale == b.locale)
}

/// The request setting one column from a junction.
pub open spec fn refill_request(
    dialect: Dialect,
    table: Seq<char>,
    junction: Seq<char>,
    polymorphic: bool,
    column: RefColumn,
) -> RequestView {
    RequestView::Execute {
        sql: refill_sql(dialect, table, junction, column.0, polymorphic, column.1 is Some),
        params: match column.1 {
            Some(locale) => seq![DbValueView::Text(locale)],
            None => Seq::empty(),
        },
    }
}

/// Whether the columns from the `i`-th on are set without a failure.
pub open spec fn answers_refills(
    s: SessionView,
    table: Seq<char>,
    junction: Seq<char>,
    polymorphic: bool,
    columns: Seq<RefColumn>,
    i: int,
) -> bool
    decreases columns.len() - i,
{
    if i < 0 || i >= columns.len() {
        true
    } else {
        let request = refill_request(s.dialect, table, junction, polymorphic, columns[i]);
        ask_count(s, request).1 is Ok && answers_refills(
            s.asked(request),
            table,
            junction,
            polymorphic,
            columns,
            i + 1,
        )
    }
}

/// Whether a database whose junction holds `rows` answers the way back: the documents it
/// lists as having several values have several rows, and nothing fails.
pub open spec fn answers_back(
    s: SessionView,
    table: Seq<char>,
    junction: Seq<char>,
    leaf: RefLeafView,
    columns: Seq<RefColumn>,
    rows: Seq<JunctionRow>,
) -> bool {
    let (s1, listed) = query_all_step(s, multiple_sql(junction, leaf.localized), Seq::empty());
    &&& listed is Ok
    &&& forall|i: int|
        0 <= i < texts_in_column(listed->Ok_0, 0).len() ==> holds_several(
            rows,
            leaf.localized,
            #[trigger] texts_in_column(listed->Ok_0, 0)[i],
        )
    &&& answers_refills(s1, table, junction, leaf.shape().polymorphic, columns, 0)
}

/// Whether no two rows of a column's values have one id.
pub open spec fn ids_differ(stored: Seq<DbRowView>) -> bool {
    forall|i: int, j: int|
        0 <= i < j < stored.len() ==> (#[trigger] stored[i]).text_at(0) != (
        #[trigger] stored[j]).text_at(0)
}

/// Whether no two rows are of one document, and of one locale where they are kept per
/// locale.
pub open spec fn places_differ(rows: Seq<JunctionRow>, localized: bool) -> bool {
    forall|i: int, j: int|
        0 <= i < j < rows.len() ==> !same_place(#[trigger] rows[i], #[trigger] rows[j], localized)
}

proof fn a_columns_places_differ(
    stored: Seq<DbRowView>,
    table: Seq<char>,
    column: RefColumn,
    polymorphic: bool,
    localized: bool,
)
    requires
        ids_differ(stored),
    ensures
        places_differ(rows_of_column(stored, table, column, polymorphic), localized),
        forall|k: int|
            0 <= k < rows_of_column(stored, table, column, polymorphic).len() ==> {
                let row = #[trigger] rows_of_column(stored, table, column, polymorphic)[k];
                &&& row.locale == column.1
                &&& exists|j: int|
                    0 <= j < stored.len() && (#[trigger] stored[j]).text_at(0) == Some(row.parent)
            },
    decreases stored.len(),
{
    let all = rows_of_column(stored, table, column, polymorphic);
    if stored.len() > 0 {
        let front = stored.drop_last();
        assert forall|i: int, j: int| 0 <= i < j < front.len() implies (#[trigger] front[i]).text_at(
            0,
        ) != (#[trigger] front[j]).text_at(0) by {
            assert(front[i] == stored[i] && front[j] == stored[j]);
        }
        a_columns_places_differ(front, table, column, polymorphic, localized);
        let before = rows_of_column(front, table, column, polymorphic);
        let last = stored.len() - 1;
        assert forall|k: int| 0 <= k < before.len() implies exists|j: int|
            0 <= j < last && (#[trigger] stored[j]).text_at(0) == Some(
                (#[trigger] before[k]).parent,
            ) by {
            let j = choose|j: int|
                0 <= j < front.len() && (#[trigger] front[j]).text_at(0) == Some(before[k].parent);
            assert(stored[j] == front[j]);
        }
        let carries = match (stored.last().text_at(0), stored.last().text_at(1)) {
            (Some(id), Some(value)) => row_params(id, value, polymorphic, column.1) is Some,
            _ => false,
        };
        if carries {
            let id = stored.last().text_at(0)->Some_0;
            let value = stored.last().text_at(1)->Some_0;
            a_row_keeps_its_value(id, value, polymorphic, column.1);
            let params = row_params(id, value, polymorphic, column.1)->Some_0;
            let row = row_meant(params, polymorphic, column.1 is Some);
            assert(all =~= before.push(row));
            assert forall|i: int, j: int| 0 <= i < j < all.len() implies !same_place(
                #[trigger] all[i],
                #[trigger] all[j],
                localized,
            ) by {
                assert(all[i] == before[i]);
                if j < before.len() {
                    assert(all[j] == before[j]);
                } else {
                    let m = choose|m: int|
                        0 <= m < last && (#[trigger] stored[m]).text_at(0) == Some(
                            before[i].parent,
                        );
                    assert(stored[m].text_at(0) != stored[last].text_at(0));
                }
            }
            assert forall|k: int| 0 <= k < all.len() implies {
                let row = #[trigger] all[k];
                &&& row.locale == column.1
                &&& exists|j: int|
                    0 <= j < stored.len() && (#[trigger] stored[j]).text_at(0) == Some(row.parent)
            } by {
                if k < before.len() {
                    assert(all[k] == before[k]);
                    let m = choose|m: int|
                        0 <= m < last && (#[trigger] stored[m]).text_at(0) == Some(
                            before[k].parent,
                        );
                    assert(stored[m].text_at(0) == Some(all[k].parent));
                } else {
                    assert(stored[last].text_at(0) == Some(all[k].parent));
                }
            }
        } else {
            assert(all =~= before);
            assert forall|k: int| 0 <= k < all.len() implies {
                let row = #[trigger] all[k];
                &&& row.locale == column.1
                &&& exists|j: int|
                    0 <= j < stored.len() && (#[trigger] stored[j]).text_at(0) == Some(row.parent)
            } by {
                assert(all[k] == before[k]);
                let m = choose|m: int|
                    0 <= m < last && (#[trigger] stored[m]).text_at(0) == Some(before[k].parent);
                assert(stored[m].text_at(0) == Some(all[k].parent));
            }
        }
    }
}

proof fn carried_places_differ(
    stored: Seq<Seq<DbRowView>>,
    table: Seq<char>,
    columns: Seq<RefColumn>,
    polymorphic: bool,
    localized: bool,
    n: int,
)
    requires
        stored.len() == columns.len(),
        0 <= n <= columns.len(),
        locales_differ(columns),
        !localized ==> columns.len() <= 1,
        forall|i: int| 0 <= i < stored.len() ==> ids_differ(#[trigger] stored[i]),
    ensures
        places_differ(rows_of_columns(stored, table, columns, polymorphic, n), localized),
        forall|k: int|
            0 <= k < rows_of_columns(stored, table, columns, polymorphic, n).len() ==> {
                let row = #[trigger] rows_of_columns(stored, table, columns, polymorphic, n)[k];
                exists|c: int| 0 <= c < n && (#[trigger] columns[c]).1 == row.locale
            },
    decreases n,
{
    if n > 0 {
        carried_places_differ(stored, table, columns, polymorphic, localized, n - 1);
        assert(ids_differ(stored[n - 1]));
        a_columns_places_differ(
            stored[n - 1],
            table,
            columns[n - 1],
            polymorphic,
            localized,
        );
        let before = rows_of_columns(stored, table, columns, polymorphic, n - 1);
        let own = rows_of_column(stored[n - 1], table, columns[n - 1], polymorphic);
        let all = rows_of_columns(stored, table, columns, polymorphic, n);
        assert(all == before + own);
        assert forall|k: int| 0 <= k < all.len() implies {
            let row = #[trigger] all[k];
            exists|c: int| 0 <= c < n && (#[trigger] columns[c]).1 == row.locale
        } by {
            if k < before.len() {
                assert(all[k] == before[k]);
                let c = choose|c: int|
                    0 <= c < n - 1 && (#[trigger] columns[c]).1 == before[k].locale;
                assert(columns[c].1 == all[k].locale);
            } else {
                assert(all[k] == own[k - before.len()]);
                assert(columns[n - 1].1 == all[k].locale);
            }
        }
        assert forall|i: int, j: int| 0 <= i < j < all.len() implies !same_place(
            #[trigger] all[i],
            #[trigger] all[j],
            localized,
        ) by {
            if j < before.len() {
                assert(all[i] == before[i] && all[j] == before[j]);
            } else if i >= before.len() {
                assert(all[i] == own[i - before.len()] && all[j] == own[j - before.len()]);
            } else {
                assert(all[i] == before[i] && all[j] == own[j - before.len()]);
                let c = choose|c: int|
                    0 <= c < n - 1 && (#[trigger] columns[c]).1 == before[i].locale;
                assert(columns[c].1 != columns[n - 1].1);
            }
        }
    }
}

proof fn every_column_is_set(
    s: SessionView,
    table: Seq<char>,
    junction: Seq<char>,
    polymorphic: bool,
    columns: Seq<RefColumn>,
    i: int,
    k: int,
)
    requires
        0 <= i <= columns.len(),
        answers_refills(s, table, junction, polymorphic, columns, i),
    ensures
        refill_from(s, table, junction, polymorphic, columns, i).1 is Ok,
        i <= k < columns.len() ==> refill_from(
            s,
            table,
            junction,
            polymorphic,
            columns,
            i,
        ).0.sent.contains(
            refill_request(s.dialect, table, junction, polymorphic, columns[k]),
        ),
    decreases columns.len() - i,
{
    broadcast use in_refill_from;

    if i < columns.len() {
        let request = refill_request(s.dialect, table, junction, polymorphic, columns[i]);
        let s1 = s.asked(request);
        let last = refill_from(s, table, junction, polymorphic, columns, i).0;
        assert(last == refill_from(s1, table, junction, polymorphic, columns, i + 1).0);
        every_column_is_set(s1, table, junction, polymorphic, columns, i + 1, k);
        assert(inside(s1, last));
        assert(last.sent[s.sent.len() as int] == s1.sent[s.sent.len() as int]);
    }
}

/// Carrying a reference's columns into its junction and back gives the values again: over
/// a database that holds what it was asked to store, both ways succeed. After them each
/// column of each document has been set, in its own locale, to the value it had where
/// that was a reference, and to nothing where it was not; and the rows are still there.
pub proof fn references_come_back(
    s: SessionView,
    table: Seq<char>,
    junction: Seq<char>,
    leaf: RefLeafView,
    columns: Seq<RefColumn>,
    stored: Seq<Seq<DbRowView>>,
    rows: Seq<JunctionRow>,
    parent: Seq<char>,
    k: int,
)
    requires
        stored.len() == columns.len(),
        all_have_ids(stored),
        forall|i: int| 0 <= i < stored.len() ==> ids_differ(#[trigger] stored[i]),
        locales_differ(columns),
        !leaf.localized ==> columns.len() <= 1,
        0 <= k < columns.len(),
        cleared(s, junction).1 is Ok,
        answers_copies(
            cleared(s, junction).0,
            table,
            junction,
            leaf.shape().polymorphic,
            columns,
            stored,
            0,
        ),
        ({
            let there = column_to_junction_step(s, table, junction, leaf, columns).0;
            let held = rows_after(
                s.dialect,
                junction,
                leaf.shape().polymorphic,
                rows,
                there.sent,
                s.sent.len() as int,
            );
            answers_back(there, table, junction, leaf, columns, held)
        }),
    ensures
        ({
            let polymorphic = leaf.shape().polymorphic;
            let (there, r) = column_to_junction_step(s, table, junction, leaf, columns);
            let (back, r_back) = junction_to_column_step(there, table, junction, leaf, columns);
            let held = rows_after(
                s.dialect,
                junction,
                polymorphic,
                rows,
                there.sent,
                s.sent.len() as int,
            );
            &&& r is Ok
            &&& r_back is Ok
            &&& back.sent.contains(
                refill_request(s.dialect, table, junction, polymorphic, columns[k]),
            )
            &&& refilled(held, polymorphic, parent, columns[k].1) == stored_reference(
                stored[k],
                parent,
                polymorphic,
            )
            &&& rows_after(
                s.dialect,
                junction,
                polymorphic,
                held,
                back.sent,
                there.sent.len() as int,
            ) == held
        }),
{
    broadcast use in_copy_columns_from;

    let polymorphic = leaf.shape().polymorphic;
    let n = columns.len() as int;
    a_junction_holds_what_was_carried(s, table, junction, leaf, columns, stored, rows);
    columns_come_back(stored, table, columns, polymorphic, parent, k, n);
    let there = column_to_junction_step(s, table, junction, leaf, columns).0;
    let s1 = cleared(s, junction).0;
    assert(inside(s1, copy_columns_from(s1, table, junction, polymorphic, columns, 0, 0).0));
    let held = rows_of_columns(stored, table, columns, polymorphic, n);
    carrying_back_keeps_the_rows(there, table, junction, leaf, columns, held);
    carried_places_differ(stored, table, columns, polymorphic, leaf.localized, n);
    let (s2, listed) = query_all_step(
        there,
        multiple_sql(junction, leaf.localized),
        Seq::empty(),
    );
    let ids = texts_in_column(listed->Ok_0, 0);
    if ids.len() > 0 {
        assert(holds_several(held, leaf.localized, ids[0]));
    }
    every_column_is_set(s2, table, junction, polymorphic, columns, 0, k);
}

} // verus!
