//! Bringing the columns of an existing table to what a definition asks for.
use crate::names::{quote_ident, quoted};
use crate::order::{
    contains_pushed, is_sorted, sort_texts, sorted, sorted_holds_the_same, sorted_is_sorted,
};
use crate::session::{Dialect, Session, SessionView, Step, ddl_step, within};
use crate::text::{
    cat4, cat5, cat9, contains, equal_ignoring_case, push_item, same, same_ignoring_case,
    starts_with,
};
use crate::value::{DbError, ErrorView, add_context, out};
use vstd::prelude::*;

verus! {

/// The type listed for the first column called `name`, from the `i`-th on.
pub open spec fn type_from(types: Seq<(Seq<char>, Seq<char>)>, name: Seq<char>, i: int) -> Option<
    Seq<char>,
>
    decreases types.len() - i,
{
    if i < 0 || i >= types.len() {
        None
    } else if types[i].0 == name {
        Some(types[i].1)
    } else {
        type_from(types, name, i + 1)
    }
}

/// The type listed for the column called `name`.
pub open spec fn type_of(types: Seq<(Seq<char>, Seq<char>)>, name: Seq<char>) -> Option<Seq<char>> {
    type_from(types, name, 0)
}

/// The type listed for the column called `name`.
pub fn find_type(types: &Vec<(String, String)>, name: &str) -> (r: Option<String>)
    ensures
        r.deep_view() == type_of(types.deep_view(), name@),
{
    let mut i: usize = 0;
    while i < types.len()
        invariant
            i <= types.len(),
            type_of(types.deep_view(), name@) == type_from(types.deep_view(), name@, i as int),
        decreases types.len() - i,
    {
        assert(types.deep_view()[i as int] == types@[i as int].deep_view());
        if same(types[i].0.as_str(), name) {
            return Some(types[i].1.clone());
        }
        i += 1;
    }
    None
}

/// Makes the column of a list of plain values text where it is not, which only
/// Postgres needs: there, JSON text does not go into a column of numbers.
pub open spec fn reconcile_scalar_list_step(
    s: SessionView,
    table: Seq<char>,
    col_name: Seq<char>,
    types: Seq<(Seq<char>, Seq<char>)>,
) -> Step<()> {
    let already_text = match type_of(types, col_name) {
        None => true,
        Some(t) => equal_ignoring_case(t, "TEXT"@),
    };
    if already_text || s.dialect != Dialect::Postgres {
        (s, Ok(()))
    } else {
        within(
            ddl_step(
                s.noted(
                    "Reconciling scalar has-many column "@ + table + "."@ + col_name + " to TEXT"@,
                ),
                "ALTER TABLE "@ + quoted(table) + " ALTER COLUMN "@ + quoted(col_name)
                    + " TYPE TEXT USING "@ + quoted(col_name) + "::text"@,
            ),
            "Failed to reconcile "@ + col_name + " to TEXT on "@ + table,
        )
    }
}

/// Makes the column of a list of plain values text where it is not.
pub fn reconcile_scalar_list_column(
    conn: &mut Session,
    table: &str,
    col_name: &str,
    column_types: &Vec<(String, String)>,
) -> (r: Result<(), DbError>)
    ensures
        (final(conn)@, out(r)) == reconcile_scalar_list_step(
            old(conn)@,
            table@,
            col_name@,
            column_types.deep_view(),
        ),
{
    let already_text = match find_type(column_types, col_name) {
        None => true,
        Some(t) => same_ignoring_case(t.as_str(), "TEXT"),
    };
    if already_text || !conn.is_postgres() {
        return Ok(());
    }
    let column = quote_ident(col_name);
    let quoted_table = quote_ident(table);
    let head = cat4("ALTER TABLE ", quoted_table.as_str(), " ALTER COLUMN ", column.as_str());
    conn.note(cat5("Reconciling scalar has-many column ", table, ".", col_name, " to TEXT"));
    let altered = conn.execute_ddl(
        cat4(head.as_str(), " TYPE TEXT USING ", column.as_str(), "::text"),
    );
    add_context(
        altered,
        cat4("Failed to reconcile ", col_name, " to TEXT on ", table).as_str(),
    )
}

/// Adds a column unless the table has it.
pub open spec fn add_column_step(
    s: SessionView,
    table: Seq<char>,
    col_name: Seq<char>,
    col_def: Seq<char>,
    existing: Seq<Seq<char>>,
) -> Step<()> {
    if existing.contains(col_name) {
        (s, Ok(()))
    } else {
        within(
            ddl_step(
                s.noted("Adding column to "@ + table + ": "@ + col_name),
                "ALTER TABLE "@ + quoted(table) + " ADD COLUMN "@ + col_def,
            ),
            "Failed to add column "@ + col_name + " to "@ + table,
        )
    }
}

/// Adds a column unless the table has it. `col_def` is its whole definition,
/// the quoted name included. Every pass that adds a column to a stored table
/// does so here.
pub fn add_column_if_missing(
    conn: &mut Session,
    table: &str,
    col_name: &str,
    col_def: &str,
    existing: &Vec<String>,
) -> (r: Result<(), DbError>)
    ensures
        (final(conn)@, out(r)) == add_column_step(
            old(conn)@,
            table@,
            col_name@,
            col_def@,
            existing.deep_view(),
        ),
{
    if contains(existing, col_name) {
        return Ok(());
    }
    let quoted_table = quote_ident(table);
    conn.note(cat4("Adding column to ", table, ": ", col_name));
    let added = conn.execute_ddl(
        cat4("ALTER TABLE ", quoted_table.as_str(), " ADD COLUMN ", col_def),
    );
    add_context(added, cat4("Failed to add column ", col_name, " to ", table).as_str())
}

/// Whether a column is one every table has, whatever its definition says.
pub open spec fn system_column(col: Seq<char>) -> bool {
    "_"@.is_prefix_of(col) || col == "id"@ || col == "created_at"@ || col == "updated_at"@
}

pub fn is_system_column(col: &str) -> (r: bool)
    ensures
        r == system_column(col@),
{
    starts_with(col, "_") || same(col, "id") || same(col, "created_at") || same(col, "updated_at")
}

/// The columns of a table that no field accounts for.
pub open spec fn unaccounted(existing: Seq<Seq<char>>, expected: Seq<Seq<char>>) -> Seq<Seq<char>>
    decreases existing.len(),
{
    if existing.len() == 0 {
        Seq::empty()
    } else {
        let before = unaccounted(existing.drop_last(), expected);
        if expected.contains(existing.last()) || system_column(existing.last()) {
            before
        } else {
            before.push(existing.last())
        }
    }
}

/// What the operator is told of a column no field accounts for.
pub open spec fn orphan_column_warning(table: Seq<char>, col: Seq<char>) -> Seq<char> {
    "Column '"@ + col + "' exists in table '"@ + table
        + "' but not in Lua definition (not removed)"@
}

/// The session after a warning for each of the columns from the `i`-th on.
pub open spec fn warned_of_columns(
    s: SessionView,
    table: Seq<char>,
    columns: Seq<Seq<char>>,
    i: int,
) -> SessionView
    decreases columns.len() - i,
{
    if i < 0 || i >= columns.len() {
        s
    } else {
        warned_of_columns(s.warned(orphan_column_warning(table, columns[i])), table, columns, i + 1)
    }
}

fn find_unaccounted(existing: &Vec<String>, expected: &Vec<String>) -> (r: Vec<String>)
    ensures
        r.deep_view() == unaccounted(existing.deep_view(), expected.deep_view()),
{
    let mut found: Vec<String> = Vec::new();
    let ghost all = existing.deep_view();
    let mut i: usize = 0;
    assert(all.take(0) =~= Seq::<Seq<char>>::empty());
    assert(found.deep_view() =~= Seq::<Seq<char>>::empty());
    while i < existing.len()
        invariant
            i <= existing.len(),
            all == existing.deep_view(),
            found.deep_view() == unaccounted(all.take(i as int), expected.deep_view()),
        decreases existing.len() - i,
    {
        assert(all.take(i + 1).drop_last() =~= all.take(i as int));
        assert(all.take(i + 1).last() == existing@[i as int]@);
        let col = existing[i].as_str();
        if !contains(expected, col) && !is_system_column(col) {
            push_item(&mut found, existing[i].clone());
        }
        i += 1;
    }
    assert(all.take(i as int) =~= all);
    found
}

/// Warns once per column of a table that no field accounts for, by name. None
/// is removed: the data is still in it.
pub fn warn_orphan_columns(
    conn: &mut Session,
    table: &str,
    existing: &Vec<String>,
    expected: &Vec<String>,
)
    ensures
        final(conn)@ == warned_of_columns(
            old(conn)@,
            table@,
            sorted(unaccounted(existing.deep_view(), expected.deep_view())),
            0,
        ),
{
    let orphans = sort_texts(&find_unaccounted(existing, expected));
    let ghost all = orphans.deep_view();
    let mut i: usize = 0;
    while i < orphans.len()
        invariant
            i <= orphans.len(),
            all == orphans.deep_view(),
            warned_of_columns(old(conn)@, table@, all, 0) == warned_of_columns(
                conn@,
                table@,
                all,
                i as int,
            ),
        decreases orphans.len() - i,
    {
        assert(all[i as int] == orphans@[i as int]@);
        conn.warn(
            cat5(
                "Column '",
                orphans[i].as_str(),
                "' exists in table '",
                table,
                "' but not in Lua definition (not removed)",
            ),
        );
        i += 1;
    }
}

/// The refusal of a column whose stored type is not the one asked for.
pub open spec fn type_mismatch(
    table: Seq<char>,
    types: Seq<(Seq<char>, Seq<char>)>,
    col_name: Seq<char>,
    expected_type: Seq<char>,
) -> Result<(), ErrorView> {
    match type_of(types, col_name) {
        None => Ok(()),
        Some(db_type) => if equal_ignoring_case(db_type, expected_type) {
            Ok(())
        } else {
            Err(
                ErrorView::Refused(
                    "Column '"@ + col_name + "' in table '"@ + table + "' is '"@ + db_type
                        + "' but the field definition expects '"@ + expected_type
                        + "'. A field's type is not migrated automatically — rename the field (which creates a new column) or migrate the column by hand; see the documentation on changing a definition that has data."@,
                ),
            )
        },
    }
}

/// Refuses a column whose stored type is not the one asked for: SQLite would
/// quietly store the new values as text, and Postgres would not take them.
pub fn check_type_mismatch(
    table: &str,
    column_types: &Vec<(String, String)>,
    col_name: &str,
    expected_type: &str,
) -> (r: Result<(), DbError>)
    ensures
        out(r) == type_mismatch(table@, column_types.deep_view(), col_name@, expected_type@),
{
    let db_type = match find_type(column_types, col_name) {
        None => {
            return Ok(());
        },
        Some(t) => t,
    };
    if same_ignoring_case(db_type.as_str(), expected_type) {
        return Ok(());
    }
    Err(
        DbError::Refused(
            cat9(
                "Column '",
                col_name,
                "' in table '",
                table,
                "' is '",
                db_type.as_str(),
                "' but the field definition expects '",
                expected_type,
                "'. A field's type is not migrated automatically — rename the field (which creates a new column) or migrate the column by hand; see the documentation on changing a definition that has data.",
            ),
        ),
    )
}

proof fn unaccounted_holds(existing: Seq<Seq<char>>, expected: Seq<Seq<char>>, x: Seq<char>)
    ensures
        unaccounted(existing, expected).contains(x) <==> existing.contains(x)
            && !expected.contains(x) && !system_column(x),
    decreases existing.len(),
{
    if existing.len() > 0 {
        let before = existing.drop_last();
        unaccounted_holds(before, expected, x);
        assert(existing =~= before.push(existing.last()));
        contains_pushed(before, existing.last(), x);
        contains_pushed(unaccounted(before, expected), existing.last(), x);
    }
}

/// The columns warned of are exactly those the table has that no field accounts for
/// and that not every table has.
pub proof fn system_columns_are_never_orphans(
    existing: Seq<Seq<char>>,
    expected: Seq<Seq<char>>,
    x: Seq<char>,
)
    ensures
        sorted(unaccounted(existing, expected)).contains(x) <==> existing.contains(x)
            && !expected.contains(x) && !system_column(x),
        is_sorted(sorted(unaccounted(existing, expected))),
{
    unaccounted_holds(existing, expected, x);
    sorted_holds_the_same(unaccounted(existing, expected), x);
    sorted_is_sorted(unaccounted(existing, expected));
}

/// Warning of columns sends nothing: none is removed.
pub proof fn orphan_columns_are_kept(
    s: SessionView,
    table: Seq<char>,
    columns: Seq<Seq<char>>,
    i: int,
)
    requires
        0 <= i <= columns.len(),
    ensures
        warned_of_columns(s, table, columns, i).sent == s.sent,
        warned_of_columns(s, table, columns, i).warnings.len() == s.warnings.len() + columns.len()
            - i,
    decreases columns.len() - i,
{
    if i < columns.len() {
        orphan_columns_are_kept(
            s.warned(orphan_column_warning(table, columns[i])),
            table,
            columns,
            i + 1,
        );
    }
}

} // verus!
