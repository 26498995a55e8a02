//! Dropping the `NOT NULL` of older tables.
//!
//! **One-time conversion — removable after 0.1.0**
//!
//! The column of a required field used to be made `NOT NULL`, and nothing changed
//! that when the field was no longer required, or gone. Whether a value is
//! required is for the writer to say. What is to be relaxed is found here, once
//! per collection; the collection's sync relaxes it and records that.
use crate::migrate::inline_unique::{gate_pending, gate_pending_step, marked, pending_unless_marked};
use crate::migrate::meta;
use crate::names::{placeholder, placeholder_text, quote_ident, quoted};
use crate::order::{
    contains_pushed, is_sorted, sort_texts, sorted, sorted_holds_the_same, sorted_is_sorted,
};
use crate::session::{Dialect, Session, SessionView, Step, ddl_step, query_all_step, within};
use crate::text::{cat2, cat3, cat5, push_item, same};
use crate::value::{
    DbError, DbValueView, ErrorView, add_context, one_param, out, texts_named, texts_under,
};
use crate::migrate::helpers::introspection::table_exists_step;
use vstd::prelude::*;

verus! {

/// The key of the mark of one collection.
pub open spec fn nullable_gate_key(slug: Seq<char>) -> Seq<char> {
    "nullable_columns:"@ + slug
}

/// Whether a column is `NOT NULL` on purpose.
pub open spec fn always_set(column: Seq<char>) -> bool {
    column == "id"@ || column == "_status"@ || column == "_ref_count"@
}

/// The statement listing the columns that are `NOT NULL`, the primary key left
/// out where the catalog tells it apart.
pub open spec fn not_null_sql(dialect: Dialect) -> Seq<char> {
    match dialect {
        Dialect::Postgres => "SELECT column_name AS name FROM information_schema.columns WHERE table_schema = 'public' AND table_name = "@
            + placeholder_text(dialect, 1) + " AND is_nullable = 'NO'"@,
        Dialect::Sqlite => "SELECT name FROM pragma_table_info("@ + placeholder_text(dialect, 1)
            + ") WHERE \"notnull\" = 1 AND pk = 0"@,
    }
}

/// Lists the columns of a table that are `NOT NULL`.
pub open spec fn not_null_step(s: SessionView, table: Seq<char>) -> Step<Seq<Seq<char>>> {
    let (s1, rows) = within(
        query_all_step(s, not_null_sql(s.dialect), seq![DbValueView::Text(table)]),
        "Failed to read the NOT NULL columns of '"@ + table + "'"@,
    );
    (
        s1,
        match rows {
            Err(e) => Err(e),
            Ok(rows) => Ok(texts_under(rows, "name"@)),
        },
    )
}

fn not_null_columns(conn: &mut Session, table: &str) -> (r: Result<Vec<String>, DbError>)
    ensures
        (final(conn)@, out(r)) == not_null_step(old(conn)@, table@),
{
    let p1 = placeholder(conn.dialect(), 1);
    let sql = match conn.dialect() {
        Dialect::Postgres => cat3(
            "SELECT column_name AS name FROM information_schema.columns WHERE table_schema = 'public' AND table_name = ",
            p1.as_str(),
            " AND is_nullable = 'NO'",
        ),
        Dialect::Sqlite => cat3(
            "SELECT name FROM pragma_table_info(",
            p1.as_str(),
            ") WHERE \"notnull\" = 1 AND pk = 0",
        ),
    };
    let read = conn.query_all(sql, one_param(table));
    let rows = add_context(
        read,
        cat3("Failed to read the NOT NULL columns of '", table, "'").as_str(),
    )?;
    Ok(texts_named(&rows, "name"))
}

/// The columns that are not `NOT NULL` on purpose.
pub open spec fn to_relax(columns: Seq<Seq<char>>) -> Seq<Seq<char>>
    decreases columns.len(),
{
    if columns.len() == 0 {
        Seq::empty()
    } else if always_set(columns.last()) {
        to_relax(columns.drop_last())
    } else {
        to_relax(columns.drop_last()).push(columns.last())
    }
}

fn without_system(columns: &Vec<String>) -> (r: Vec<String>)
    ensures
        r.deep_view() == to_relax(columns.deep_view()),
{
    let ghost all = columns.deep_view();
    let mut kept: Vec<String> = Vec::new();
    let mut i: usize = 0;
    assert(all.take(0) =~= Seq::<Seq<char>>::empty());
    assert(kept.deep_view() =~= Seq::<Seq<char>>::empty());
    while i < columns.len()
        invariant
            i <= columns.len(),
            all == columns.deep_view(),
            kept.deep_view() == to_relax(all.take(i as int)),
        decreases columns.len() - i,
    {
        assert(all.take(i + 1).drop_last() =~= all.take(i as int));
        assert(all.take(i + 1).last() == columns@[i as int]@);
        let name = columns[i].as_str();
        if !same(name, "id") && !same(name, "_status") && !same(name, "_ref_count") {
            push_item(&mut kept, columns[i].clone());
        }
        i += 1;
    }
    assert(all.take(i as int) =~= all);
    kept
}

/// Looks for columns to relax.
pub open spec fn columns_to_relax_step(s: SessionView, slug: Seq<char>) -> Step<
    Option<Seq<Seq<char>>>,
> {
    let (s1, pending) = gate_pending_step(s, nullable_gate_key(slug));
    match pending {
        Err(e) => (s1, Err(e)),
        Ok(false) => (s1, Ok(None)),
        Ok(true) => {
            let (s2, columns) = not_null_step(s1, slug);
            (
                s2,
                match columns {
                    Err(e) => Err(e),
                    Ok(columns) => Ok(Some(sorted(to_relax(columns)))),
                },
            )
        },
    }
}

/// The columns of a collection's fields that are still `NOT NULL`, by name;
/// nothing, once the pass has run for it.
pub fn columns_to_relax(conn: &mut Session, slug: &str) -> (r: Result<
    Option<Vec<String>>,
    DbError,
>)
    ensures
        (final(conn)@, out(r)) == columns_to_relax_step(old(conn)@, slug@),
{
    let key = cat2("nullable_columns:", slug);
    if !gate_pending(conn, key.as_str())? {
        return Ok(None);
    }
    let columns = not_null_columns(conn, slug)?;
    Ok(Some(sort_texts(&without_system(&columns))))
}

/// Relaxes the columns from the `i`-th on.
pub open spec fn relax_from(
    s: SessionView,
    table: Seq<char>,
    columns: Seq<Seq<char>>,
    i: int,
) -> Step<()>
    decreases columns.len() - i,
{
    if i < 0 || i >= columns.len() {
        (s, Ok(()))
    } else {
        let (s1, r) = within(
            ddl_step(
                s,
                "ALTER TABLE "@ + quoted(table) + " ALTER COLUMN "@ + quoted(columns[i])
                    + " DROP NOT NULL"@,
            ),
            "Failed to drop NOT NULL from '"@ + table + "."@ + columns[i] + "'"@,
        );
        match r {
            Err(e) => (s1, Err(e)),
            Ok(_) => relax_from(s1, table, columns, i + 1),
        }
    }
}

/// Drops `NOT NULL` from columns in place, as Postgres can.
pub fn drop_not_null(conn: &mut Session, table: &str, columns: &Vec<String>) -> (r: Result<
    (),
    DbError,
>)
    ensures
        (final(conn)@, out(r)) == relax_from(old(conn)@, table@, columns.deep_view(), 0),
{
    let ghost all = columns.deep_view();
    let quoted_table = quote_ident(table);
    let mut i: usize = 0;
    while i < columns.len()
        invariant
            i <= columns.len(),
            all == columns.deep_view(),
            quoted_table@ == quoted(table@),
            relax_from(old(conn)@, table@, all, 0) == relax_from(conn@, table@, all, i as int),
        decreases columns.len() - i,
    {
        assert(all[i as int] == columns@[i as int]@);
        let column = quote_ident(columns[i].as_str());
        let dropped = conn.execute_ddl(
            cat5(
                "ALTER TABLE ",
                quoted_table.as_str(),
                " ALTER COLUMN ",
                column.as_str(),
                " DROP NOT NULL",
            ),
        );
        add_context(
            dropped,
            cat5(
                "Failed to drop NOT NULL from '",
                table,
                ".",
                columns[i].as_str(),
                "'",
            ).as_str(),
        )?;
        i += 1;
    }
    Ok(())
}

/// Records that the pass has run for a collection.
pub fn mark_relaxed(conn: &mut Session, slug: &str) -> (r: Result<(), DbError>)
    ensures
        (final(conn)@, out(r)) == meta::upsert_step(old(conn)@, nullable_gate_key(slug@), "1"@),
{
    let key = cat2("nullable_columns:", slug);
    meta::upsert(conn, key.as_str(), "1")
}

/// Once the pass is recorded as done for a collection, it finds nothing for that
/// collection; before, it names the columns to relax.
pub proof fn nothing_to_relax_once_marked(
    s: SessionView,
    slug: Seq<char>,
    store: Map<Seq<char>, Seq<char>>,
)
    requires
        table_exists_step(s, "_crap_meta"@).1 == Ok::<bool, ErrorView>(true),
        meta::held_between(
            table_exists_step(s, "_crap_meta"@).0,
            gate_pending_step(s, nullable_gate_key(slug)).0,
            store,
        ) is Some,
    ensures
        columns_to_relax_step(s, slug).1 == Ok::<Option<Seq<Seq<char>>>, ErrorView>(None)
            <==> marked(store, nullable_gate_key(slug)),
{
    pending_unless_marked(s, nullable_gate_key(slug), store);
}

/// The columns named for relaxing are sorted, are `NOT NULL` in the table, and are
/// none of those that are `NOT NULL` on purpose.
pub proof fn relaxes_only_fields(columns: Seq<Seq<char>>, x: Seq<char>)
    ensures
        sorted(to_relax(columns)).contains(x) <==> columns.contains(x) && !always_set(x),
        is_sorted(sorted(to_relax(columns))),
    decreases columns.len(),
{
    sorted_is_sorted(to_relax(columns));
    sorted_holds_the_same(to_relax(columns), x);
    to_relax_holds(columns, x);
}

proof fn to_relax_holds(columns: Seq<Seq<char>>, x: Seq<char>)
    ensures
        to_relax(columns).contains(x) <==> columns.contains(x) && !always_set(x),
    decreases columns.len(),
{
    if columns.len() > 0 {
        let before = columns.drop_last();
        to_relax_holds(before, x);
        assert(columns =~= before.push(columns.last()));
        contains_pushed(before, columns.last(), x);
        contains_pushed(to_relax(before), columns.last(), x);
    }
}

} // verus!
