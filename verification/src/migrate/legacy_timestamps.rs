//! Rewriting timestamps that were stored with a space.
//!
//! **One-time conversion — removable after 0.1.0** (see [`super`]).
//!
//! Early SQLite schemas stored `YYYY-MM-DD HH:MM:SS`, and every writer since
//! stores `YYYY-MM-DDTHH:MM:SS.sssZ`. SQL compares the stored texts, and a space
//! sorts before a `T`, so an old row stands in the wrong place among new ones.
//! Postgres never stored the old form.
use crate::definition::Registry;
use crate::migrate::helpers::introspection::{
    get_table_columns, table_columns_step, table_exists, table_exists_step,
};
use crate::migrate::meta;
use crate::names::{global_table, global_table_name, versions_table, versions_table_name};
use crate::session::{Dialect, Session, SessionView, Step, execute_step, within};
use crate::text::{cat2, cat4, cat5, contains, same};
use crate::value::{DbError, ErrorView, add_context, no_params, out};
use vstd::prelude::*;

verus! {

/// The key of the mark of one table's rewriting.
pub open spec fn timestamps_gate_key(table: Seq<char>) -> Seq<char> {
    "legacy_timestamps:"@ + table
}

/// The columns that hold a timestamp, on any table.
pub open spec fn timestamp_columns() -> Seq<Seq<char>> {
    seq![
        "created_at"@,
        "updated_at"@,
        "_deleted_at"@,
        "started_at"@,
        "completed_at"@,
        "heartbeat_at"@,
        "retry_after"@,
    ]
}

/// The statement rewriting one column of one table.
pub open spec fn rewrite_sql(table: Seq<char>, column: Seq<char>) -> Seq<char> {
    let c = "\""@ + column + "\""@;
    "UPDATE \""@ + table + "\" SET "@ + c + " = substr("@ + c + ", 1, 10) || 'T' || substr("@ + c
        + ", 12) || '.000Z' WHERE length("@ + c + ") = 19 AND substr("@ + c + ", 11, 1) = ' '"@
}

fn rewrite_statement(table: &str, column: &str) -> (r: String)
    ensures
        r@ == rewrite_sql(table@, column@),
{
    let c = crate::text::cat3("\"", column, "\"");
    let c = c.as_str();
    let mut sql = cat5("UPDATE \"", table, "\" SET ", c, " = substr(");
    sql.append(c);
    sql.append(", 1, 10) || 'T' || substr(");
    sql.append(c);
    sql.append(", 12) || '.000Z' WHERE length(");
    sql.append(c);
    sql.append(") = 19 AND substr(");
    sql.append(c);
    sql.append(", 11, 1) = ' '");
    sql
}

/// Rewrites the columns from the `i`-th on that the table has.
pub open spec fn rewrite_from(
    s: SessionView,
    table: Seq<char>,
    existing: Seq<Seq<char>>,
    columns: Seq<Seq<char>>,
    i: int,
) -> Step<()>
    decreases columns.len() - i,
{
    if i < 0 || i >= columns.len() {
        (s, Ok(()))
    } else if !existing.contains(columns[i]) {
        rewrite_from(s, table, existing, columns, i + 1)
    } else {
        let (s1, r) = within(
            execute_step(s, rewrite_sql(table, columns[i]), Seq::empty()),
            "Failed to normalize legacy timestamps in "@ + table + "."@ + columns[i],
        );
        match r {
            Err(e) => (s1, Err(e)),
            Ok(_) => rewrite_from(s1, table, existing, columns, i + 1),
        }
    }
}

/// Rewrites one table, where it exists.
pub open spec fn normalize_table_step(s: SessionView, table: Seq<char>) -> Step<()> {
    let (s1, exists) = table_exists_step(s, table);
    match exists {
        Err(e) => (s1, Err(e)),
        Ok(false) => (s1, Ok(())),
        Ok(true) => {
            let (s2, existing) = table_columns_step(s1, table);
            match existing {
                Err(e) => (s2, Err(e)),
                Ok(existing) => rewrite_from(s2, table, existing, timestamp_columns(), 0),
            }
        },
    }
}

fn timestamp_column_list() -> (r: Vec<String>)
    ensures
        r.deep_view() == timestamp_columns(),
{
    let r = vec![
        "created_at".to_owned(),
        "updated_at".to_owned(),
        "_deleted_at".to_owned(),
        "started_at".to_owned(),
        "completed_at".to_owned(),
        "heartbeat_at".to_owned(),
        "retry_after".to_owned(),
    ];
    assert(r.deep_view() =~= timestamp_columns());
    r
}

fn normalize_table(conn: &mut Session, table: &str) -> (r: Result<(), DbError>)
    ensures
        (final(conn)@, out(r)) == normalize_table_step(old(conn)@, table@),
{
    if !table_exists(conn, table)? {
        return Ok(());
    }
    let existing = get_table_columns(conn, table)?;
    let columns = timestamp_column_list();
    let ghost start = conn@;
    let ghost all = columns.deep_view();
    let mut i: usize = 0;
    while i < columns.len()
        invariant
            i <= columns.len(),
            all == columns.deep_view(),
            rewrite_from(start, table@, existing.deep_view(), all, 0) == normalize_table_step(
                old(conn)@,
                table@,
            ),
            rewrite_from(start, table@, existing.deep_view(), all, 0) == rewrite_from(
                conn@,
                table@,
                existing.deep_view(),
                all,
                i as int,
            ),
        decreases columns.len() - i,
    {
        assert(all[i as int] == columns@[i as int]@);
        if contains(&existing, columns[i].as_str()) {
            let column = columns[i].as_str();
            let rewritten = conn.execute(rewrite_statement(table, column), no_params());
            add_context(
                rewritten,
                cat4("Failed to normalize legacy timestamps in ", table, ".", column).as_str(),
            )?;
        }
        i += 1;
    }
    Ok(())
}

/// Rewrites a table and the versions of its rows.
pub open spec fn normalize_pair_step(s: SessionView, table: Seq<char>) -> Step<()> {
    let (s1, r) = normalize_table_step(s, table);
    match r {
        Err(e) => (s1, Err(e)),
        Ok(_) => normalize_table_step(s1, versions_table_name(table)),
    }
}

/// Rewrites one target once: a table, and the versions of its rows where it has
/// them.
pub open spec fn normalize_target_step(s: SessionView, table: Seq<char>, versioned: bool) -> Step<
    (),
> {
    let (s1, stored) = meta::get_step(s, timestamps_gate_key(table));
    match stored {
        Err(e) => (s1, Err(e)),
        Ok(stored) => if stored == Some("1"@) {
            (s1, Ok(()))
        } else {
            let (s2, r) = if versioned {
                normalize_pair_step(s1, table)
            } else {
                normalize_table_step(s1, table)
            };
            match r {
                Err(e) => (s2, Err(e)),
                Ok(_) => meta::upsert_step(s2, timestamps_gate_key(table), "1"@),
            }
        },
    }
}

fn normalize_target(conn: &mut Session, table: &str, versioned: bool) -> (r: Result<(), DbError>)
    ensures
        (final(conn)@, out(r)) == normalize_target_step(old(conn)@, table@, versioned),
{
    let key = cat2("legacy_timestamps:", table);
    if let Some(version) = meta::get(conn, key.as_str())? {
        if same(version.as_str(), "1") {
            return Ok(());
        }
    }
    normalize_table(conn, table)?;
    if versioned {
        let versions = versions_table(table);
        normalize_table(conn, versions.as_str())?;
    }
    meta::upsert(conn, key.as_str(), "1")
}

/// The tables of the collections and globals, in order.
pub open spec fn target_tables(registry: Registry) -> Seq<Seq<char>> {
    Seq::new(registry.collections@.len(), |i: int| registry.collections@[i].slug@) + Seq::new(
        registry.globals@.len(),
        |i: int| global_table_name(registry.globals@[i].slug@),
    )
}

/// The tables of the collections and globals, in order.
pub fn target_table_list(registry: &Registry) -> (r: Vec<String>)
    ensures
        r.deep_view() == target_tables(*registry),
{
    let ghost wanted = target_tables(*registry);
    let mut tables: Vec<String> = Vec::new();
    let mut i: usize = 0;
    while i < registry.collections.len()
        invariant
            i <= registry.collections.len(),
            wanted == target_tables(*registry),
            tables.deep_view() =~= wanted.take(i as int),
        decreases registry.collections.len() - i,
    {
        crate::text::push_item(&mut tables, registry.collections[i].slug.clone());
        i += 1;
    }
    let ghost n = registry.collections@.len();
    let mut k: usize = 0;
    while k < registry.globals.len()
        invariant
            k <= registry.globals.len(),
            wanted == target_tables(*registry),
            n == registry.collections@.len(),
            tables.deep_view() =~= wanted.take(n + k),
        decreases registry.globals.len() - k,
    {
        crate::text::push_item(&mut tables, global_table(registry.globals[k].slug.as_str()));
        k += 1;
    }
    assert(tables.deep_view() =~= wanted);
    tables
}

/// Rewrites the targets from the `i`-th on, each once.
pub open spec fn normalize_from(s: SessionView, tables: Seq<Seq<char>>, i: int) -> Step<()>
    decreases tables.len() - i,
{
    if i < 0 || i >= tables.len() {
        (s, Ok(()))
    } else {
        let (s1, r) = normalize_target_step(s, tables[i], true);
        match r {
            Err(e) => (s1, Err(e)),
            Ok(_) => normalize_from(s1, tables, i + 1),
        }
    }
}

/// Rewrites every target that has not been: the jobs, each collection, each
/// global.
pub open spec fn normalize_step(s: SessionView, registry: Registry) -> Step<()> {
    if s.dialect == Dialect::Postgres {
        (s, Ok(()))
    } else {
        let (s1, r1) = meta::delete_step(s, "legacy_timestamps_normalized"@);
        match r1 {
            Err(e) => (s1, Err(e)),
            Ok(_) => {
                let (s2, r2) = normalize_target_step(s1, "_crap_jobs"@, false);
                match r2 {
                    Err(e) => (s2, Err(e)),
                    Ok(_) => normalize_from(s2, target_tables(registry), 0),
                }
            },
        }
    }
}

/// Rewrites old timestamps, once per collection, per global and for the jobs,
/// on SQLite. The mark is per table and not per database, so that a collection
/// that is defined again later is rewritten then. The mark of the pass over the
/// whole database that came before is removed.
pub fn normalize_if_needed(conn: &mut Session, registry: &Registry) -> (r: Result<(), DbError>)
    ensures
        (final(conn)@, out(r)) == normalize_step(old(conn)@, *registry),
{
    if conn.is_postgres() {
        return Ok(());
    }
    meta::delete(conn, "legacy_timestamps_normalized")?;
    normalize_target(conn, "_crap_jobs", false)?;
    let tables = target_table_list(registry);
    let ghost start = conn@;
    let ghost all = tables.deep_view();
    let mut i: usize = 0;
    while i < tables.len()
        invariant
            i <= tables.len(),
            all == tables.deep_view(),
            normalize_from(start, all, 0) == normalize_step(old(conn)@, *registry),
            normalize_from(start, all, 0) == normalize_from(conn@, all, i as int),
        decreases tables.len() - i,
    {
        assert(all[i as int] == tables@[i as int]@);
        normalize_target(conn, tables[i].as_str(), true)?;
        i += 1;
    }
    Ok(())
}

/// A table recorded as rewritten is left alone; the record is per table, so another
/// is rewritten still.
pub proof fn timestamps_are_rewritten_once(
    s: SessionView,
    table: Seq<char>,
    versioned: bool,
    store: Map<Seq<char>, Seq<char>>,
)
    requires
        meta::held_between(s, meta::get_step(s, timestamps_gate_key(table)).0, store) is Some,
        store.dom().contains(timestamps_gate_key(table)),
        store[timestamps_gate_key(table)] == "1"@,
    ensures
        normalize_target_step(s, table, versioned) == (
            meta::get_step(s, timestamps_gate_key(table)).0,
            Ok::<(), ErrorView>(()),
        ),
{
    meta::get_reads(s, timestamps_gate_key(table), store);
}

/// The records of two tables are two.
pub proof fn timestamp_records_are_per_table(a: Seq<char>, b: Seq<char>)
    requires
        a != b,
    ensures
        timestamps_gate_key(a) != timestamps_gate_key(b),
{
    let prefix = "legacy_timestamps:"@;
    assert(timestamps_gate_key(a).skip(prefix.len() as int) =~= a);
    assert(timestamps_gate_key(b).skip(prefix.len() as int) =~= b);
}

/// Postgres never held timestamps in the old form: nothing is asked there.
pub proof fn postgres_timestamps_are_left_alone(s: SessionView, registry: Registry)
    requires
        s.dialect == Dialect::Postgres,
    ensures
        normalize_step(s, registry) == (s, Ok::<(), ErrorView>(())),
{
}

} // verus!
