//! Bringing a whole database to the definitions, in one transaction.
use crate::definition::{CollectionDefinition, GlobalDefinition, LocaleConfig, Registry};
use crate::migrate::helpers::introspection::{
    get_table_columns, table_columns_step, table_exists, table_exists_step,
};
use crate::migrate::identifier_check::{check_identifiers, identifier_checks};
use crate::migrate::legacy_timestamps::{normalize_if_needed, normalize_step};
use crate::migrate::locale_change::{default_locale_step, warn_on_default_locale_change};
use crate::migrate::meta;
use crate::migrate::nested_values::{convert_if_needed, convert_step};
use crate::migrate::orphan_tables::{warn_orphan_tables, warn_orphans_step};
use crate::migrate::reference_cardinality::{carry_if_needed, carry_step};
use crate::migrate::search_index::{sync_indexes_from, sync_search_indexes};
use crate::migrate::system_tables::{create_system_tables, system_tables_step};
use crate::migrate::tracking::{drop_tables, drop_tables_step};
use crate::names::{global_table, global_table_name};
use crate::order::{
    contains_pushed, dedup_texts, deduped, deduped_holds_the_same, sort_texts, sorted,
    sorted_holds_the_same,
};
use crate::pool::{DbPool, connect_step};
use crate::session::{
    Dialect, Request, RequestView, Session, SessionView, Step, ask_done, ask_flag, batch_step,
    query_all_step, within,
};
use crate::text::{cat2, cat3, contains, join, join_with, push_item};
use crate::value::{DbError, DbRow, DbRowView, ErrorView, add_context, no_params, out, with_context};
use vstd::prelude::*;

verus! {

/// The lock that keeps syncs of one database apart: the bytes of `crapsync`.
pub const SCHEMA_SYNC_LOCK_KEY: i64 = 7165897092701449827;

/// Goes through the collections from the `i`-th on for those whose tables have to
/// be made anew.
pub open spec fn rebuilds_from(
    s: SessionView,
    collections: Seq<CollectionDefinition>,
    i: int,
    done: Seq<Seq<char>>,
) -> Step<Seq<Seq<char>>>
    decreases collections.len() - i,
{
    if i < 0 || i >= collections.len() {
        (s, Ok(done))
    } else {
        let slug = collections[i].slug@;
        let (s1, exists) = table_exists_step(s, slug);
        match exists {
            Err(e) => (s1, Err(e)),
            Ok(false) => rebuilds_from(s1, collections, i + 1, done),
            Ok(true) => {
                let (s2, columns) = table_columns_step(s1, slug);
                match columns {
                    Err(e) => (s2, Err(e)),
                    Ok(columns) => {
                        let (s3, needs) = ask_flag(
                            s2,
                            RequestView::NeedsRebuild { slug, columns },
                        );
                        match needs {
                            Err(e) => (s3, Err(e)),
                            Ok(true) => rebuilds_from(s3, collections, i + 1, done.push(slug)),
                            Ok(false) => rebuilds_from(s3, collections, i + 1, done),
                        }
                    },
                }
            },
        }
    }
}

/// Looks for the collections whose tables have to be made anew, which is on SQLite
/// only: Postgres changes constraints in place.
pub open spec fn pending_rebuilds_step(s: SessionView, registry: Registry) -> Step<Seq<Seq<char>>> {
    if s.dialect != Dialect::Sqlite {
        (s, Ok(Seq::empty()))
    } else {
        rebuilds_from(s, registry.collections@, 0, Seq::empty())
    }
}

fn pending_rebuilds(conn: &mut Session, registry: &Registry) -> (r: Result<Vec<String>, DbError>)
    ensures
        (final(conn)@, out(r)) == pending_rebuilds_step(old(conn)@, *registry),
{
    let mut rebuilt: Vec<String> = Vec::new();
    assert(rebuilt.deep_view() =~= Seq::<Seq<char>>::empty());
    if conn.is_postgres() {
        return Ok(rebuilt);
    }
    let collections = &registry.collections;
    let mut i: usize = 0;
    while i < collections.len()
        invariant
            i <= collections.len(),
            collections == registry.collections,
            old(conn)@.dialect == Dialect::Sqlite,
            rebuilds_from(old(conn)@, collections@, 0, Seq::empty()) == rebuilds_from(
                conn@,
                collections@,
                i as int,
                rebuilt.deep_view(),
            ),
        decreases collections.len() - i,
    {
        let slug = collections[i].slug.as_str();
        if table_exists(conn, slug)? {
            let columns = get_table_columns(conn, slug)?;
            if conn.ask_flag(Request::NeedsRebuild { slug: slug.to_owned(), columns })? {
                push_item(&mut rebuilt, slug.to_owned());
            }
        }
        i += 1;
    }
    Ok(rebuilt)
}

/// The statement turning the enforcement of foreign keys on or off.
pub open spec fn foreign_keys_sql(on: bool) -> Seq<char> {
    "PRAGMA foreign_keys = "@ + (if on {
        "ON"@
    } else {
        "OFF"@
    })
}

/// Turns the enforcement of foreign keys on or off.
pub open spec fn foreign_keys_step(s: SessionView, on: bool) -> Step<()> {
    within(
        batch_step(s, foreign_keys_sql(on)),
        "Failed to set foreign_keys = "@ + (if on {
            "ON"@
        } else {
            "OFF"@
        }),
    )
}

fn set_foreign_keys(conn: &mut Session, on: bool) -> (r: Result<(), DbError>)
    ensures
        (final(conn)@, out(r)) == foreign_keys_step(old(conn)@, on),
{
    let state = if on {
        "ON"
    } else {
        "OFF"
    };
    let done = conn.execute_batch(cat2("PRAGMA foreign_keys = ", state));
    add_context(done, cat2("Failed to set foreign_keys = ", state).as_str())
}

/// The tables with rows that point at nothing in one of the rebuilt tables.
pub open spec fn dangling(rows: Seq<DbRowView>, rebuilt: Seq<Seq<char>>) -> Seq<Seq<char>>
    decreases rows.len(),
{
    if rows.len() == 0 {
        Seq::empty()
    } else {
        let before = dangling(rows.drop_last(), rebuilt);
        match (rows.last().text("parent"@), rows.last().text("table"@)) {
            (Some(parent), Some(table)) => if rebuilt.contains(parent) {
                before.push(table)
            } else {
                before
            },
            _ => before,
        }
    }
}

fn dangling_tables(rows: &Vec<DbRow>, rebuilt: &Vec<String>) -> (r: Vec<String>)
    ensures
        r.deep_view() == dangling(rows.deep_view(), rebuilt.deep_view()),
{
    let ghost all = rows.deep_view();
    let mut found: Vec<String> = Vec::new();
    let mut i: usize = 0;
    assert(all.take(0) =~= Seq::<DbRowView>::empty());
    assert(found.deep_view() =~= Seq::<Seq<char>>::empty());
    while i < rows.len()
        invariant
            i <= rows.len(),
            all == rows.deep_view(),
            found.deep_view() == dangling(all.take(i as int), rebuilt.deep_view()),
        decreases rows.len() - i,
    {
        assert(all.take(i + 1).drop_last() =~= all.take(i as int));
        assert(all.take(i + 1).last() == rows@[i as int].deep_view());
        if let (Some(parent), Some(table)) = (rows[i].text("parent"), rows[i].text("table")) {
            if contains(rebuilt, parent.as_str()) {
                push_item(&mut found, table);
            }
        }
        i += 1;
    }
    assert(all.take(i as int) =~= all);
    found
}

/// Refuses where a row points at nothing in one of the rebuilt tables.
pub open spec fn no_dangling_step(s: SessionView, rebuilt: Seq<Seq<char>>) -> Step<()> {
    let (s1, rows) = within(
        query_all_step(s, "PRAGMA foreign_key_check"@, Seq::empty()),
        "Failed to verify foreign keys after the schema sync"@,
    );
    (
        s1,
        match rows {
            Err(e) => Err(e),
            Ok(rows) => {
                let tables = deduped(sorted(dangling(rows, rebuilt)));
                if tables.len() == 0 {
                    Ok(())
                } else {
                    Err(
                        ErrorView::Refused(
                            "Schema sync left rows in "@ + join(tables, ", "@)
                                + " pointing at a rebuilt table; rolling back"@,
                        ),
                    )
                }
            },
        },
    )
}

/// Refuses where a row points at nothing in one of the rebuilt tables. Rows that
/// point at nothing elsewhere were so before, and are not looked at.
pub fn assert_no_dangling_references(conn: &mut Session, rebuilt: &Vec<String>) -> (r: Result<
    (),
    DbError,
>)
    ensures
        (final(conn)@, out(r)) == no_dangling_step(old(conn)@, rebuilt.deep_view()),
{
    let read = conn.query_all("PRAGMA foreign_key_check".to_owned(), no_params());
    let rows = add_context(read, "Failed to verify foreign keys after the schema sync")?;
    let tables = dedup_texts(&sort_texts(&dangling_tables(&rows, rebuilt)));
    if tables.len() == 0 {
        return Ok(());
    }
    let names = join_with(&tables, ", ");
    Err(
        DbError::Refused(
            cat3(
                "Schema sync left rows in ",
                names.as_str(),
                " pointing at a rebuilt table; rolling back",
            ),
        ),
    )
}

/// Checks the names of the collections from the `i`-th on.
pub open spec fn check_collections_from(
    s: SessionView,
    collections: Seq<CollectionDefinition>,
    config: LocaleConfig,
    i: int,
) -> Step<()>
    decreases collections.len() - i,
{
    if i < 0 || i >= collections.len() {
        (s, Ok(()))
    } else {
        let slug = collections[i].slug@;
        match identifier_checks(slug, collections[i].fields@, config) {
            Err(e) => (s, Err(e)),
            Ok(_) => {
                let (s1, r) = ask_done(s, RequestView::CheckIndexNames { slug });
                match r {
                    Err(e) => (s1, Err(e)),
                    Ok(_) => check_collections_from(s1, collections, config, i + 1),
                }
            },
        }
    }
}

/// The checks of the names of the globals from the `i`-th on.
pub open spec fn global_checks_from(
    globals: Seq<GlobalDefinition>,
    config: LocaleConfig,
    i: int,
) -> Result<(), ErrorView>
    decreases globals.len() - i,
{
    if i < 0 || i >= globals.len() {
        Ok(())
    } else {
        match identifier_checks(
            global_table_name(globals[i].slug@),
            globals[i].fields@,
            config,
        ) {
            Err(e) => Err(e),
            Ok(_) => global_checks_from(globals, config, i + 1),
        }
    }
}

/// Checks every name the definitions are stored under.
pub open spec fn check_all_step(s: SessionView, registry: Registry, config: LocaleConfig) -> Step<
    (),
> {
    let (s1, r1) = check_collections_from(s, registry.collections@, config, 0);
    match r1 {
        Err(e) => (s1, Err(e)),
        Ok(_) => {
            let (s2, r2) = ask_done(s1, RequestView::CheckIndexNameCollisions);
            match r2 {
                Err(e) => (s2, Err(e)),
                Ok(_) => (s2, global_checks_from(registry.globals@, config, 0)),
            }
        },
    }
}

fn check_collections(conn: &mut Session, registry: &Registry, locale_config: &LocaleConfig) -> (r:
    Result<(), DbError>)
    ensures
        (final(conn)@, out(r)) == check_collections_from(
            old(conn)@,
            registry.collections@,
            *locale_config,
            0,
        ),
{
    let collections = &registry.collections;
    let mut i: usize = 0;
    while i < collections.len()
        invariant
            i <= collections.len(),
            collections == registry.collections,
            check_collections_from(old(conn)@, collections@, *locale_config, 0)
                == check_collections_from(conn@, collections@, *locale_config, i as int),
        decreases collections.len() - i,
    {
        let slug = collections[i].slug.as_str();
        check_identifiers(slug, &collections[i].fields, locale_config)?;
        conn.ask_done(Request::CheckIndexNames { slug: slug.to_owned() })?;
        i += 1;
    }
    Ok(())
}

fn check_globals(registry: &Registry, locale_config: &LocaleConfig) -> (r: Result<(), DbError>)
    ensures
        out(r) == global_checks_from(registry.globals@, *locale_config, 0),
{
    let globals = &registry.globals;
    let mut i: usize = 0;
    while i < globals.len()
        invariant
            i <= globals.len(),
            globals == registry.globals,
            global_checks_from(globals@, *locale_config, 0) == global_checks_from(
                globals@,
                *locale_config,
                i as int,
            ),
        decreases globals.len() - i,
    {
        let table = global_table(globals[i].slug.as_str());
        check_identifiers(table.as_str(), &globals[i].fields, locale_config)?;
        i += 1;
    }
    Ok(())
}

/// Refuses definitions that would be stored under a name Postgres cuts, or under
/// one that two of them share, before any table is made.
pub fn check_all_identifiers(
    conn: &mut Session,
    registry: &Registry,
    locale_config: &LocaleConfig,
) -> (r: Result<(), DbError>)
    ensures
        (final(conn)@, out(r)) == check_all_step(old(conn)@, *registry, *locale_config),
{
    check_collections(conn, registry, locale_config)?;
    conn.ask_done(Request::CheckIndexNameCollisions)?;
    check_globals(registry, locale_config)
}

/// Syncs the tables of the collections from the `i`-th on.
pub open spec fn sync_collections_from(
    s: SessionView,
    collections: Seq<CollectionDefinition>,
    i: int,
) -> Step<()>
    decreases collections.len() - i,
{
    if i < 0 || i >= collections.len() {
        (s, Ok(()))
    } else {
        let (s1, r) = ask_done(s, RequestView::SyncCollection { slug: collections[i].slug@ });
        match r {
            Err(e) => (s1, Err(e)),
            Ok(_) => sync_collections_from(s1, collections, i + 1),
        }
    }
}

/// Syncs the tables of the globals from the `i`-th on.
pub open spec fn sync_globals_from(s: SessionView, globals: Seq<GlobalDefinition>, i: int) -> Step<
    (),
>
    decreases globals.len() - i,
{
    if i < 0 || i >= globals.len() {
        (s, Ok(()))
    } else {
        let (s1, r) = ask_done(s, RequestView::SyncGlobal { slug: globals[i].slug@ });
        match r {
            Err(e) => (s1, Err(e)),
            Ok(_) => sync_globals_from(s1, globals, i + 1),
        }
    }
}

/// Creates or alters the tables of every collection and every global. The columns
/// of checkboxes come first: a table whose columns have another type than its
/// fields is refused.
pub open spec fn sync_tables_step(s: SessionView, registry: Registry) -> Step<()> {
    let (s1, r1) = ask_done(s, RequestView::MigrateCheckboxColumns);
    match r1 {
        Err(e) => (s1, Err(e)),
        Ok(_) => {
            let (s2, r2) = sync_collections_from(s1, registry.collections@, 0);
            match r2 {
                Err(e) => (s2, Err(e)),
                Ok(_) => sync_globals_from(s2, registry.globals@, 0),
            }
        },
    }
}

fn sync_tables(conn: &mut Session, registry: &Registry) -> (r: Result<(), DbError>)
    ensures
        (final(conn)@, out(r)) == sync_tables_step(old(conn)@, *registry),
{
    conn.ask_done(Request::MigrateCheckboxColumns)?;
    let collections = &registry.collections;
    let ghost start = conn@;
    let mut i: usize = 0;
    while i < collections.len()
        invariant
            i <= collections.len(),
            collections == registry.collections,
            ask_done(old(conn)@, RequestView::MigrateCheckboxColumns) == (
                start,
                Ok::<(), ErrorView>(()),
            ),
            sync_collections_from(start, collections@, 0) == sync_collections_from(
                conn@,
                collections@,
                i as int,
            ),
        decreases collections.len() - i,
    {
        conn.ask_done(Request::SyncCollection { slug: collections[i].slug.clone() })?;
        i += 1;
    }
    let globals = &registry.globals;
    let ghost mid = conn@;
    let mut k: usize = 0;
    while k < globals.len()
        invariant
            k <= globals.len(),
            globals == registry.globals,
            sync_globals_from(mid, globals@, 0) == sync_tables_step(old(conn)@, *registry),
            sync_globals_from(mid, globals@, 0) == sync_globals_from(conn@, globals@, k as int),
        decreases globals.len() - k,
    {
        conn.ask_done(Request::SyncGlobal { slug: globals[k].slug.clone() })?;
        k += 1;
    }
    Ok(())
}

/// Runs the passes over what is stored, from the reference counts on.
pub open spec fn later_conversions_step(
    s: SessionView,
    registry: Registry,
    config: LocaleConfig,
) -> Step<()> {
    let (s1, r1) = ask_done(s, RequestView::BackfillRefCounts);
    match r1 {
        Err(e) => (s1, Err(e)),
        Ok(_) => {
            let (s2, r2) = normalize_step(s1, registry);
            match r2 {
                Err(e) => (s2, Err(e)),
                Ok(_) => {
                    let (s3, r3) = ask_done(s2, RequestView::NormalizeLists);
                    match r3 {
                        Err(e) => (s3, Err(e)),
                        Ok(_) => {
                            let (s4, r4) = convert_step(s3, registry);
                            match r4 {
                                Err(e) => (s4, Err(e)),
                                Ok(_) => {
                                    let (s5, r5) = ask_done(s4, RequestView::CanonicalizeText);
                                    match r5 {
                                        Err(e) => (s5, Err(e)),
                                        Ok(_) => default_locale_step(s5, registry, config),
                                    }
                                },
                            }
                        },
                    }
                },
            }
        },
    }
}

/// Runs the passes over what is stored, once the tables are what the definitions
/// ask for. References are carried first, so that they are counted where they are
/// read from. Lists come before the values inside rows are typed: typing one that
/// is no list yet would drop what does not fit. Typing comes before texts are
/// made canonical, which applies to the typed value.
pub open spec fn conversions_step(s: SessionView, registry: Registry, config: LocaleConfig) -> Step<
    (),
> {
    let (s1, r1) = carry_step(s, registry, config);
    match r1 {
        Err(e) => (s1, Err(e)),
        Ok(_) => later_conversions_step(s1, registry, config),
    }
}

fn run_conversions(conn: &mut Session, registry: &Registry, locale_config: &LocaleConfig) -> (r:
    Result<(), DbError>)
    ensures
        (final(conn)@, out(r)) == conversions_step(old(conn)@, *registry, *locale_config),
{
    carry_if_needed(conn, registry, locale_config)?;
    conn.ask_done(Request::BackfillRefCounts)?;
    normalize_if_needed(conn, registry)?;
    conn.ask_done(Request::NormalizeLists)?;
    convert_if_needed(conn, registry)?;
    conn.ask_done(Request::CanonicalizeText)?;
    warn_on_default_locale_change(conn, registry, locale_config)
}

/// The later steps of a sync: the passes over what is stored, the search indexes
/// they may have left stale, and the check on rebuilt tables.
pub open spec fn finish_step(
    s: SessionView,
    registry: Registry,
    config: LocaleConfig,
    rebuilt: Seq<Seq<char>>,
) -> Step<()> {
    let (s1, r1) = conversions_step(s, registry, config);
    match r1 {
        Err(e) => (s1, Err(e)),
        Ok(_) => {
            let (s2, r2) = sync_indexes_from(s1, registry.collections@, 0);
            match r2 {
                Err(e) => (s2, Err(e)),
                Ok(_) => if rebuilt.len() == 0 {
                    (s2, Ok(()))
                } else {
                    no_dangling_step(s2, rebuilt)
                },
            }
        },
    }
}

/// The earlier steps of a sync: the library's own tables, the check of names, the
/// definitions' tables, and the report on what no definition accounts for.
pub open spec fn prepare_step(s: SessionView, registry: Registry, config: LocaleConfig) -> Step<()> {
    let (s1, r1) = system_tables_step(s);
    match r1 {
        Err(e) => (s1, Err(e)),
        Ok(_) => {
            let (s2, r2) = check_all_step(s1, registry, config);
            match r2 {
                Err(e) => (s2, Err(e)),
                Ok(_) => {
                    let (s3, r3) = sync_tables_step(s2, registry);
                    match r3 {
                        Err(e) => (s3, Err(e)),
                        Ok(_) => {
                            let (s4, r4) = within(
                                meta::delete_step(s3, "ref_count_backfilled"@),
                                "Failed to remove the retired meta key ref_count_backfilled"@,
                            );
                            match r4 {
                                Err(e) => (s4, Err(e)),
                                Ok(_) => warn_orphans_step(s4, registry),
                            }
                        },
                    }
                },
            }
        },
    }
}

/// Every step of a sync, inside its transaction.
pub open spec fn sync_body_step(
    s: SessionView,
    registry: Registry,
    config: LocaleConfig,
    rebuilt: Seq<Seq<char>>,
) -> Step<()> {
    let (s1, r1) = prepare_step(s, registry, config);
    match r1 {
        Err(e) => (s1, Err(e)),
        Ok(_) => finish_step(s1, registry, config, rebuilt),
    }
}

fn sync_in_transaction(
    conn: &mut Session,
    registry: &Registry,
    locale_config: &LocaleConfig,
    rebuilt: &Vec<String>,
) -> (r: Result<(), DbError>)
    ensures
        (final(conn)@, out(r)) == sync_body_step(
            old(conn)@,
            *registry,
            *locale_config,
            rebuilt.deep_view(),
        ),
{
    create_system_tables(conn)?;
    check_all_identifiers(conn, registry, locale_config)?;
    sync_tables(conn, registry)?;
    let retired = meta::delete(conn, "ref_count_backfilled");
    add_context(retired, "Failed to remove the retired meta key ref_count_backfilled")?;
    warn_orphan_tables(conn, registry)?;
    run_conversions(conn, registry, locale_config)?;
    sync_search_indexes(conn, registry)?;
    if rebuilt.len() > 0 {
        assert_no_dangling_references(conn, rebuilt)?;
    }
    Ok(())
}

/// Begins a transaction that holds the write lock from its start.
pub open spec fn begin_step(s: SessionView) -> Step<()> {
    within(ask_done(s, RequestView::Begin), "Failed to start migration transaction"@)
}

fn begin_transaction(conn: &mut Session) -> (r: Result<(), DbError>)
    ensures
        (final(conn)@, out(r)) == begin_step(old(conn)@),
{
    add_context(conn.ask_done(Request::Begin), "Failed to start migration transaction")
}

/// Takes the lock that one sync at a time holds, until its transaction ends.
pub open spec fn lock_step(s: SessionView) -> Step<()> {
    within(
        ask_done(s, RequestView::AdvisoryLock { key: SCHEMA_SYNC_LOCK_KEY }),
        "Failed to acquire the schema-sync lock"@,
    )
}

fn take_lock(conn: &mut Session) -> (r: Result<(), DbError>)
    ensures
        (final(conn)@, out(r)) == lock_step(old(conn)@),
{
    add_context(
        conn.ask_done(Request::AdvisoryLock { key: SCHEMA_SYNC_LOCK_KEY }),
        "Failed to acquire the schema-sync lock",
    )
}

/// Ends a transaction: keeps what it did where all went well, undoes it where
/// not. `failed` says what it was that could not be kept.
pub open spec fn close_step(s: SessionView, result: Result<(), ErrorView>, failed: Seq<char>) -> Step<
    (),
> {
    match result {
        Ok(_) => within(ask_done(s, RequestView::Commit), failed),
        Err(e) => (ask_done(s, RequestView::Rollback).0, Err(e)),
    }
}

fn close_transaction(conn: &mut Session, result: Result<(), DbError>, failed: &str) -> (r: Result<
    (),
    DbError,
>)
    ensures
        (final(conn)@, out(r)) == close_step(old(conn)@, out(result), failed@),
{
    match result {
        Ok(_) => add_context(conn.ask_done(Request::Commit), failed),
        Err(e) => {
            let _ = conn.ask_done(Request::Rollback);
            Err(e)
        },
    }
}

/// Syncs under the lock, inside a transaction that has begun.
pub open spec fn locked_sync_step(
    s: SessionView,
    registry: Registry,
    config: LocaleConfig,
    rebuilt: Seq<Seq<char>>,
) -> Step<()> {
    let (s1, locked) = lock_step(s);
    match locked {
        Err(e) => (s1, Err(e)),
        Ok(_) => sync_body_step(s1, registry, config, rebuilt),
    }
}

/// Syncs in one transaction.
pub open spec fn run_sync_step(
    s: SessionView,
    registry: Registry,
    config: LocaleConfig,
    rebuilt: Seq<Seq<char>>,
) -> Step<()> {
    let (s1, begun) = begin_step(s);
    match begun {
        Err(e) => (s1, Err(e)),
        Ok(_) => {
            let (s2, r) = locked_sync_step(s1, registry, config, rebuilt);
            close_step(s2, r, "Failed to commit migration transaction"@)
        },
    }
}

fn locked_sync(
    conn: &mut Session,
    registry: &Registry,
    locale_config: &LocaleConfig,
    rebuilt: &Vec<String>,
) -> (r: Result<(), DbError>)
    ensures
        (final(conn)@, out(r)) == locked_sync_step(
            old(conn)@,
            *registry,
            *locale_config,
            rebuilt.deep_view(),
        ),
{
    take_lock(conn)?;
    sync_in_transaction(conn, registry, locale_config, rebuilt)
}

fn run_sync(
    conn: &mut Session,
    registry: &Registry,
    locale_config: &LocaleConfig,
    rebuilt: &Vec<String>,
) -> (r: Result<(), DbError>)
    ensures
        (final(conn)@, out(r)) == run_sync_step(
            old(conn)@,
            *registry,
            *locale_config,
            rebuilt.deep_view(),
        ),
{
    begin_transaction(conn)?;
    let result = locked_sync(conn, registry, locale_config, rebuilt);
    close_transaction(conn, result, "Failed to commit migration transaction")
}

/// Turns foreign keys back on after a sync, whatever came of it.
pub open spec fn restore_step(s: SessionView, result: Result<(), ErrorView>) -> Step<()> {
    let (s1, restored) = foreign_keys_step(s, true);
    match (result, restored) {
        (Err(sync), Err(restore)) => (
            s1.reported(
                "Failed to re-enable foreign keys after the failed schema sync: "@
                    + restore.message(),
            ),
            Err(sync),
        ),
        (Err(sync), Ok(_)) => (s1, Err(sync)),
        (Ok(_), restored) => (
            s1,
            with_context(
                restored,
                "Foreign-key enforcement could not be restored after the schema sync; refusing to serve with it off"@,
            ),
        ),
    }
}

fn restore_foreign_keys(conn: &mut Session, result: Result<(), DbError>) -> (r: Result<
    (),
    DbError,
>)
    ensures
        (final(conn)@, out(r)) == restore_step(old(conn)@, out(result)),
{
    let restored = set_foreign_keys(conn, true);
    match (result, restored) {
        (Err(sync), Err(restore)) => {
            let reason = restore.message();
            conn.report(
                cat2(
                    "Failed to re-enable foreign keys after the failed schema sync: ",
                    reason.as_str(),
                ),
            );
            Err(sync)
        },
        (Err(sync), Ok(_)) => Err(sync),
        (Ok(_), restored) => add_context(
            restored,
            "Foreign-key enforcement could not be restored after the schema sync; refusing to serve with it off",
        ),
    }
}

/// Syncs with foreign keys off, which is what making a table anew takes.
pub open spec fn sync_with_rebuilds_step(
    s: SessionView,
    registry: Registry,
    config: LocaleConfig,
    rebuilt: Seq<Seq<char>>,
) -> Step<()> {
    let (s1, off) = foreign_keys_step(s, false);
    match off {
        Err(e) => (s1, Err(e)),
        Ok(_) => {
            let (s2, r) = run_sync_step(s1, registry, config, rebuilt);
            restore_step(s2, r)
        },
    }
}

/// Brings a database to the definitions.
pub open spec fn sync_all_step(s: SessionView, registry: Registry, config: LocaleConfig) -> Step<()> {
    let (s1, connected) = connect_step(s, true);
    match connected {
        Err(e) => (s1, Err(e)),
        Ok(_) => {
            let (s2, rebuilt) = pending_rebuilds_step(s1, registry);
            match rebuilt {
                Err(e) => (s2, Err(e)),
                Ok(rebuilt) => if rebuilt.len() == 0 {
                    run_sync_step(s2, registry, config, rebuilt)
                } else {
                    sync_with_rebuilds_step(s2, registry, config, rebuilt)
                },
            }
        },
    }
}

/// Brings a database to the definitions, in one transaction that holds the write
/// lock from its start. Where a table has to be made anew, foreign keys are off
/// for the while: they cannot be turned off inside a transaction, and with them
/// on, dropping the old table would take the rows that point at it along. They
/// are turned back on whether or not the sync succeeded, since the connection
/// goes back to the pool.
pub fn sync_all(
    pool: &DbPool,
    conn: &mut Session,
    registry: &Registry,
    locale_config: &LocaleConfig,
) -> (r: Result<(), DbError>)
    ensures
        (final(conn)@, out(r)) == sync_all_step(old(conn)@, *registry, *locale_config),
{
    pool.connect(conn, true)?;
    let rebuilt = pending_rebuilds(conn, registry)?;
    if rebuilt.len() == 0 {
        return run_sync(conn, registry, locale_config, &rebuilt);
    }
    set_foreign_keys(conn, false)?;
    let result = run_sync(conn, registry, locale_config, &rebuilt);
    restore_foreign_keys(conn, result)
}

/// Drops every table and syncs under the lock, inside a transaction that has
/// begun.
pub open spec fn locked_recreate_step(
    s: SessionView,
    registry: Registry,
    config: LocaleConfig,
) -> Step<()> {
    let (s1, locked) = lock_step(s);
    match locked {
        Err(e) => (s1, Err(e)),
        Ok(_) => {
            let (s2, dropped) = drop_tables_step(s1);
            match dropped {
                Err(e) => (s2, Err(e)),
                Ok(_) => sync_body_step(s2, registry, config, Seq::empty()),
            }
        },
    }
}

/// Drops every table and makes the definitions' anew, in one transaction.
pub open spec fn recreate_all_step(s: SessionView, registry: Registry, config: LocaleConfig) -> Step<
    (),
> {
    let (s1, connected) = connect_step(s, true);
    match connected {
        Err(e) => (s1, Err(e)),
        Ok(_) => {
            let (s2, begun) = begin_step(s1);
            match begun {
                Err(e) => (s2, Err(e)),
                Ok(_) => {
                    let (s3, r) = locked_recreate_step(s2, registry, config);
                    close_step(s3, r, "Failed to commit the recreated schema"@)
                },
            }
        },
    }
}

fn locked_recreate(conn: &mut Session, registry: &Registry, locale_config: &LocaleConfig) -> (r:
    Result<(), DbError>)
    ensures
        (final(conn)@, out(r)) == locked_recreate_step(old(conn)@, *registry, *locale_config),
{
    take_lock(conn)?;
    drop_tables(conn)?;
    let none: Vec<String> = Vec::new();
    assert(none.deep_view() =~= Seq::<Seq<char>>::empty());
    sync_in_transaction(conn, registry, locale_config, &none)
}

/// Drops every table and makes the definitions' anew, in one transaction under
/// the lock: a failure anywhere leaves the database as it was, and a sync from
/// elsewhere waits.
pub fn recreate_all(
    pool: &DbPool,
    conn: &mut Session,
    registry: &Registry,
    locale_config: &LocaleConfig,
) -> (r: Result<(), DbError>)
    ensures
        (final(conn)@, out(r)) == recreate_all_step(old(conn)@, *registry, *locale_config),
{
    pool.connect(conn, true)?;
    begin_transaction(conn)?;
    let result = locked_recreate(conn, registry, locale_config);
    close_transaction(conn, result, "Failed to commit the recreated schema")
}

proof fn dangling_holds(rows: Seq<DbRowView>, rebuilt: Seq<Seq<char>>, table: Seq<char>)
    ensures
        dangling(rows, rebuilt).contains(table) <==> exists|k: int|
            0 <= k < rows.len() && points_at_rebuilt(#[trigger] rows[k], rebuilt, table),
    decreases rows.len(),
{
    if rows.len() > 0 {
        let before = rows.drop_last();
        dangling_holds(before, rebuilt, table);
        let last = rows.last();
        assert forall|k: int| 0 <= k < before.len() implies #[trigger] before[k] == rows[k] by {}
        if exists|k: int|
            0 <= k < before.len() && points_at_rebuilt(#[trigger] before[k], rebuilt, table) {
            let k = choose|k: int|
                0 <= k < before.len() && points_at_rebuilt(#[trigger] before[k], rebuilt, table);
            assert(points_at_rebuilt(rows[k], rebuilt, table));
        }
        if points_at_rebuilt(last, rebuilt, table) {
            assert(points_at_rebuilt(rows[rows.len() - 1], rebuilt, table));
        }
        if exists|k: int|
            0 <= k < rows.len() && points_at_rebuilt(#[trigger] rows[k], rebuilt, table) {
            let k = choose|k: int|
                0 <= k < rows.len() && points_at_rebuilt(#[trigger] rows[k], rebuilt, table);
            if k < before.len() {
                assert(points_at_rebuilt(before[k], rebuilt, table));
            } else {
                assert(points_at_rebuilt(last, rebuilt, table));
            }
        }
        if let Some(name) = last.text("table"@) {
            contains_pushed(dangling(before, rebuilt), name, table);
        }
    }
}

/// Whether a row of the check names `table` as pointing at nothing in one of the
/// rebuilt tables.
pub open spec fn points_at_rebuilt(
    row: DbRowView,
    rebuilt: Seq<Seq<char>>,
    table: Seq<char>,
) -> bool {
    &&& row.text("parent"@) is Some
    &&& rebuilt.contains(row.text("parent"@)->Some_0)
    &&& row.text("table"@) == Some(table)
}

/// The sync goes on exactly if no row points at nothing in a rebuilt table; rows
/// that point at nothing elsewhere do not count.
pub proof fn only_rebuilt_tables_are_checked(
    s: SessionView,
    rebuilt: Seq<Seq<char>>,
    rows: Seq<DbRowView>,
)
    requires
        query_all_step(s, "PRAGMA foreign_key_check"@, Seq::empty()).1 == Ok::<
            Seq<DbRowView>,
            ErrorView,
        >(rows),
    ensures
        no_dangling_step(s, rebuilt).1 is Ok <==> forall|k: int, table: Seq<char>|
            0 <= k < rows.len() ==> !#[trigger] points_at_rebuilt(rows[k], rebuilt, table),
{
    let found = dangling(rows, rebuilt);
    let tables = deduped(sorted(found));
    if tables.len() > 0 {
        let table = tables[0];
        deduped_holds_the_same(sorted(found), table);
        sorted_holds_the_same(found, table);
        dangling_holds(rows, rebuilt, table);
        assert(tables.contains(table));
        let k = choose|k: int|
            0 <= k < rows.len() && points_at_rebuilt(#[trigger] rows[k], rebuilt, table);
        assert(points_at_rebuilt(rows[k], rebuilt, table));
    } else {
        assert forall|k: int, table: Seq<char>| 0 <= k < rows.len() implies !#[trigger] points_at_rebuilt(
            rows[k],
            rebuilt,
            table,
        ) by {
            if points_at_rebuilt(rows[k], rebuilt, table) {
                dangling_holds(rows, rebuilt, table);
                sorted_holds_the_same(found, table);
                deduped_holds_the_same(sorted(found), table);
            }
        }
    }
}

/// A sync that fails inside its transaction undoes all it did there and reports why;
/// one that succeeds has kept it.
pub proof fn a_failed_sync_is_undone(
    s: SessionView,
    registry: Registry,
    config: LocaleConfig,
    rebuilt: Seq<Seq<char>>,
)
    requires
        begin_step(s).1 is Ok,
    ensures
        ({
            let begun = begin_step(s).0;
            let inside = locked_sync_step(begun, registry, config, rebuilt);
            let whole = run_sync_step(s, registry, config, rebuilt);
            &&& inside.1 matches Err(e) ==> whole == (
                inside.0.asked(RequestView::Rollback),
                Err::<(), ErrorView>(e),
            )
            &&& inside.1 is Ok ==> whole.0 == inside.0.asked(RequestView::Commit)
            &&& whole.1 is Ok ==> inside.1 is Ok && whole.0.sent.last() == RequestView::Commit
        }),
{
}

/// A recreation that fails anywhere leaves the database as it was: the drops it
/// sent are undone with everything else.
pub proof fn a_failed_recreation_is_undone(
    s: SessionView,
    registry: Registry,
    config: LocaleConfig,
)
    requires
        connect_step(s, true).1 is Ok,
        begin_step(connect_step(s, true).0).1 is Ok,
    ensures
        ({
            let begun = begin_step(connect_step(s, true).0).0;
            let inside = locked_recreate_step(begun, registry, config);
            let whole = recreate_all_step(s, registry, config);
            &&& inside.1 matches Err(e) ==> whole == (
                inside.0.asked(RequestView::Rollback),
                Err::<(), ErrorView>(e),
            )
            &&& whole.1 is Ok ==> inside.1 is Ok && whole.0.sent.last() == RequestView::Commit
        }),
{
}

/// Whatever comes of a sync that had foreign keys off, it ends by asking for them to
/// be on, and it succeeds only if that succeeded.
pub proof fn foreign_keys_come_back_on(
    s: SessionView,
    registry: Registry,
    config: LocaleConfig,
    rebuilt: Seq<Seq<char>>,
)
    requires
        foreign_keys_step(s, false).1 is Ok,
    ensures
        ({
            let whole = sync_with_rebuilds_step(s, registry, config, rebuilt);
            let off = foreign_keys_step(s, false).0;
            let inside = run_sync_step(off, registry, config, rebuilt);
            &&& whole.0.sent.last() == (RequestView::ExecuteBatch { sql: foreign_keys_sql(true) })
            &&& whole.1 is Ok ==> inside.1 is Ok && foreign_keys_step(inside.0, true).1 is Ok
            &&& inside.1 matches Err(e) ==> whole.1 == Err::<(), ErrorView>(e)
        }),
{
}

/// Nothing but Postgres's own ways is used there: no table is looked at for being
/// made anew.
pub proof fn postgres_rebuilds_nothing(s: SessionView, registry: Registry)
    requires
        s.dialect == Dialect::Postgres,
    ensures
        pending_rebuilds_step(s, registry) == (
            s,
            Ok::<Seq<Seq<char>>, ErrorView>(Seq::empty()),
        ),
{
}

} // verus!
