//! What callers may count on: what each operation, called as it is, has sent and answers.
use crate::definition::{
    CollectionDefinition, FieldDefinition, GlobalDefinition, LocaleConfig, Registry,
    RelationshipConfig, leaves,
};
use crate::document::Document;
use crate::migrate::{meta, nested_values};
use crate::migrate::join_tables::locale_rows::sync_locale_rows;
use crate::migrate::join_tables::orchestrator::sync_join_tables;
use crate::migrate::legacy_timestamps::normalize_if_needed;
use crate::migrate::reference_cardinality::carry_if_needed;
use crate::migrate::relationship_target::track_target;
use crate::migrate::search_index::{invalidate, sync_search_indexes};
use crate::migrate::sync::{recreate_all, sync_all};
use crate::migrate::system_tables::create_system_tables;
use crate::migrate::tracking::{
    drop_all_tables, get_applied_migrations, get_applied_migrations_desc, record_migration,
    remove_migration,
};
use crate::ops::{
    FindByIdFullParams, count_documents, find_by_id_full, find_by_id_full_step, find_document_by_id,
    find_documents, get_global,
};
use crate::pool::DbPool;
use crate::promises::{
    after, answered, first_mark, on_record, parameters_are_counted_from_one, record_read,
    record_removed, record_written,
};
use crate::promises::conversions::{every_old_timestamp_is_rewritten, timestamps_kept};
use crate::promises::migrations::{
    all_dropped, every_table_goes_over_a_connection, migrations_are_recorded_by_name, started_over,
    starting_over_is_whole,
};
use crate::promises::nested::{all_nested_kept, every_nested_value_is_typed};
use crate::promises::reads::{
    a_count_is_by_its_filters, a_document_is_read_by_its_id, a_global_is_read_by_its_slug,
    a_search_is_by_its_query,
};
use crate::promises::records::{a_record_is_removed_by_its_key, what_is_stored_is_on_record};
use crate::promises::references::{all_references_kept, every_reference_is_kept};
use crate::promises::search::{every_index_is_kept, index_kept};
use crate::promises::sync::{a_sync_is_whole, whole_sync};
use crate::promises::system::{system_made, the_library_has_its_tables};
use crate::promises::tables::{
    every_row_table_is_kept, locale_kept, locales_of_rows_are_recorded, pointed_at, rows_kept,
    targets_are_recorded,
};
use crate::query::{FilterClause, FindQuery, context_view};
use crate::session::{Dialect, ReplyView, RequestView, Session};
use crate::snapshot::LocaleContext;
use crate::value::{DbError, DbValueView, out};
use vstd::prelude::*;

verus! {

/// A caller that counts documents has its own filters asked for, in its own collection and
/// locale, and gets the number answered.
pub proof fn callers_count_by_their_filters(
    pool: &DbPool,
    conn: &mut Session,
    slug: &str,
    def: &CollectionDefinition,
    filters: Vec<FilterClause>,
    ctx: Option<&LocaleContext>,
    r: Result<i64, DbError>,
    n: i64,
)
    requires
        call_ensures(count_documents, (pool, conn, slug, def, filters, ctx), r),
        answered(old(conn)@, 0, ReplyView::Done),
        answered(old(conn)@, 1, ReplyView::Integer(n)),
    ensures
        r == Ok::<i64, DbError>(n),
        final(conn)@ == after(
            old(conn)@,
            seq![
                RequestView::Connect { write: false },
                RequestView::CountDocuments {
                    slug: slug@,
                    definition: def.deep_view(),
                    filters: filters.deep_view(),
                    locale: context_view(ctx),
                },
            ],
        ),
{
    a_count_is_by_its_filters(
        old(conn)@,
        slug@,
        def.deep_view(),
        filters.deep_view(),
        context_view(ctx),
        n,
        Seq::empty(),
    );
}

/// A caller that searches has its own query asked for, and gets the documents answered.
pub proof fn callers_search_by_their_query(
    pool: &DbPool,
    conn: &mut Session,
    slug: &str,
    def: &CollectionDefinition,
    query: FindQuery,
    ctx: Option<&LocaleContext>,
    r: Result<Vec<Document>, DbError>,
    found: Vec<Document>,
)
    requires
        call_ensures(find_documents, (pool, conn, slug, def, query, ctx), r),
        answered(old(conn)@, 0, ReplyView::Done),
        answered(old(conn)@, 1, ReplyView::Documents(found.deep_view())),
    ensures
        r matches Ok(all) && all.deep_view() == found.deep_view(),
        final(conn)@ == after(
            old(conn)@,
            seq![
                RequestView::Connect { write: false },
                RequestView::Find {
                    slug: slug@,
                    definition: def.deep_view(),
                    query: query.deep_view(),
                    locale: context_view(ctx),
                },
            ],
        ),
{
    a_search_is_by_its_query(
        old(conn)@,
        slug@,
        def.deep_view(),
        query.deep_view(),
        context_view(ctx),
        found.deep_view(),
        Seq::empty(),
    );
}

/// A caller that reads a document by its id has that id asked for, and gets the document
/// answered.
pub proof fn callers_read_by_their_id(
    pool: &DbPool,
    conn: &mut Session,
    slug: &str,
    def: &CollectionDefinition,
    id: &str,
    ctx: Option<&LocaleContext>,
    r: Result<Option<Document>, DbError>,
    found: Option<Document>,
)
    requires
        call_ensures(find_document_by_id, (pool, conn, slug, def, id, ctx), r),
        answered(old(conn)@, 0, ReplyView::Done),
        answered(old(conn)@, 1, ReplyView::Document(found.deep_view())),
    ensures
        r matches Ok(one) && one.deep_view() == found.deep_view(),
        final(conn)@ == after(
            old(conn)@,
            seq![
                RequestView::Connect { write: false },
                RequestView::FindById {
                    slug: slug@,
                    definition: def.deep_view(),
                    id: id@,
                    locale: context_view(ctx),
                },
            ],
        ),
{
    a_document_is_read_by_its_id(
        old(conn)@,
        slug@,
        def.deep_view(),
        id@,
        context_view(ctx),
        found.deep_view(),
        Seq::empty(),
    );
}

/// A caller that reads a global has that one asked for, and gets its document.
pub proof fn callers_read_their_global(
    pool: &DbPool,
    conn: &mut Session,
    slug: &str,
    def: &GlobalDefinition,
    ctx: Option<&LocaleContext>,
    r: Result<Document, DbError>,
    found: Document,
)
    requires
        call_ensures(get_global, (pool, conn, slug, def, ctx), r),
        answered(old(conn)@, 0, ReplyView::Done),
        answered(old(conn)@, 1, ReplyView::Document(Some(found.deep_view()))),
    ensures
        r matches Ok(one) && one.deep_view() == found.deep_view(),
        final(conn)@ == after(
            old(conn)@,
            seq![
                RequestView::Connect { write: false },
                RequestView::GetGlobal {
                    slug: slug@,
                    definition: def.deep_view(),
                    locale: context_view(ctx),
                },
            ],
        ),
{
    a_global_is_read_by_its_slug(
        old(conn)@,
        slug@,
        def.deep_view(),
        context_view(ctx),
        found.deep_view(),
        Seq::empty(),
    );
}

/// A caller that reads a document in full has what it asked for read, as a whole.
pub proof fn callers_read_in_full<'a>(
    conn: &mut Session,
    p: FindByIdFullParams<'a>,
    r: Result<Option<Document>, DbError>,
)
    requires
        call_ensures(find_by_id_full, (conn, p), r),
    ensures
        (final(conn)@, out(r)) == find_by_id_full_step(old(conn)@, p.view()),
{
}

/// A caller whose sync succeeded has had a whole one: of every collection and every
/// global, in one transaction, through every stage.
pub proof fn callers_have_a_whole_sync(
    pool: &DbPool,
    conn: &mut Session,
    registry: &Registry,
    config: &LocaleConfig,
    r: Result<(), DbError>,
)
    ensures
        call_ensures(sync_all, (pool, conn, registry, config), r) && r is Ok ==> exists|
            begun: int,
            ended: int,
        | #[trigger]
            whole_sync(
                final(conn)@,
                old(conn)@.sent.len() as int,
                begun,
                ended,
                *registry,
                *config,
            ),
        call_ensures(recreate_all, (pool, conn, registry, config), r) && r is Ok ==> exists|
            synced_from: int,
        | #[trigger]
            started_over(
                final(conn)@,
                old(conn)@.sent.len() as int,
                synced_from,
                *registry,
                *config,
            ),
{
    if call_ensures(sync_all, (pool, conn, registry, config), r) && r is Ok {
        a_sync_is_whole(old(conn)@, *registry, *config);
    }
    if call_ensures(recreate_all, (pool, conn, registry, config), r) && r is Ok {
        starting_over_is_whole(old(conn)@, *registry, *config);
    }
}

/// A caller that has references carried has what those of every collection and of every
/// global are on record.
pub proof fn callers_have_references_carried(
    conn: &mut Session,
    registry: &Registry,
    config: &LocaleConfig,
    r: Result<(), DbError>,
)
    requires
        call_ensures(carry_if_needed, (conn, registry, config), r),
        r is Ok,
    ensures
        all_references_kept(
            final(conn)@,
            old(conn)@.sent.len() as int,
            final(conn)@.sent.len() as int,
            *registry,
            *config,
        ),
{
    every_reference_is_kept(old(conn)@, *registry, *config);
}

/// A caller that has search indexes synced has that of every collection built from the
/// shape it has; one that marks an index stale has its record removed.
pub proof fn callers_have_search_indexes_synced(
    conn: &mut Session,
    registry: &Registry,
    slug: &str,
    r: Result<(), DbError>,
    c: int,
)
    ensures
        call_ensures(sync_search_indexes, (conn, registry), r) && r is Ok && 0 <= c
            < registry.collections@.len() ==> index_kept(
            final(conn)@,
            old(conn)@.sent.len() as int,
            final(conn)@.sent.len() as int,
            registry.collections@[c].slug@,
        ),
        call_ensures(invalidate, (conn, slug), r) ==> final(conn)@ == after(
            old(conn)@,
            seq![record_removed(old(conn)@.dialect, "fts_shape:"@ + slug@)],
        ),
{
    if call_ensures(sync_search_indexes, (conn, registry), r) && r is Ok && 0 <= c
        < registry.collections@.len() {
        every_index_is_kept(old(conn)@, registry.collections@, 0, c);
    }
    a_record_is_removed_by_its_key(old(conn)@, "fts_shape:"@ + slug@, 0, Seq::empty());
}

/// A caller that has old timestamps rewritten, or values in rows typed, has them so in
/// every collection and in every global.
pub proof fn callers_have_stored_values_converted(
    conn: &mut Session,
    registry: &Registry,
    r: Result<(), DbError>,
)
    ensures
        call_ensures(normalize_if_needed, (conn, registry), r) && r is Ok && old(conn)@.dialect
            == Dialect::Sqlite ==> timestamps_kept(
            final(conn)@,
            old(conn)@.sent.len() as int,
            final(conn)@.sent.len() as int,
            *registry,
        ),
        call_ensures(nested_values::convert_if_needed, (conn, registry), r) && r is Ok
            ==> all_nested_kept(
            final(conn)@,
            old(conn)@.sent.len() as int,
            final(conn)@.sent.len() as int,
            *registry,
        ),
{
    every_old_timestamp_is_rewritten(old(conn)@, *registry);
    every_nested_value_is_typed(old(conn)@, *registry);
}

/// A caller that has the tables of a definition's rows synced has that of each field, with
/// rows that go with their document.
pub proof fn callers_have_row_tables(
    conn: &mut Session,
    slug: &str,
    fields: &Vec<FieldDefinition>,
    config: &LocaleConfig,
    r: Result<(), DbError>,
    m: int,
)
    requires
        call_ensures(sync_join_tables, (conn, slug, fields, config), r),
        r is Ok,
        0 <= m < leaves(fields@, Seq::empty(), false).len(),
    ensures
        rows_kept(
            final(conn)@,
            old(conn)@.sent.len() as int,
            final(conn)@.sent.len() as int,
            slug@,
            leaves(fields@, Seq::empty(), false)[m],
            *config,
        ),
{
    every_row_table_is_kept(old(conn)@, slug@, fields@, *config, m);
}

/// A caller that says what a table keeps, or what its rows point at, has it on record.
pub proof fn callers_have_tables_on_record(
    conn: &mut Session,
    table: &str,
    per_locale: bool,
    config: &LocaleConfig,
    rc: &RelationshipConfig,
    r: Result<(), DbError>,
)
    ensures
        call_ensures(sync_locale_rows, (conn, table, per_locale, config), r) && r is Ok
            ==> locale_kept(
            final(conn)@,
            old(conn)@.sent.len() as int,
            final(conn)@.sent.len() as int,
            table@,
            per_locale,
        ),
        call_ensures(track_target, (conn, table, rc), r) && r is Ok ==> on_record(
            final(conn)@,
            old(conn)@.sent.len() as int,
            final(conn)@.sent.len() as int,
            "relationship_target:"@ + table@,
            pointed_at(*rc),
        ),
{
    locales_of_rows_are_recorded(old(conn)@, table@, per_locale, config.default_locale@);
    targets_are_recorded(old(conn)@, table@, *rc);
}

/// A caller that makes the library's own tables has all of them.
pub proof fn callers_have_the_librarys_tables(conn: &mut Session, r: Result<(), DbError>)
    requires
        call_ensures(create_system_tables, (conn,), r),
        r is Ok,
    ensures
        system_made(
            final(conn)@,
            old(conn)@.sent.len() as int,
            final(conn)@.sent.len() as int,
        ),
{
    the_library_has_its_tables(old(conn)@);
}

/// A caller reads, removes and stores records by its own key.
pub proof fn callers_keep_records(
    conn: &mut Session,
    key: &str,
    value: &str,
    read: Result<Option<String>, DbError>,
    r: Result<(), DbError>,
)
    ensures
        call_ensures(meta::get, (conn, key), read) ==> final(conn)@ == after(
            old(conn)@,
            seq![record_read(old(conn)@.dialect, key@)],
        ),
        call_ensures(meta::delete, (conn, key), r) ==> final(conn)@ == after(
            old(conn)@,
            seq![record_removed(old(conn)@.dialect, key@)],
        ),
        call_ensures(meta::upsert, (conn, key, value), r) && r is Ok ==> final(conn)@ == after(
            old(conn)@,
            seq![
                record_removed(old(conn)@.dialect, key@),
                record_written(old(conn)@.dialect, key@, value@),
            ],
        ),
{
    parameters_are_counted_from_one(old(conn)@.dialect);
    let s = old(conn)@;
    let asked = record_read(s.dialect, key@);
    assert(s.sent.push(asked) =~= s.sent + seq![asked]);
    a_record_is_removed_by_its_key(s, key@, 0, Seq::empty());
    what_is_stored_is_on_record(s, key@, value@);
}

/// A caller that asks for applied migrations has all of them asked for, in no order or the
/// latest first; one that records or removes a migration has it done by the file's name.
pub proof fn callers_keep_migrations(
    pool: &DbPool,
    conn: &mut Session,
    filename: &str,
    names: Result<Vec<String>, DbError>,
    r: Result<(), DbError>,
)
    ensures
        ({
            let s = old(conn)@;
            let end = final(conn)@;
            let looked = s.sent.push(RequestView::Connect { write: false }).push(
                RequestView::TableExists { table: "_crap_migrations"@ },
            );
            let there = s.dialect == Dialect::Sqlite && answered(s, 0, ReplyView::Done) && answered(
                s,
                1,
                ReplyView::Flag(true),
            );
            &&& there && call_ensures(get_applied_migrations, (pool, conn), names) ==> end.sent
                == looked.push(
                RequestView::QueryAll {
                    sql: "SELECT filename FROM _crap_migrations"@,
                    params: Seq::empty(),
                },
            )
            &&& there && call_ensures(get_applied_migrations_desc, (pool, conn), names) ==> end.sent
                == looked.push(
                RequestView::QueryAll {
                    sql: "SELECT filename FROM _crap_migrations ORDER BY applied_at DESC, filename DESC"@,
                    params: Seq::empty(),
                },
            )
            &&& call_ensures(record_migration, (conn, filename), r) ==> final(conn)@ == after(
                s,
                seq![
                    RequestView::Execute {
                        sql: "INSERT INTO _crap_migrations (filename) VALUES ("@ + first_mark(
                            s.dialect,
                        ) + ")"@,
                        params: seq![DbValueView::Text(filename@)],
                    },
                ],
            )
            &&& call_ensures(remove_migration, (conn, filename), r) ==> final(conn)@ == after(
                s,
                seq![
                    RequestView::Execute {
                        sql: "DELETE FROM _crap_migrations WHERE filename = "@ + first_mark(
                            s.dialect,
                        ),
                        params: seq![DbValueView::Text(filename@)],
                    },
                ],
            )
            &&& call_ensures(drop_all_tables, (pool, conn), r) && r is Ok ==> all_dropped(
                final(conn)@,
                s.sent.len() as int + 1,
                final(conn)@.sent.len() as int,
            )
        }),
{
    migrations_are_recorded_by_name(old(conn)@, filename@, 0, Seq::empty());
    every_table_goes_over_a_connection(old(conn)@);
}

} // verus!
