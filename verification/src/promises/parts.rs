//! What callers may count on of the smaller parts: names, columns, tables, pools and
//! statements.
use crate::definition::{
    CollectionDefinition, FieldDefinition, GlobalDefinition, LocaleConfig, Registry,
    collection_slugs, defined_at, global_slugs, place_of,
};
use crate::digest::short_digest;
use crate::document::{
    Document, DocumentView, flatten_group_fields, flattened, nest_group_fields, nested,
};
use crate::json::{Json, entries_view, json_view};
use crate::migrate::nested_timezone_dates;
use crate::migrate::helpers::alter::{
    add_column_if_missing, add_column_step, check_type_mismatch, type_mismatch, unaccounted,
    warn_orphan_columns,
};
use crate::migrate::helpers::column_specs::{
    ensure_locale_column, ensure_locale_column_step, field_ddl_type,
};
use crate::migrate::helpers::introspection::{
    get_table_columns, list_user_tables, table_exists, user_tables_step,
};
use crate::migrate::helpers::versions::{sync_versions_table, sync_versions_table_step};
use crate::migrate::identifier_check::{check_identifiers, identifier_checks};
use crate::migrate::inline_unique::{
    gate_pending, gate_pending_step, inline_unique_step, inline_unique_to_drop, mark_dropped,
};
use crate::migrate::join_tables::array::{sync_array_step, sync_array_table};
use crate::migrate::join_tables::blocks::{sync_blocks_step, sync_blocks_table};
use crate::migrate::join_tables::junction_shape::{
    JunctionShape, create_junction_step, create_junction_table, reconcile_junction_shape,
    reconcile_step,
};
use crate::migrate::join_tables::parent_index::{index_name, sync_index_step, sync_row_parent_index};
use crate::migrate::join_tables::relationship::{sync_relationship_step, sync_relationship_table};
use crate::migrate::locale_change::{
    ColumnPlan, LocaleShape, carries, carry_values_step, column_plans, default_locale_step,
    plans_for, record_shape_step, warn_on_default_locale_change,
};
use crate::migrate::nested_timezone_dates::date_from;
use crate::migrate::nullable_columns::{
    columns_to_relax, columns_to_relax_step, drop_not_null, mark_relaxed, relax_from,
};
use crate::migrate::orphan_tables::{
    OrphanTable, find_orphan_tables, find_orphans_step, warn_orphan_tables, warn_orphans_step,
};
use crate::migrate::sync::{
    assert_no_dangling_references, check_all_identifiers, check_all_step, no_dangling_step,
};
use crate::migrate::system_tables::{drain_legacy_image_queue, drain_step};
use crate::migrate::tracking::{get_pending_migrations, pending_step};
use crate::names::{
    escape_text, escaped, global_table, join_table, locale_column, locale_column_name, placeholder,
    quote_ident, quoted, tz_column, versions_table,
};
use crate::order::{sorted, sorted_holds_the_same};
use crate::pool::{DatabaseConfig, DbPool, create_pool, create_pool_step, sqlite_pragmas};
use crate::postgres::PgConnection;
use crate::promises::{
    after, first_mark, parameters_are_counted_from_one, record_removed, record_written, second_mark,
};
use crate::promises::alterations::{each_column_is_warned_of, what_no_field_accounts_for};
use crate::promises::lookups::{
    a_table_is_looked_for, asks_for_columns, asks_for_table, columns_are_looked_for,
};
use crate::promises::pools::connection_settings;
use crate::promises::records::what_is_stored_is_on_record;
use crate::promises::rows::kept_as;
use crate::promises::system::filled_in;
use crate::session::{Dialect, RequestView, Session};
use crate::snapshot::{
    LocaleContext, document_from_snapshot, resolve_snapshot_locale, resolved_fields,
    snapshot_document,
};
use crate::value::{DbError, ErrorView, out};
use vstd::prelude::*;

verus! {

/// Callers get names put together from the parts they give.
pub proof fn callers_get_their_names(a: &str, b: &str, r: String, dialect: Dialect)
    ensures
        call_ensures(quote_ident, (a,), r) ==> r@ == quoted(a@),
        call_ensures(escape_text, (a,), r) ==> r@ == escaped(a@),
        call_ensures(join_table, (a, b), r) ==> r@ == a@ + "_"@ + b@,
        call_ensures(global_table, (a,), r) ==> r@ == "_global_"@ + a@,
        call_ensures(versions_table, (a,), r) ==> r@ == "_versions_"@ + a@,
        call_ensures(tz_column, (a,), r) ==> r@ == a@ + "_tz"@,
        call_ensures(placeholder, (dialect, 1u64), r) ==> r@ == first_mark(dialect),
        call_ensures(placeholder, (dialect, 2u64), r) ==> r@ == second_mark(dialect),
{
    parameters_are_counted_from_one(dialect);
}

/// Callers get a locale's column, and are refused a locale that has none.
pub proof fn callers_get_their_locale_columns(
    base: &str,
    locale: &str,
    is_localized: bool,
    config: &LocaleConfig,
    r: Result<String, DbError>,
    plans: Result<Vec<ColumnPlan>, DbError>,
)
    ensures
        call_ensures(locale_column, (base, locale), r) ==> out(r) == locale_column_name(
            base@,
            locale@,
        ),
        call_ensures(column_plans, (base, is_localized, config), plans) ==> out(plans) == plans_for(
            base@,
            is_localized,
            *config,
        ),
{
}

/// Callers look up tables and columns by the names they give.
pub proof fn callers_look_up_by_name(
    conn: &mut Session,
    table: &str,
    there: Result<bool, DbError>,
    columns: Result<Vec<String>, DbError>,
)
    ensures
        call_ensures(table_exists, (conn, table), there) ==> final(conn)@ == after(
            old(conn)@,
            seq![asks_for_table(old(conn)@.dialect, table@)],
        ),
        call_ensures(get_table_columns, (conn, table), columns) ==> final(conn)@ == after(
            old(conn)@,
            seq![asks_for_columns(old(conn)@.dialect, table@)],
        ),
        call_ensures(list_user_tables, (conn,), columns) ==> (final(conn)@, out(columns))
            == user_tables_step(old(conn)@),
{
    a_table_is_looked_for(old(conn)@, table@, Seq::empty());
    columns_are_looked_for(old(conn)@, table@, Seq::empty());
}

/// Callers that mark a pass over a collection as done have that on record for it.
pub proof fn callers_mark_what_is_done(
    conn: &mut Session,
    slug: &str,
    key: &str,
    r: Result<(), DbError>,
    pending: Result<bool, DbError>,
    unique: Result<Option<bool>, DbError>,
    columns: Result<Option<Vec<String>>, DbError>,
)
    ensures
        ({
            let s = old(conn)@;
            let dropped = "inline_unique:"@ + slug@;
            let relaxed = "nullable_columns:"@ + slug@;
            &&& call_ensures(mark_dropped, (conn, slug), r) && r is Ok ==> final(conn)@ == after(
                s,
                seq![
                    record_removed(s.dialect, dropped),
                    record_written(s.dialect, dropped, "1"@),
                ],
            )
            &&& call_ensures(mark_relaxed, (conn, slug), r) && r is Ok ==> final(conn)@ == after(
                s,
                seq![
                    record_removed(s.dialect, relaxed),
                    record_written(s.dialect, relaxed, "1"@),
                ],
            )
            &&& call_ensures(gate_pending, (conn, key), pending) ==> (final(conn)@, out(pending))
                == gate_pending_step(s, key@)
            &&& call_ensures(inline_unique_to_drop, (conn, slug), unique) ==> (
                final(conn)@,
                out(unique),
            ) == inline_unique_step(s, slug@)
            &&& call_ensures(columns_to_relax, (conn, slug), columns) ==> (
                final(conn)@,
                out(columns),
            ) == columns_to_relax_step(s, slug@)
        }),
{
    what_is_stored_is_on_record(old(conn)@, "inline_unique:"@ + slug@, "1"@);
    what_is_stored_is_on_record(old(conn)@, "nullable_columns:"@ + slug@, "1"@);
}

/// Callers alter the tables they name, by the columns they name.
pub proof fn callers_alter_their_tables(
    conn: &mut Session,
    table: &str,
    name: &str,
    definition: &str,
    existing: &Vec<String>,
    plan: &ColumnPlan,
    r: Result<(), DbError>,
)
    ensures
        ({
            let s = old(conn)@;
            let done = (final(conn)@, out(r));
            &&& call_ensures(add_column_if_missing, (conn, table, name, definition, existing), r)
                ==> done == add_column_step(
                s,
                table@,
                name@,
                definition@,
                existing.deep_view(),
            )
            &&& call_ensures(ensure_locale_column, (conn, table, name), r) ==> done
                == ensure_locale_column_step(s, table@, name@)
            &&& call_ensures(drop_not_null, (conn, table, existing), r) ==> done == relax_from(
                s,
                table@,
                existing.deep_view(),
                0,
            )
            &&& call_ensures(sync_versions_table, (conn, table), r) ==> done
                == sync_versions_table_step(s, table@)
            &&& call_ensures(ColumnPlan::carry_values, (plan, conn, table, existing), r) ==> done
                == carry_values_step(s, plan.deep_view(), table@, existing.deep_view())
        }),
{
}

/// Callers have their definitions checked, and what is left over found.
pub proof fn callers_have_definitions_checked(
    conn: &mut Session,
    registry: &Registry,
    table: &str,
    fields: &Vec<FieldDefinition>,
    config: &LocaleConfig,
    types: &Vec<(String, String)>,
    name: &str,
    expected: &str,
    found: Result<Vec<OrphanTable>, DbError>,
    r: Result<(), DbError>,
)
    ensures
        call_ensures(check_identifiers, (table, fields, config), r) ==> out(r) == identifier_checks(
            table@,
            fields@,
            *config,
        ),
        call_ensures(check_type_mismatch, (table, types, name, expected), r) ==> out(r)
            == type_mismatch(table@, types.deep_view(), name@, expected@),
        call_ensures(find_orphan_tables, (conn, registry), found) ==> (final(conn)@, out(found))
            == find_orphans_step(old(conn)@, *registry),
        call_ensures(warn_orphan_tables, (conn, registry), r) ==> (final(conn)@, out(r))
            == warn_orphans_step(old(conn)@, *registry),
{
}

/// Callers take connections for what they ask, and open pools as configured.
pub proof fn callers_have_their_pools(
    pool: &DbPool,
    conn: &mut Session,
    config_dir: &str,
    config: &DatabaseConfig,
    opened: Result<DbPool, DbError>,
    r: Result<(), DbError>,
    text: String,
)
    ensures
        call_ensures(DbPool::get, (pool, conn), r) ==> final(conn)@ == old(conn)@.asked(
            RequestView::Connect { write: false },
        ),
        call_ensures(DbPool::write, (pool, conn), r) ==> final(conn)@ == old(conn)@.asked(
            RequestView::Connect { write: true },
        ),
        call_ensures(create_pool, (conn, config_dir, config), opened) ==> (
            final(conn)@,
            out(opened),
        ) == create_pool_step(old(conn)@, config_dir@, *config),
        call_ensures(sqlite_pragmas, (config,), text) ==> text@ == connection_settings(*config),
{
}

/// Callers get the document that a version holds, and values in and out of groups.
pub proof fn callers_get_what_documents_hold(
    id: &str,
    snapshot: &Json,
    entries: &Vec<(String, Json)>,
    defs: &Vec<FieldDefinition>,
    document: Option<Document>,
    values: Vec<(String, Json)>,
)
    ensures
        call_ensures(document_from_snapshot, (id, snapshot), document) ==> document.deep_view()
            == snapshot_document(id@, json_view(*snapshot)),
        call_ensures(flatten_group_fields, (entries, defs), values) ==> entries_view(values@)
            == flattened(entries_view(entries@), defs@, Seq::empty()),
        call_ensures(nest_group_fields, (entries, defs), values) ==> entries_view(values@)
            == nested(entries_view(entries@), defs@),
{
}

/// What Postgres writes in its own way, callers get in that way.
pub proof fn callers_get_what_postgres_writes(
    pg: &PgConnection,
    a: &str,
    b: &str,
    c: &str,
    text: String,
    word: &'static str,
    yes: bool,
)
    ensures
        call_ensures(PgConnection::now_expr, (pg,), word) ==> word@
            == "to_char(NOW(), 'YYYY-MM-DD\"T\"HH24:MI:SS.MS\"Z\"')"@,
        call_ensures(PgConnection::greatest_expr, (pg, a, b), text) ==> text@ == "GREATEST("@ + a@
            + ", "@ + b@ + ")"@,
        call_ensures(PgConnection::json_extract_expr, (pg, a, b), text) ==> text@ == a@
            + "::jsonb->>'"@ + b@ + "'"@,
        call_ensures(PgConnection::json_each_source, (pg, a, b), text) ==> text@
            == "jsonb_array_elements_text("@ + a@ + ") AS "@ + b@,
        call_ensures(PgConnection::build_insert_ignore, (pg, a, b, c), text) ==> text@
            == "INSERT INTO \""@ + a@ + "\" ("@ + b@ + ") VALUES ("@ + c@
            + ") ON CONFLICT DO NOTHING"@,
        call_ensures(PgConnection::like_operator, (pg,), word) ==> word@ == "ILIKE"@,
        call_ensures(PgConnection::kind, (pg,), word) ==> word@ == "postgres"@,
        call_ensures(PgConnection::supports_fts, (pg,), yes) ==> yes,
        call_ensures(PgConnection::supports_drop_column, (pg,), yes) ==> yes,
        call_ensures(PgConnection::normalize_timestamp, (pg, a), text) ==> text@ == a@,
{
}

/// Callers have a version's values resolved for the locale they read in; where they cannot
/// be, the document stays as it is.
pub proof fn callers_read_versions_in_their_locale(
    doc: &mut Document,
    fields: &Vec<FieldDefinition>,
    ctx: Option<&LocaleContext>,
    r: Result<(), DbError>,
)
    requires
        call_ensures(resolve_snapshot_locale, (doc, fields, ctx), r),
    ensures
        ({
            let read = match ctx {
                Some(c) => Some(*c),
                None => None,
            };
            let before = old(doc).deep_view();
            match resolved_fields(before.fields, fields@, read) {
                Ok(resolved) => r is Ok && final(doc).deep_view() == (DocumentView {
                    fields: resolved,
                    ..before
                }),
                Err(e) => out(r) == Err::<(), ErrorView>(e) && final(doc).deep_view() == before,
            }
        }),
{
}

/// Callers are told of every column that no field accounts for, by name, once.
pub proof fn callers_are_told_of_columns_left_over(
    conn: &mut Session,
    table: &str,
    existing: &Vec<String>,
    expected: &Vec<String>,
    column: Seq<char>,
)
    requires
        call_ensures(warn_orphan_columns, (conn, table, existing, expected), ()),
        existing.deep_view().contains(column),
        !expected.deep_view().contains(column),
        column.len() > 0,
        column[0] != '_',
        column != "id"@,
        column != "created_at"@,
        column != "updated_at"@,
    ensures
        final(conn)@.sent == old(conn)@.sent,
        final(conn)@.warnings.contains(
            "Column '"@ + column + "' exists in table '"@ + table@
                + "' but not in Lua definition (not removed)"@,
        ),
{
    let found = unaccounted(existing.deep_view(), expected.deep_view());
    let listed = sorted(found);
    what_no_field_accounts_for(existing.deep_view(), expected.deep_view(), column);
    sorted_holds_the_same(found, column);
    let k = choose|k: int| 0 <= k < listed.len() && listed[k] == column;
    each_column_is_warned_of(old(conn)@, table@, listed, 0);
    let told = Seq::new(
        listed.len(),
        |k: int|
            "Column '"@ + listed[0 + k] + "' exists in table '"@ + table@
                + "' but not in Lua definition (not removed)"@,
    );
    assert(final(conn)@.warnings =~= old(conn)@.warnings + told);
    assert(final(conn)@.warnings[old(conn)@.warnings.len() + k] == told[k]);
}

/// Callers learn from a table's record which values have to move, and have it recorded.
pub proof fn callers_move_what_changed(
    shape: &LocaleShape,
    conn: &mut Session,
    table: &str,
    column: &str,
    created: bool,
    moves: bool,
    r: Result<(), DbError>,
)
    ensures
        call_ensures(LocaleShape::must_carry, (shape, column, created), moves) ==> moves == carries(
            shape.deep_view(),
            column@,
            created,
        ),
        call_ensures(LocaleShape::record, (shape, conn, table), r) ==> (final(conn)@, out(r))
            == record_shape_step(old(conn)@, shape.deep_view(), table@),
{
}

/// Callers learn of a field where its value is kept, of what type, and what beside it.
pub proof fn callers_learn_how_fields_are_kept(
    field: &FieldDefinition,
    dialect: Dialect,
    name: &str,
    yes: bool,
    beside: Vec<String>,
    word: &'static str,
)
    ensures
        call_ensures(FieldDefinition::has_parent_column, (field,), yes) ==> yes
            == field.in_parent(),
        call_ensures(FieldDefinition::is_has_many_scalar, (field,), yes) ==> yes
            == field.scalar_list(),
        call_ensures(FieldDefinition::companion_columns, (field, name), beside)
            ==> beside.deep_view() == field.companions(name@),
        call_ensures(field_ddl_type, (dialect, field), word) ==> word@ == kept_as(dialect, *field),
        call_ensures(Dialect::timestamp_column_default, (dialect,), word) ==> word@ == filled_in(
            dialect,
        ),
{
}

/// Callers define collections and globals, each in place of the one of its slug.
pub proof fn callers_define_by_slug(
    registry: &mut Registry,
    collection: CollectionDefinition,
    global: GlobalDefinition,
)
    ensures
        call_ensures(Registry::register_collection, (registry, collection), ()) ==> final(registry).collections@
            == defined_at(
            old(registry).collections@,
            place_of(collection_slugs(old(registry).collections@), collection.slug@),
            collection,
        ) && final(registry).globals == old(registry).globals,
        call_ensures(Registry::register_global, (registry, global), ()) ==> final(registry).globals@
            == defined_at(
            old(registry).globals@,
            place_of(global_slugs(old(registry).globals@), global.slug@),
            global,
        ) && final(registry).collections == old(registry).collections,
{
}

/// Callers have the tables of a field's rows made, each by its own name and for its own
/// collection, and their indexes.
pub proof fn callers_have_a_fields_table(
    conn: &mut Session,
    slug: &str,
    field: &FieldDefinition,
    name: &str,
    localized: bool,
    config: &LocaleConfig,
    shape: &JunctionShape,
    r: Result<(), DbError>,
)
    ensures
        ({
            let s = old(conn)@;
            let done = (final(conn)@, out(r));
            &&& call_ensures(sync_array_table, (conn, slug, field, name, localized, config), r)
                ==> done == sync_array_step(s, slug@, *field, name@, localized, *config)
            &&& call_ensures(sync_blocks_table, (conn, slug, name, localized, config), r) ==> done
                == sync_blocks_step(s, slug@, name@, localized, *config)
            &&& call_ensures(
                sync_relationship_table,
                (conn, slug, field, name, localized, config),
                r,
            ) ==> done == sync_relationship_step(
                s,
                slug@,
                field.relationship,
                name@,
                localized,
                *config,
            )
            &&& call_ensures(create_junction_table, (conn, name, slug, shape), r) ==> done
                == create_junction_step(s, name@, slug@, shape.deep_view())
            &&& call_ensures(reconcile_junction_shape, (conn, name, slug, shape), r) ==> done
                == reconcile_step(s, name@, slug@, shape.deep_view())
            &&& call_ensures(sync_row_parent_index, (conn, name, localized), r) ==> done
                == sync_index_step(
                s,
                name@,
                localized,
                index_name(name@, localized, short_digest(name@)),
            )
        }),
{
}

/// Callers have what is pending told from the files they name, and dates converted in all
/// that they define.
pub proof fn callers_have_what_is_pending(
    pool: &DbPool,
    conn: &mut Session,
    files: &Vec<String>,
    registry: &Registry,
    config: &LocaleConfig,
    rebuilt: &Vec<String>,
    names: Result<Vec<String>, DbError>,
    r: Result<(), DbError>,
)
    ensures
        call_ensures(get_pending_migrations, (pool, conn, files), names) ==> (
            final(conn)@,
            out(names),
        ) == pending_step(old(conn)@, files.deep_view()),
        call_ensures(nested_timezone_dates::convert_if_needed, (conn, registry), r) ==> (
            final(conn)@,
            out(r),
        ) == date_from(old(conn)@, *registry, 0),
        call_ensures(warn_on_default_locale_change, (conn, registry, config), r) ==> (
            final(conn)@,
            out(r),
        ) == default_locale_step(old(conn)@, *registry, *config),
        call_ensures(check_all_identifiers, (conn, registry, config), r) ==> (
            final(conn)@,
            out(r),
        ) == check_all_step(old(conn)@, *registry, *config),
        call_ensures(assert_no_dangling_references, (conn, rebuilt), r) ==> (final(conn)@, out(r))
            == no_dangling_step(old(conn)@, rebuilt.deep_view()),
        call_ensures(drain_legacy_image_queue, (conn,), r) ==> (final(conn)@, out(r))
            == drain_step(old(conn)@),
{
}

} // verus!
