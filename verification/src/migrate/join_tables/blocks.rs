//! The tables holding the rows of blocks fields.
use crate::definition::LocaleConfig;
use crate::digest::short_digest;
use crate::migrate::helpers::column_specs::{
    ensure_locale_column, ensure_locale_column_step, locale_column_def, locale_column_definition,
};
use crate::migrate::helpers::introspection::{table_exists, table_exists_step};
use crate::migrate::join_tables::array::row_locale;
use crate::migrate::join_tables::parent_index::{index_name, sync_index_step, sync_row_parent_index};
use crate::names::{join_table, join_table_name, quote_ident, quoted};
use crate::session::{Session, SessionView, Step, ddl_step, within};
use crate::text::{cat2, cat5};
use crate::value::{DbError, add_context, out};
use vstd::prelude::*;

verus! {

/// The statement creating a blocks table.
pub open spec fn create_blocks_sql(
    table: Seq<char>,
    collection: Seq<char>,
    locale: Option<Seq<char>>,
) -> Seq<char> {
    "CREATE TABLE "@ + quoted(table)
        + " (id TEXT PRIMARY KEY, parent_id TEXT NOT NULL REFERENCES "@ + quoted(collection)
        + "(id) ON DELETE CASCADE, _order INTEGER NOT NULL DEFAULT 0, _block_type TEXT NOT NULL, data TEXT NOT NULL DEFAULT '{}'"@
        + (match locale {
        Some(code) => ", "@ + locale_column_def(code),
        None => Seq::empty(),
    }) + ")"@
}

fn create_blocks_statement(
    table: &str,
    collection: &str,
    has_locale_col: bool,
    locale_config: &LocaleConfig,
) -> (r: String)
    ensures
        r@ == create_blocks_sql(
            table@,
            collection@,
            row_locale(has_locale_col, *locale_config),
        ),
{
    let table = quote_ident(table);
    let collection = quote_ident(collection);
    let mut sql = cat5(
        "CREATE TABLE ",
        table.as_str(),
        " (id TEXT PRIMARY KEY, parent_id TEXT NOT NULL REFERENCES ",
        collection.as_str(),
        "(id) ON DELETE CASCADE, _order INTEGER NOT NULL DEFAULT 0, _block_type TEXT NOT NULL, data TEXT NOT NULL DEFAULT '{}'",
    );
    let ghost bare = sql@;
    if has_locale_col {
        let definition = locale_column_definition(locale_config.default_locale.as_str());
        let tail = cat2(", ", definition.as_str());
        sql.append(tail.as_str());
    } else {
        assert(bare + Seq::<char>::empty() =~= bare);
    }
    sql.append(")");
    sql
}

/// Creates a blocks table, or adds the locale column it lacks.
pub open spec fn blocks_ddl_step(
    s: SessionView,
    table: Seq<char>,
    collection: Seq<char>,
    locale: Option<Seq<char>>,
) -> Step<()> {
    let (s1, exists) = table_exists_step(s, table);
    match exists {
        Err(e) => (s1, Err(e)),
        Ok(false) => within(
            ddl_step(
                s1.noted("Creating blocks table: "@ + table),
                create_blocks_sql(table, collection, locale),
            ),
            "Failed to create blocks table "@ + table,
        ),
        Ok(true) => match locale {
            Some(code) => ensure_locale_column_step(s1, table, code),
            None => (s1, Ok(())),
        },
    }
}

/// Creates a blocks table, or adds the locale column it lacks, and gives it its
/// index.
pub open spec fn sync_blocks_step(
    s: SessionView,
    collection: Seq<char>,
    full_name: Seq<char>,
    has_locale_col: bool,
    config: LocaleConfig,
) -> Step<()> {
    let table = join_table_name(collection, full_name);
    let (s1, r) = blocks_ddl_step(s, table, collection, row_locale(has_locale_col, config));
    match r {
        Err(e) => (s1, Err(e)),
        Ok(_) => sync_index_step(
            s1,
            table,
            has_locale_col,
            index_name(table, has_locale_col, short_digest(table)),
        ),
    }
}

/// Creates the table of a blocks field, or adds the locale column it lacks, and
/// gives it its index.
pub fn sync_blocks_table(
    conn: &mut Session,
    collection_slug: &str,
    full_name: &str,
    has_locale_col: bool,
    locale_config: &LocaleConfig,
) -> (r: Result<(), DbError>)
    ensures
        (final(conn)@, out(r)) == sync_blocks_step(
            old(conn)@,
            collection_slug@,
            full_name@,
            has_locale_col,
            *locale_config,
        ),
{
    let table_name = join_table(collection_slug, full_name);
    if !table_exists(conn, table_name.as_str())? {
        conn.note(cat2("Creating blocks table: ", table_name.as_str()));
        let created = conn.execute_ddl(
            create_blocks_statement(
                table_name.as_str(),
                collection_slug,
                has_locale_col,
                locale_config,
            ),
        );
        add_context(created, cat2("Failed to create blocks table ", table_name.as_str()).as_str())?;
    } else if has_locale_col {
        ensure_locale_column(
            conn,
            table_name.as_str(),
            locale_config.default_locale.as_str(),
        )?;
    }
    sync_row_parent_index(conn, table_name.as_str(), has_locale_col)
}

} // verus!
