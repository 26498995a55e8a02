//! Storing the dates with a zone inside JSON-stored rows as UTC.
//!
//! Such dates used to be stored as they were entered, while every other date with
//! a zone is stored as UTC. Writes convert them; this converts the rows written
//! before, once per collection and global. A date that carries an offset is left
//! as it is, so that none is shifted twice. [`super::nested_values`] converts
//! these dates too, and removes the mark of this pass.
use crate::definition::{
    BlockDefinition, FieldDefinition, FieldType, LeafView, Registry, blocks_view, copy_blocks,
    copy_fields, fields_view, leaves, row_fields, walk_leaf_fields,
};
use crate::migrate::helpers::introspection::{table_exists, table_exists_step};
use crate::migrate::meta;
use crate::migrate::nested_values::{
    Conversion, block_candidates, column_candidates, convert_candidates, convert_candidates_step,
    json_names, json_sub_fields, read_block_candidates, read_column_candidates,
};
use crate::names::{
    global_table, global_table_name, join_table, join_table_name, placeholder, placeholder_text,
};
use crate::session::{Dialect, Session, SessionView, Step, query_all_step};
use crate::text::{cat2, cat3, cat4, cat5, cat7, cat8, decimal, decimal_text, same};
use crate::value::{DbError, ErrorView, count_out, count_together, no_params, out, together};
use vstd::prelude::*;

verus! {

/// The statement reading an array table's column.
pub open spec fn column_sql(table: Seq<char>, column: Seq<char>) -> Seq<char> {
    "SELECT id, \""@ + column + "\" FROM \""@ + table + "\" WHERE \""@ + column
        + "\" IS NOT NULL"@
}

/// The statement storing a converted value of an array table's column.
pub open spec fn store_sql(dialect: Dialect, table: Seq<char>, column: Seq<char>) -> Seq<char> {
    "UPDATE \""@ + table + "\" SET "@ + column + " = "@ + placeholder_text(dialect, 1)
        + " WHERE id = "@ + placeholder_text(dialect, 2)
}

fn store_statement(dialect: Dialect, table: &str, column: &str) -> (r: String)
    ensures
        r@ == store_sql(dialect, table@, column@),
{
    let p1 = placeholder(dialect, 1);
    let p2 = placeholder(dialect, 2);
    cat8(
        "UPDATE \"",
        table,
        "\" SET ",
        column,
        " = ",
        p1.as_str(),
        " WHERE id = ",
        p2.as_str(),
    )
}

/// Converts one column of an array table; says how many values were.
pub open spec fn date_column_step(
    s: SessionView,
    table: Seq<char>,
    sub: Seq<FieldDefinition>,
    column: Seq<char>,
) -> Step<nat> {
    let (s1, rows) = query_all_step(s, column_sql(table, column), Seq::empty());
    match rows {
        Err(e) => (s1, Err(e)),
        Ok(rows) => convert_candidates_step(
            s1,
            Conversion::Dates,
            table,
            store_sql(s.dialect, table, "\""@ + column + "\""@),
            "Failed to convert nested dates in "@ + table + "."@ + column,
            fields_view(sub),
            Seq::empty(),
            column_candidates(rows, column),
        ),
    }
}

fn convert_date_column(
    conn: &mut Session,
    table: &str,
    sub: &Vec<FieldDefinition>,
    column: &str,
) -> (r: Result<usize, DbError>)
    ensures
        (final(conn)@, count_out(r)) == date_column_step(old(conn)@, table@, sub@, column@),
{
    let rows = conn.query_all(
        cat7(
            "SELECT id, \"",
            column,
            "\" FROM \"",
            table,
            "\" WHERE \"",
            column,
            "\" IS NOT NULL",
        ),
        no_params(),
    )?;
    let quoted = cat3("\"", column, "\"");
    let update = store_statement(conn.dialect(), table, quoted.as_str());
    let candidates = read_column_candidates(&rows, column);
    let failed = cat4("Failed to convert nested dates in ", table, ".", column);
    let no_blocks: Vec<BlockDefinition> = Vec::new();
    assert(blocks_view(no_blocks@) =~= Seq::empty());
    convert_candidates(
        conn,
        Conversion::Dates,
        table,
        update.as_str(),
        failed.as_str(),
        copy_fields(sub),
        no_blocks,
        &candidates,
    )
}

/// Converts the columns from the `i`-th on, `n` values having been converted before;
/// says how many are converted in all.
pub open spec fn date_columns_from(
    s: SessionView,
    table: Seq<char>,
    sub: Seq<FieldDefinition>,
    names: Seq<Seq<char>>,
    i: int,
    n: nat,
) -> Step<nat>
    decreases names.len() - i,
{
    if i < 0 || i >= names.len() {
        (s, Ok(n))
    } else {
        let (s1, r) = date_column_step(s, table, sub, names[i]);
        match r {
            Err(e) => (s1, Err(e)),
            Ok(more) => date_columns_from(s1, table, sub, names, i + 1, together(n, more)),
        }
    }
}

/// Converts the JSON columns of an array table; says how many values were.
pub open spec fn date_array_step(
    s: SessionView,
    table: Seq<char>,
    sub: Seq<FieldDefinition>,
) -> Step<nat> {
    let names = json_names(row_fields(sub));
    if names.len() == 0 {
        (s, Ok(0))
    } else {
        let (s1, exists) = table_exists_step(s, table);
        match exists {
            Err(e) => (s1, Err(e)),
            Ok(false) => (s1, Ok(0)),
            Ok(true) => date_columns_from(s1, table, sub, names, 0, 0),
        }
    }
}

fn convert_array_table(conn: &mut Session, table: &str, sub: &Vec<FieldDefinition>) -> (r: Result<
    usize,
    DbError,
>)
    ensures
        (final(conn)@, count_out(r)) == date_array_step(old(conn)@, table@, sub@),
{
    let names = json_sub_fields(sub);
    if names.len() == 0 {
        return Ok(0);
    }
    if !table_exists(conn, table)? {
        return Ok(0);
    }
    let ghost start = conn@;
    let ghost all = names.deep_view();
    let mut converted: usize = 0;
    let mut i: usize = 0;
    while i < names.len()
        invariant
            i <= names.len(),
            all == names.deep_view(),
            date_columns_from(start, table@, sub@, all, 0, 0) == date_array_step(
                old(conn)@,
                table@,
                sub@,
            ),
            date_columns_from(start, table@, sub@, all, 0, 0) == date_columns_from(
                conn@,
                table@,
                sub@,
                all,
                i as int,
                converted as nat,
            ),
        decreases names.len() - i,
    {
        assert(all[i as int] == names@[i as int]@);
        let more: usize = convert_date_column(conn, table, sub, names[i].as_str())?;
        converted = count_together(converted, more);
        i += 1;
    }
    Ok(converted)
}

/// Converts the rows of a blocks table; says how many were.
pub open spec fn date_blocks_step(
    s: SessionView,
    table: Seq<char>,
    blocks: Seq<BlockDefinition>,
) -> Step<nat> {
    let (s1, exists) = table_exists_step(s, table);
    match exists {
        Err(e) => (s1, Err(e)),
        Ok(false) => (s1, Ok(0)),
        Ok(true) => {
            let (s2, rows) = query_all_step(
                s1,
                "SELECT id, _block_type, data FROM \""@ + table + "\""@,
                Seq::empty(),
            );
            match rows {
                Err(e) => (s2, Err(e)),
                Ok(rows) => convert_candidates_step(
                    s2,
                    Conversion::Dates,
                    table,
                    store_sql(s.dialect, table, "data"@),
                    "Failed to convert nested dates in "@ + table,
                    Seq::empty(),
                    blocks_view(blocks),
                    block_candidates(rows, blocks),
                ),
            }
        },
    }
}

fn convert_blocks_table(conn: &mut Session, table: &str, blocks: &Vec<BlockDefinition>) -> (r: Result<
    usize,
    DbError,
>)
    ensures
        (final(conn)@, count_out(r)) == date_blocks_step(old(conn)@, table@, blocks@),
{
    if !table_exists(conn, table)? {
        return Ok(0);
    }
    let rows = conn.query_all(
        cat3("SELECT id, _block_type, data FROM \"", table, "\""),
        no_params(),
    )?;
    let update = store_statement(conn.dialect(), table, "data");
    let candidates = read_block_candidates(&rows, blocks);
    let failed = cat2("Failed to convert nested dates in ", table);
    let no_fields: Vec<FieldDefinition> = Vec::new();
    assert(fields_view(no_fields@) =~= Seq::empty());
    convert_candidates(
        conn,
        Conversion::Dates,
        table,
        update.as_str(),
        failed.as_str(),
        no_fields,
        copy_blocks(blocks),
        &candidates,
    )
}

/// Converts the tables of the leaves from the `i`-th on that have one with JSON in it,
/// `n` rows having been converted before; says how many are converted in all.
pub open spec fn date_leaves_from(
    s: SessionView,
    table: Seq<char>,
    found: Seq<LeafView>,
    i: int,
    n: nat,
) -> Step<nat>
    decreases found.len() - i,
{
    if i < 0 || i >= found.len() {
        (s, Ok(n))
    } else {
        let join = join_table_name(table, found[i].path());
        let (s1, r) = match found[i].field.field_type {
            FieldType::Array => date_array_step(s, join, found[i].field.fields@),
            FieldType::Blocks => date_blocks_step(s, join, found[i].field.blocks@),
            _ => (s, Ok(0)),
        };
        match r {
            Err(e) => (s1, Err(e)),
            Ok(more) => date_leaves_from(s1, table, found, i + 1, together(n, more)),
        }
    }
}

/// Converts every join table that `fields` own on `table`; says how many rows were
/// converted.
pub open spec fn date_join_tables_step(
    s: SessionView,
    table: Seq<char>,
    fields: Seq<FieldDefinition>,
) -> Step<nat> {
    date_leaves_from(s, table, leaves(fields, Seq::empty(), false), 0, 0)
}

/// Converts every join table that `fields` own on `table`; says how many rows were
/// converted.
pub fn convert_join_tables(conn: &mut Session, table: &str, fields: &Vec<FieldDefinition>) -> (r:
    Result<usize, DbError>)
    ensures
        (final(conn)@, count_out(r)) == date_join_tables_step(old(conn)@, table@, fields@),
{
    let found = walk_leaf_fields(fields);
    let ghost all = found.deep_view();
    let mut converted: usize = 0;
    let mut i: usize = 0;
    while i < found.len()
        invariant
            i <= found.len(),
            converted <= usize::MAX,
            all == found.deep_view(),
            all == leaves(fields@, Seq::empty(), false),
            date_leaves_from(old(conn)@, table@, all, 0, 0) == date_leaves_from(
                conn@,
                table@,
                all,
                i as int,
                converted as nat,
            ),
        decreases found.len() - i,
    {
        assert(all[i as int] == found@[i as int].deep_view());
        let path = found[i].path();
        let join = join_table(table, path.as_str());
        let more: usize = match found[i].field.field_type {
            FieldType::Array => convert_array_table(conn, join.as_str(), &found[i].field.fields)?,
            FieldType::Blocks => convert_blocks_table(conn, join.as_str(), &found[i].field.blocks)?,
            _ => 0,
        };
        converted = count_together(converted, more);
        i += 1;
    }
    Ok(converted)
}

/// The session after the line on how many rows of a definition were converted, where
/// any was.
pub open spec fn converted_dates(s: SessionView, slug: Seq<char>, n: nat) -> SessionView {
    if n > 0 {
        s.noted(
            "Converted nested timezone dates to UTC in "@ + decimal(n) + " row(s) of '"@ + slug
                + "'"@,
        )
    } else {
        s
    }
}

/// Converts what one definition stores, once.
pub open spec fn date_one_step(
    s: SessionView,
    slug: Seq<char>,
    table: Seq<char>,
    fields: Seq<FieldDefinition>,
) -> Step<()> {
    let (s1, stored) = meta::get_step(s, "nested_timezone_dates:"@ + slug);
    match stored {
        Err(e) => (s1, Err(e)),
        Ok(stored) => if stored == Some("1"@) {
            (s1, Ok(()))
        } else {
            let (s2, r) = date_join_tables_step(s1, table, fields);
            match r {
                Err(e) => (s2, Err(e)),
                Ok(n) => meta::upsert_step(
                    converted_dates(s2, slug, n),
                    "nested_timezone_dates:"@ + slug,
                    "1"@,
                ),
            }
        },
    }
}

fn convert_one(conn: &mut Session, slug: &str, table: &str, fields: &Vec<FieldDefinition>) -> (r:
    Result<(), DbError>)
    ensures
        (final(conn)@, out(r)) == date_one_step(old(conn)@, slug@, table@, fields@),
{
    let key = cat2("nested_timezone_dates:", slug);
    if let Some(version) = meta::get(conn, key.as_str())? {
        if same(version.as_str(), "1") {
            return Ok(());
        }
    }
    let converted: usize = convert_join_tables(conn, table, fields)?;
    if converted > 0 {
        let count = decimal_text(converted as u64);
        conn.note(
            cat5(
                "Converted nested timezone dates to UTC in ",
                count.as_str(),
                " row(s) of '",
                slug,
                "'",
            ),
        );
    }
    meta::upsert(conn, key.as_str(), "1")
}

/// Converts what the collections from the `i`-th on store, then the globals.
pub open spec fn date_from(s: SessionView, registry: Registry, i: int) -> Step<()>
    decreases registry.collections@.len() + registry.globals@.len() - i,
{
    let n = registry.collections@.len();
    if i < 0 || i >= n + registry.globals@.len() {
        (s, Ok(()))
    } else {
        let (s1, r) = if i < n {
            date_one_step(
                s,
                registry.collections@[i].slug@,
                registry.collections@[i].slug@,
                registry.collections@[i].fields@,
            )
        } else {
            date_one_step(
                s,
                registry.globals@[i - n].slug@,
                global_table_name(registry.globals@[i - n].slug@),
                registry.globals@[i - n].fields@,
            )
        };
        match r {
            Err(e) => (s1, Err(e)),
            Ok(_) => date_from(s1, registry, i + 1),
        }
    }
}

/// Converts the nested dates of every collection and global, each once.
pub fn convert_if_needed(conn: &mut Session, registry: &Registry) -> (r: Result<(), DbError>)
    ensures
        (final(conn)@, out(r)) == date_from(old(conn)@, *registry, 0),
{
    let mut i: usize = 0;
    while i < registry.collections.len()
        invariant
            i <= registry.collections.len(),
            date_from(old(conn)@, *registry, 0) == date_from(conn@, *registry, i as int),
        decreases registry.collections.len() - i,
    {
        let slug = registry.collections[i].slug.as_str();
        convert_one(conn, slug, slug, &registry.collections[i].fields)?;
        i += 1;
    }
    let ghost n = registry.collections@.len();
    let mut k: usize = 0;
    while k < registry.globals.len()
        invariant
            k <= registry.globals.len(),
            n == registry.collections@.len(),
            date_from(old(conn)@, *registry, 0) == date_from(conn@, *registry, n + k),
        decreases registry.globals.len() - k,
    {
        let slug = registry.globals[k].slug.as_str();
        let table = global_table(slug);
        convert_one(conn, slug, table.as_str(), &registry.globals[k].fields)?;
        k += 1;
    }
    Ok(())
}

/// What a definition stores is converted once: where that is recorded, nothing more
/// is asked for. So a date is never shifted twice.
pub proof fn nested_dates_are_converted_once(
    s: SessionView,
    slug: Seq<char>,
    table: Seq<char>,
    fields: Seq<FieldDefinition>,
)
    requires
        meta::get_step(s, "nested_timezone_dates:"@ + slug).1 == Ok::<
            Option<Seq<char>>,
            ErrorView,
        >(Some("1"@)),
    ensures
        date_one_step(s, slug, table, fields) == (
            meta::get_step(s, "nested_timezone_dates:"@ + slug).0,
            Ok::<(), ErrorView>(()),
        ),
{
}

} // verus!
