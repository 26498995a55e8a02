//! What the operator is told as it happens.
use crate::definition::FieldDefinition;
use crate::migrate::helpers::alter::add_column_step;
use crate::migrate::helpers::column_specs::ensure_locale_column_step;
use crate::migrate::join_tables::array::create_array_step;
use crate::migrate::join_tables::blocks::blocks_ddl_step;
use crate::migrate::join_tables::junction_shape::{JunctionShapeView, create_junction_step};
use crate::migrate::join_tables::locale_rows::{keep_default_step, only_locale};
use crate::migrate::nested_timezone_dates::converted_dates;
use crate::migrate::nested_values::stored_typed;
use crate::migrate::reference_cardinality::{
    RefColumn, RefLeafView, carried, carried_out, junction_to_column_step, row_params, told_carried,
};
use crate::migrate::system_tables::drained;
use crate::migrate::tracking::drop_tables_from;
use crate::pool::{DatabaseConfig, create_pool_step};
use crate::promises::answered;
use crate::promises::lookups::{
    a_table_is_looked_for, columns_are_looked_for, told_columns, told_missing,
};
use crate::promises::migrations::table_dropped;
use crate::session::{Dialect, ReplyView, SessionView};
use crate::text::decimal;
use crate::value::{DbRowView, DbValueView, ErrorView, texts_in_column};
use vstd::prelude::*;

verus! {

/// A table or a column that is made is told of, by name.
pub proof fn what_is_made_is_told_of(
    s: SessionView,
    table: Seq<char>,
    collection: Seq<char>,
    fields: Seq<FieldDefinition>,
    locale: Option<Seq<char>>,
    shape: JunctionShapeView,
    name: Seq<char>,
    definition: Seq<char>,
    existing: Seq<Seq<char>>,
    code: Seq<char>,
)
    ensures
        create_array_step(s, table, collection, fields, locale).0.notes == s.notes.push(
            "Creating array table: "@ + table,
        ),
        create_junction_step(s, table, collection, shape).0.notes == s.notes.push(
            "Creating junction table: "@ + table,
        ),
        told_missing(s, s.sent.len() as int) ==> blocks_ddl_step(
            s,
            table,
            collection,
            locale,
        ).0.notes == s.notes.push("Creating blocks table: "@ + table),
        !existing.contains(name) ==> add_column_step(
            s,
            table,
            name,
            definition,
            existing,
        ).0.notes == s.notes.push("Adding column to "@ + table + ": "@ + name),
        told_columns(s, s.sent.len() as int) matches Some(there) ==> {
            &&& !there.contains("_locale"@) ==> ensure_locale_column_step(
                s,
                table,
                code,
            ).0.notes == s.notes.push("Adding _locale column to "@ + table)
            &&& there.contains("_locale"@) ==> ensure_locale_column_step(
                s,
                table,
                code,
            ).0.notes == s.notes
        },
{
    a_table_is_looked_for(s, table, Seq::empty());
    columns_are_looked_for(s, table, Seq::empty());
}

/// So are values that moved between a column and a junction, with how many where they are
/// counted, and rows that were dropped.
pub proof fn what_is_moved_is_told_of(
    s: SessionView,
    table: Seq<char>,
    path: Seq<char>,
    junction: Seq<char>,
    n: nat,
    default_locale: Seq<char>,
    held: Seq<Seq<char>>,
    dropped: u64,
    k: int,
)
    ensures
        told_carried((s, Ok::<nat, ErrorView>(n)), table, path, junction).0.notes == s.notes.push(
            "Carried "@ + decimal(n) + " value(s) of '"@ + table + "."@ + path + "' into '"@
                + junction + "' (turned has-many)"@,
        ),
        carried_out(table, path, junction) == "Carried '"@ + junction + "' into '"@ + table + "."@
            + path + "' (turned has-one)"@,
        0 <= k < held.len() && held[k] != default_locale && held.contains(default_locale)
            && answered(s, 0, ReplyView::Names(held)) && answered(s, 1, ReplyView::Count(dropped))
            ==> keep_default_step(s, table, default_locale).0.notes == s.notes.push(
            "Dropped "@ + decimal(dropped as nat) + " row(s) of locales other than '"@
                + default_locale + "' from '"@ + table
                + "': its field is no longer localized"@,
        ),
{
    if 0 <= k < held.len() && held[k] != default_locale {
        assert(!only_locale(held, default_locale));
    }
}

/// Passes over what is stored tell how many rows they changed, and nothing where they
/// changed none.
pub proof fn what_is_converted_is_told_of(s: SessionView, slug: Seq<char>, n: nat)
    ensures
        stored_typed(s, slug, 0) == s,
        converted_dates(s, slug, 0) == s,
        drained(s, 0) == s,
        n > 0 ==> {
            &&& stored_typed(s, slug, n) == s.noted(
                "Stored the nested values of "@ + decimal(n) + " row(s) of '"@ + slug
                    + "' in their typed form"@,
            )
            &&& converted_dates(s, slug, n) == s.noted(
                "Converted nested timezone dates to UTC in "@ + decimal(n) + " row(s) of '"@ + slug
                    + "'"@,
            )
            &&& drained(s, n) == s.noted(
                "Drained "@ + decimal(n)
                    + " legacy image-queue entries into _crap_jobs (table dropped)"@,
            )
        },
{
}

/// A table that is dropped is told of once it is.
pub proof fn a_dropped_table_is_told_of(
    s: SessionView,
    tables: Seq<Seq<char>>,
    i: int,
    n: u64,
    why: Seq<char>,
)
    requires
        0 <= i < tables.len(),
    ensures
        ({
            let request = table_dropped(tables[i]);
            let step = drop_tables_from(s, tables, i);
            &&& answered(s, 0, ReplyView::Count(n)) ==> step == drop_tables_from(
                s.asked(request).noted("Dropped table: "@ + tables[i]),
                tables,
                i + 1,
            )
            &&& answered(s, 0, ReplyView::Failed(why)) ==> step == (
                s.asked(request),
                Err::<(), ErrorView>(
                    ErrorView::Backend("Failed to drop table "@ + tables[i] + ": "@ + why),
                ),
            )
        }),
{
}

/// A pool that is open is told of, with its sizes.
pub proof fn an_open_pool_is_told_of(
    s: SessionView,
    config_dir: Seq<char>,
    config: DatabaseConfig,
)
    ensures
        config.backend == Dialect::Sqlite && answered(s, 0, ReplyView::Done) && answered(
            s,
            1,
            ReplyView::Done,
        ) && answered(s, 2, ReplyView::Done) ==> create_pool_step(s, config_dir, config).0.notes
            == s.notes.push(
            "SQLite pools created (read="@ + decimal(config.pool_max_size as nat) + ", write="@
                + decimal(config.write_pool_max_size as nat) + ")"@,
        ),
        config.backend == Dialect::Postgres ==> (config.url matches Some(url) ==> (
        crate::postgres::address_fault(url@) is None && answered(s, 0, ReplyView::Done)
            ==> create_pool_step(s, config_dir, config).0.notes == s.notes.push(
            "Postgres pool created (max_size="@ + decimal(config.pool_max_size as nat)
                + ", statement cache enabled)"@,
        ))),
{
}

/// A stored value that is no reference is not carried, and the operator is told which, of
/// which document; the rows around it are carried all the same.
pub proof fn what_is_no_reference_is_told_of(
    before: Seq<DbRowView>,
    row: DbRowView,
    table: Seq<char>,
    column: Seq<char>,
    polymorphic: bool,
    locale: Option<Seq<char>>,
    parent: Seq<char>,
    value: Seq<char>,
)
    requires
        row.values.len() >= 2,
        row.values[0] == DbValueView::Text(parent),
        row.values[1] == DbValueView::Text(value),
    ensures
        ({
            let earlier = carried(before, table, column, polymorphic, locale);
            let all = carried(before.push(row), table, column, polymorphic, locale);
            match row_params(parent, value, polymorphic, locale) {
                Some(params) => all == (earlier.0.push(params), earlier.1),
                None => all == (
                    earlier.0,
                    earlier.1.push(
                        "Not carrying '"@ + value + "' of '"@ + table + "."@ + column + "' for "@
                            + parent + ": not a reference"@,
                    ),
                ),
            }
        }),
{
    assert(before.push(row).drop_last() =~= before);
}

/// Where documents hold several values of a reference that is to one now, it is refused,
/// and no column is written.
pub proof fn several_values_are_not_made_one(
    s: SessionView,
    table: Seq<char>,
    junction: Seq<char>,
    leaf: RefLeafView,
    columns: Seq<RefColumn>,
    rows: Seq<DbRowView>,
    id: Seq<char>,
)
    requires
        rows.len() > 0,
        rows.last().values.len() > 0,
        rows.last().values[0] == DbValueView::Text(id),
        answered(s, 0, ReplyView::Rows(rows)),
    ensures
        ({
            let (end, r) = junction_to_column_step(s, table, junction, leaf, columns);
            &&& end.sent.len() == s.sent.len() + 1
            &&& r matches Err(ErrorView::Refused(_))
        }),
{
    assert(texts_in_column(rows, 0).len() > 0);
}

} // verus!
