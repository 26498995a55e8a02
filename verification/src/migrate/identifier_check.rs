//! Refusing names that Postgres would cut.
//!
//! Postgres cuts an identifier at 63 bytes without a word, so two long names could
//! become the same column or table. SQLite has no such limit, and a schema made
//! there would fall together only once it is deployed. So every name is checked
//! on either kind of database, before any table is made.
use crate::definition::{
    FieldDefinition, FieldType, LeafView, LocaleConfig, leaves, walk_leaf_fields,
};
use crate::migrate::helpers::column_specs::{ColumnSpecView, collect_column_specs, column_specs};
use crate::migrate::join_tables::parent_index::{byte_len, bytes_in};
use crate::names::{join_table, join_table_name, locale_column, locale_column_name};
use crate::text::{cat8, decimal, decimal_text};
use crate::value::{DbError, ErrorView, out};
use vstd::prelude::*;

verus! {

/// The longest identifier Postgres keeps, in bytes.
pub const MAX_IDENTIFIER_BYTES: usize = 63;

/// Whether Postgres keeps a name as it is.
pub open spec fn fits(name: Seq<char>) -> bool {
    byte_len(name) <= MAX_IDENTIFIER_BYTES
}

/// The refusal of a name that Postgres would cut.
pub open spec fn ident_check(kind: Seq<char>, name: Seq<char>, owner: Seq<char>) -> Result<
    (),
    ErrorView,
> {
    if fits(name) {
        Ok(())
    } else {
        Err(
            ErrorView::Refused(
                kind + " '"@ + name + "' is "@ + decimal(byte_len(name))
                    + " bytes, over the 63-byte SQL identifier limit — Postgres would silently truncate it (risking a collision with another identifier). Shorten the "@
                    + owner + "."@,
            ),
        )
    }
}

fn check_ident(kind: &str, name: &str, owner: &str) -> (r: Result<(), DbError>)
    ensures
        out(r) == ident_check(kind@, name@, owner@),
{
    let length: usize = bytes_in(name);
    if length > MAX_IDENTIFIER_BYTES {
        let digits = decimal_text(length as u64);
        return Err(
            DbError::Refused(
                cat8(
                    kind,
                    " '",
                    name,
                    "' is ",
                    digits.as_str(),
                    " bytes, over the 63-byte SQL identifier limit — Postgres would silently truncate it (risking a collision with another identifier). Shorten the ",
                    owner,
                    ".",
                ),
            ),
        );
    }
    Ok(())
}

/// The check of a column in each locale, from the `i`-th on.
pub open spec fn locale_checks(name: Seq<char>, locales: Seq<Seq<char>>, i: int) -> Result<
    (),
    ErrorView,
>
    decreases locales.len() - i,
{
    if i < 0 || i >= locales.len() {
        Ok(())
    } else {
        match locale_column_name(name, locales[i]) {
            Err(e) => Err(e),
            Ok(column) => match ident_check("column"@, column, "field / group / locale name"@) {
                Err(e) => Err(e),
                Ok(_) => locale_checks(name, locales, i + 1),
            },
        }
    }
}

/// The check of one column, or of it in each locale.
pub open spec fn spec_check(spec: ColumnSpecView, locales: Seq<Seq<char>>) -> Result<(), ErrorView> {
    if spec.is_localized {
        locale_checks(spec.col_name, locales, 0)
    } else {
        ident_check("column"@, spec.col_name, "field / group name"@)
    }
}

/// The checks of the columns from the `i`-th on.
pub open spec fn spec_checks(specs: Seq<ColumnSpecView>, locales: Seq<Seq<char>>, i: int) -> Result<
    (),
    ErrorView,
>
    decreases specs.len() - i,
{
    if i < 0 || i >= specs.len() {
        Ok(())
    } else {
        match spec_check(specs[i], locales) {
            Err(e) => Err(e),
            Ok(_) => spec_checks(specs, locales, i + 1),
        }
    }
}

/// Whether a field may have a table of its own.
pub open spec fn may_have_table(field: FieldDefinition) -> bool {
    match field.field_type {
        FieldType::Relationship | FieldType::Upload | FieldType::Array | FieldType::Blocks => true,
        _ => false,
    }
}

/// The checks of the leaves' tables from the `i`-th on.
pub open spec fn table_checks(table_base: Seq<char>, found: Seq<LeafView>, i: int) -> Result<
    (),
    ErrorView,
>
    decreases found.len() - i,
{
    if i < 0 || i >= found.len() {
        Ok(())
    } else if !may_have_table(found[i].field) {
        table_checks(table_base, found, i + 1)
    } else {
        match ident_check(
            "join table"@,
            join_table_name(table_base, found[i].path()),
            "collection + group + field name"@,
        ) {
            Err(e) => Err(e),
            Ok(_) => table_checks(table_base, found, i + 1),
        }
    }
}

/// The check of every name a definition is stored under.
pub open spec fn identifier_checks(
    table_base: Seq<char>,
    fields: Seq<FieldDefinition>,
    config: LocaleConfig,
) -> Result<(), ErrorView> {
    match ident_check("table name"@, table_base, "collection/global name"@) {
        Err(e) => Err(e),
        Ok(_) => match spec_checks(
            column_specs(fields, config.enabled()),
            config.locales.deep_view(),
            0,
        ) {
            Err(e) => Err(e),
            Ok(_) => table_checks(table_base, leaves(fields, Seq::empty(), false), 0),
        },
    }
}

fn check_locale_columns(name: &str, locales: &Vec<String>) -> (r: Result<(), DbError>)
    ensures
        out(r) == locale_checks(name@, locales.deep_view(), 0),
{
    let mut i: usize = 0;
    while i < locales.len()
        invariant
            i <= locales.len(),
            locale_checks(name@, locales.deep_view(), 0) == locale_checks(
                name@,
                locales.deep_view(),
                i as int,
            ),
        decreases locales.len() - i,
    {
        assert(locales.deep_view()[i as int] == locales@[i as int]@);
        let column = locale_column(name, locales[i].as_str())?;
        check_ident("column", column.as_str(), "field / group / locale name")?;
        i += 1;
    }
    Ok(())
}

fn check_columns(fields: &Vec<FieldDefinition>, locale_config: &LocaleConfig) -> (r: Result<
    (),
    DbError,
>)
    ensures
        out(r) == spec_checks(
            column_specs(fields@, locale_config.enabled()),
            locale_config.locales.deep_view(),
            0,
        ),
{
    let specs = collect_column_specs(fields, locale_config);
    let ghost all = specs.deep_view();
    let ghost locales = locale_config.locales.deep_view();
    let mut i: usize = 0;
    while i < specs.len()
        invariant
            i <= specs.len(),
            all == specs.deep_view(),
            all == column_specs(fields@, locale_config.enabled()),
            locales == locale_config.locales.deep_view(),
            spec_checks(all, locales, 0) == spec_checks(all, locales, i as int),
        decreases specs.len() - i,
    {
        assert(all[i as int] == specs@[i as int].deep_view());
        let name = specs[i].col_name.as_str();
        if specs[i].is_localized {
            check_locale_columns(name, &locale_config.locales)?;
        } else {
            check_ident("column", name, "field / group name")?;
        }
        i += 1;
    }
    Ok(())
}

/// Refuses a definition that would be stored under a name Postgres cuts.
/// `table_base` is its table: the collection's slug, or the global's table.
pub fn check_identifiers(
    table_base: &str,
    fields: &Vec<FieldDefinition>,
    locale_config: &LocaleConfig,
) -> (r: Result<(), DbError>)
    ensures
        out(r) == identifier_checks(table_base@, fields@, *locale_config),
{
    check_ident("table name", table_base, "collection/global name")?;
    check_columns(fields, locale_config)?;
    let found = walk_leaf_fields(fields);
    let ghost all = found.deep_view();
    let mut i: usize = 0;
    while i < found.len()
        invariant
            i <= found.len(),
            all == found.deep_view(),
            table_checks(table_base@, all, 0) == table_checks(table_base@, all, i as int),
            table_checks(table_base@, all, 0) == identifier_checks(
                table_base@,
                fields@,
                *locale_config,
            ),
        decreases found.len() - i,
    {
        assert(all[i as int] == found@[i as int].deep_view());
        let has_table = match found[i].field.field_type {
            FieldType::Relationship
            | FieldType::Upload
            | FieldType::Array
            | FieldType::Blocks => true,
            _ => false,
        };
        if has_table {
            let path = found[i].path();
            let table = join_table(table_base, path.as_str());
            check_ident("join table", table.as_str(), "collection + group + field name")?;
        }
        i += 1;
    }
    Ok(())
}

/// Whether each locale has a column for `name`, and under a name that is kept
/// whole.
pub open spec fn locale_columns_fit(name: Seq<char>, locales: Seq<Seq<char>>) -> bool {
    forall|k: int|
        0 <= k < locales.len() ==> (locale_column_name(name, #[trigger] locales[k]) matches Ok(
            column,
        ) ==> fits(column)) && locale_column_name(name, locales[k]) is Ok
}

/// Whether a column, or it in each locale, is stored under a name that is kept
/// whole.
pub open spec fn spec_fits(spec: ColumnSpecView, locales: Seq<Seq<char>>) -> bool {
    if spec.is_localized {
        locale_columns_fit(spec.col_name, locales)
    } else {
        fits(spec.col_name)
    }
}

/// Whether every name a definition is stored under is kept whole.
pub open spec fn names_fit(
    table_base: Seq<char>,
    fields: Seq<FieldDefinition>,
    config: LocaleConfig,
) -> bool {
    let specs = column_specs(fields, config.enabled());
    let found = leaves(fields, Seq::empty(), false);
    &&& fits(table_base)
    &&& forall|k: int|
        0 <= k < specs.len() ==> spec_fits(#[trigger] specs[k], config.locales.deep_view())
    &&& forall|k: int|
        0 <= k < found.len() && may_have_table((#[trigger] found[k]).field) ==> fits(
            join_table_name(table_base, found[k].path()),
        )
}

proof fn locale_checks_mean(name: Seq<char>, locales: Seq<Seq<char>>, i: int)
    requires
        0 <= i <= locales.len(),
    ensures
        locale_checks(name, locales, i) is Ok <==> forall|k: int|
            i <= k < locales.len() ==> (locale_column_name(name, #[trigger] locales[k]) matches Ok(
                column,
            ) ==> fits(column)) && locale_column_name(name, locales[k]) is Ok,
    decreases locales.len() - i,
{
    if i < locales.len() {
        locale_checks_mean(name, locales, i + 1);
        assert(locales[i] == locales[i]);
    }
}

proof fn spec_checks_mean(specs: Seq<ColumnSpecView>, locales: Seq<Seq<char>>, i: int)
    requires
        0 <= i <= specs.len(),
    ensures
        spec_checks(specs, locales, i) is Ok <==> forall|k: int|
            i <= k < specs.len() ==> spec_fits(#[trigger] specs[k], locales),
    decreases specs.len() - i,
{
    if i < specs.len() {
        spec_checks_mean(specs, locales, i + 1);
        locale_checks_mean(specs[i].col_name, locales, 0);
        assert(spec_check(specs[i], locales) is Ok <==> spec_fits(specs[i], locales));
    }
}

proof fn table_checks_mean(table_base: Seq<char>, found: Seq<LeafView>, i: int)
    requires
        0 <= i <= found.len(),
    ensures
        table_checks(table_base, found, i) is Ok <==> forall|k: int|
            i <= k < found.len() && may_have_table((#[trigger] found[k]).field) ==> fits(
                join_table_name(table_base, found[k].path()),
            ),
    decreases found.len() - i,
{
    if i < found.len() {
        table_checks_mean(table_base, found, i + 1);
        assert(found[i] == found[i]);
    }
}

/// A definition is accepted exactly if every name it is stored under is one that
/// Postgres keeps whole.
pub proof fn accepted_exactly_if_names_fit(
    table_base: Seq<char>,
    fields: Seq<FieldDefinition>,
    config: LocaleConfig,
)
    ensures
        identifier_checks(table_base, fields, config) is Ok <==> names_fit(
            table_base,
            fields,
            config,
        ),
{
    spec_checks_mean(column_specs(fields, config.enabled()), config.locales.deep_view(), 0);
    table_checks_mean(table_base, leaves(fields, Seq::empty(), false), 0);
}

} // verus!
