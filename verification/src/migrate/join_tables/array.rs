//! The tables holding the rows of array fields.
use crate::definition::{
    FieldDefinition, LocaleConfig, flatten_array_sub_fields, referred, row_fields,
};
use crate::digest::short_digest;
use crate::migrate::helpers::alter::{
    add_column_if_missing, add_column_step, reconcile_scalar_list_column,
    reconcile_scalar_list_step, type_of,
};
use crate::migrate::helpers::column_specs::{
    ddl_type_of, ensure_locale_column, ensure_locale_column_step, field_ddl_type, locale_column_def,
    locale_column_definition,
};
use crate::migrate::helpers::introspection::{
    get_table_column_types, get_table_columns, table_column_types_step, table_columns_step,
    table_exists, table_exists_step,
};
use crate::migrate::join_tables::parent_index::{index_name, sync_index_step, sync_row_parent_index};
use crate::names::{join_table, join_table_name, quote_ident, quoted};
use crate::session::{Dialect, Session, SessionView, Step, ddl_step, within};
use crate::text::{cat2, cat3, cat5, contains, equal_ignoring_case, join, join_with, push_item};
use crate::value::{DbError, ErrorView, add_context, out};
use vstd::prelude::*;

verus! {

/// The definition of the column holding a sub-field's own value.
pub open spec fn sub_field_def(dialect: Dialect, field: FieldDefinition) -> Seq<char> {
    quoted(field.name@) + " "@ + ddl_type_of(dialect, field)
}

fn sub_field_definition(dialect: Dialect, field: &FieldDefinition) -> (r: String)
    ensures
        r@ == sub_field_def(dialect, *field),
{
    let name = quote_ident(field.name.as_str());
    cat3(name.as_str(), " ", field_ddl_type(dialect, field))
}

/// The definition of a column that goes with another.
pub open spec fn companion_def(name: Seq<char>) -> Seq<char> {
    quoted(name) + " TEXT"@
}

fn companion_definition(name: &str) -> (r: String)
    ensures
        r@ == companion_def(name@),
{
    let name = quote_ident(name);
    cat2(name.as_str(), " TEXT")
}

/// The column definitions of one sub-field: its own, then those that go with it.
pub open spec fn one_sub_defs(dialect: Dialect, field: FieldDefinition) -> Seq<Seq<char>> {
    let companions = field.companions(field.name@);
    seq![sub_field_def(dialect, field)] + Seq::new(
        companions.len(),
        |i: int| companion_def(companions[i]),
    )
}

/// The column definitions of every sub-field, in order.
pub open spec fn sub_defs(dialect: Dialect, subs: Seq<FieldDefinition>) -> Seq<Seq<char>>
    decreases subs.len(),
{
    if subs.len() == 0 {
        Seq::empty()
    } else {
        sub_defs(dialect, subs.drop_last()) + one_sub_defs(dialect, subs.last())
    }
}

/// The column definitions of an array table.
pub open spec fn array_columns(
    dialect: Dialect,
    collection: Seq<char>,
    subs: Seq<FieldDefinition>,
    locale: Option<Seq<char>>,
) -> Seq<Seq<char>> {
    let own = seq![
        "id TEXT PRIMARY KEY"@,
        "parent_id TEXT NOT NULL REFERENCES "@ + quoted(collection) + "(id) ON DELETE CASCADE"@,
        "_order INTEGER NOT NULL DEFAULT 0"@,
    ];
    let keyed = match locale {
        Some(code) => own.push(locale_column_def(code)),
        None => own,
    };
    keyed + sub_defs(dialect, subs)
}

/// The statement creating an array table.
pub open spec fn create_array_sql(
    dialect: Dialect,
    table: Seq<char>,
    collection: Seq<char>,
    subs: Seq<FieldDefinition>,
    locale: Option<Seq<char>>,
) -> Seq<char> {
    "CREATE TABLE \""@ + table + "\" ("@ + join(
        array_columns(dialect, collection, subs, locale),
        ", "@,
    ) + ")"@
}

/// The locale that rows written before a table kept them apart belong to, where
/// it does.
pub open spec fn row_locale(has_locale_col: bool, config: LocaleConfig) -> Option<Seq<char>> {
    if has_locale_col {
        Some(config.default_locale@)
    } else {
        None
    }
}

fn push_sub_defs(dialect: Dialect, field: &FieldDefinition, columns: &mut Vec<String>)
    ensures
        final(columns).deep_view() == old(columns).deep_view() + one_sub_defs(dialect, *field),
{
    let ghost before = columns.deep_view();
    let ghost wanted = before + one_sub_defs(dialect, *field);
    push_item(columns, sub_field_definition(dialect, field));
    let companions = field.companion_columns(field.name.as_str());
    let mut i: usize = 0;
    while i < companions.len()
        invariant
            i <= companions.len(),
            companions.deep_view() == field.companions(field.name@),
            wanted == before + one_sub_defs(dialect, *field),
            columns.deep_view() =~= wanted.take(before.len() + 1 + i),
        decreases companions.len() - i,
    {
        assert(companions.deep_view()[i as int] == companions@[i as int]@);
        push_item(columns, companion_definition(companions[i].as_str()));
        i += 1;
    }
    assert(columns.deep_view() =~= wanted);
}

/// Creates an array table.
pub open spec fn create_array_step(
    s: SessionView,
    table: Seq<char>,
    collection: Seq<char>,
    subs: Seq<FieldDefinition>,
    locale: Option<Seq<char>>,
) -> Step<()> {
    within(
        ddl_step(
            s.noted("Creating array table: "@ + table),
            create_array_sql(s.dialect, table, collection, subs, locale),
        ),
        "Failed to create array table "@ + table,
    )
}

fn create_array_table(
    conn: &mut Session,
    table_name: &str,
    collection_slug: &str,
    flat_subs: &Vec<&FieldDefinition>,
    has_locale_col: bool,
    locale_config: &LocaleConfig,
) -> (r: Result<(), DbError>)
    ensures
        (final(conn)@, out(r)) == create_array_step(
            old(conn)@,
            table_name@,
            collection_slug@,
            referred(flat_subs@),
            row_locale(has_locale_col, *locale_config),
        ),
{
    let dialect = conn.dialect();
    let collection = quote_ident(collection_slug);
    let mut columns = vec![
        "id TEXT PRIMARY KEY".to_owned(),
        cat3(
            "parent_id TEXT NOT NULL REFERENCES ",
            collection.as_str(),
            "(id) ON DELETE CASCADE",
        ),
        "_order INTEGER NOT NULL DEFAULT 0".to_owned(),
    ];
    assert(columns.deep_view() =~= seq![
        "id TEXT PRIMARY KEY"@,
        "parent_id TEXT NOT NULL REFERENCES "@ + quoted(collection_slug@)
            + "(id) ON DELETE CASCADE"@,
        "_order INTEGER NOT NULL DEFAULT 0"@,
    ]);
    if has_locale_col {
        push_item(
            &mut columns,
            locale_column_definition(locale_config.default_locale.as_str()),
        );
    }
    let ghost keyed = columns.deep_view();
    let ghost subs = referred(flat_subs@);
    let mut i: usize = 0;
    assert(subs.take(0) =~= Seq::<FieldDefinition>::empty());
    assert(keyed + Seq::<Seq<char>>::empty() =~= keyed);
    while i < flat_subs.len()
        invariant
            i <= flat_subs.len(),
            subs == referred(flat_subs@),
            columns.deep_view() == keyed + sub_defs(dialect, subs.take(i as int)),
        decreases flat_subs.len() - i,
    {
        assert(subs.take(i + 1).drop_last() =~= subs.take(i as int));
        assert(subs.take(i + 1).last() == *flat_subs@[i as int]);
        push_sub_defs(dialect, flat_subs[i], &mut columns);
        i += 1;
        assert(columns.deep_view() =~= keyed + sub_defs(dialect, subs.take(i as int)));
    }
    assert(subs.take(i as int) =~= subs);
    let body = join_with(&columns, ", ");
    conn.note(cat2("Creating array table: ", table_name));
    let created = conn.execute_ddl(
        cat5("CREATE TABLE \"", table_name, "\" (", body.as_str(), ")"),
    );
    add_context(created, cat2("Failed to create array table ", table_name).as_str())
}

/// Adds the companions from the `i`-th on where the table lacks them.
pub open spec fn add_companions_from(
    s: SessionView,
    table: Seq<char>,
    companions: Seq<Seq<char>>,
    existing: Seq<Seq<char>>,
    i: int,
) -> Step<()>
    decreases companions.len() - i,
{
    if i < 0 || i >= companions.len() {
        (s, Ok(()))
    } else {
        let (s1, r) = add_column_step(
            s,
            table,
            companions[i],
            companion_def(companions[i]),
            existing,
        );
        match r {
            Err(e) => (s1, Err(e)),
            Ok(_) => add_companions_from(s1, table, companions, existing, i + 1),
        }
    }
}

/// Makes the stored column of a list of plain values text.
pub open spec fn reconcile_sub_step(
    s: SessionView,
    table: Seq<char>,
    field: FieldDefinition,
    existing: Seq<Seq<char>>,
    types: Seq<(Seq<char>, Seq<char>)>,
) -> Step<()> {
    if existing.contains(field.name@) && field.scalar_list() {
        reconcile_scalar_list_step(s, table, field.name@, types)
    } else {
        (s, Ok(()))
    }
}

/// Brings the columns of one sub-field to its definition.
pub open spec fn alter_sub_step(
    s: SessionView,
    table: Seq<char>,
    field: FieldDefinition,
    existing: Seq<Seq<char>>,
    types: Seq<(Seq<char>, Seq<char>)>,
) -> Step<()> {
    let (s1, r1) = reconcile_sub_step(s, table, field, existing, types);
    match r1 {
        Err(e) => (s1, Err(e)),
        Ok(_) => {
            let (s2, r2) = add_column_step(
                s1,
                table,
                field.name@,
                sub_field_def(s.dialect, field),
                existing,
            );
            match r2 {
                Err(e) => (s2, Err(e)),
                Ok(_) => add_companions_from(s2, table, field.companions(field.name@), existing, 0),
            }
        },
    }
}

/// Brings the columns of the sub-fields from the `i`-th on to their definitions.
pub open spec fn alter_subs_from(
    s: SessionView,
    table: Seq<char>,
    subs: Seq<FieldDefinition>,
    existing: Seq<Seq<char>>,
    types: Seq<(Seq<char>, Seq<char>)>,
    i: int,
) -> Step<()>
    decreases subs.len() - i,
{
    if i < 0 || i >= subs.len() {
        (s, Ok(()))
    } else {
        let (s1, r) = alter_sub_step(s, table, subs[i], existing, types);
        match r {
            Err(e) => (s1, Err(e)),
            Ok(_) => alter_subs_from(s1, table, subs, existing, types, i + 1),
        }
    }
}

/// Adds the columns a stored array table lacks.
pub open spec fn alter_array_step(
    s: SessionView,
    table: Seq<char>,
    subs: Seq<FieldDefinition>,
) -> Step<()> {
    let (s1, existing) = table_columns_step(s, table);
    match existing {
        Err(e) => (s1, Err(e)),
        Ok(existing) => {
            let (s2, types) = table_column_types_step(s1, table);
            match types {
                Err(e) => (s2, Err(e)),
                Ok(types) => alter_subs_from(s2, table, subs, existing, types, 0),
            }
        },
    }
}

fn alter_sub(
    conn: &mut Session,
    table: &str,
    field: &FieldDefinition,
    existing: &Vec<String>,
    types: &Vec<(String, String)>,
) -> (r: Result<(), DbError>)
    ensures
        (final(conn)@, out(r)) == alter_sub_step(
            old(conn)@,
            table@,
            *field,
            existing.deep_view(),
            types.deep_view(),
        ),
{
    let name = field.name.as_str();
    let definition = sub_field_definition(conn.dialect(), field);
    if contains(existing, name) && field.is_has_many_scalar() {
        reconcile_scalar_list_column(conn, table, name, types)?;
    }
    add_column_if_missing(conn, table, name, definition.as_str(), existing)?;
    let companions = field.companion_columns(name);
    let ghost start = conn@;
    let ghost all = companions.deep_view();
    let mut i: usize = 0;
    while i < companions.len()
        invariant
            i <= companions.len(),
            all == companions.deep_view(),
            add_companions_from(start, table@, all, existing.deep_view(), 0) == alter_sub_step(
                old(conn)@,
                table@,
                *field,
                existing.deep_view(),
                types.deep_view(),
            ),
            add_companions_from(start, table@, all, existing.deep_view(), 0)
                == add_companions_from(conn@, table@, all, existing.deep_view(), i as int),
        decreases companions.len() - i,
    {
        assert(all[i as int] == companions@[i as int]@);
        let companion = companions[i].as_str();
        let definition = companion_definition(companion);
        add_column_if_missing(conn, table, companion, definition.as_str(), existing)?;
        i += 1;
    }
    Ok(())
}

fn alter_array_table(conn: &mut Session, table: &str, flat_subs: &Vec<&FieldDefinition>) -> (r:
    Result<(), DbError>)
    ensures
        (final(conn)@, out(r)) == alter_array_step(old(conn)@, table@, referred(flat_subs@)),
{
    let existing = get_table_columns(conn, table)?;
    let types = get_table_column_types(conn, table)?;
    let ghost start = conn@;
    let ghost subs = referred(flat_subs@);
    let mut i: usize = 0;
    while i < flat_subs.len()
        invariant
            i <= flat_subs.len(),
            subs == referred(flat_subs@),
            alter_subs_from(start, table@, subs, existing.deep_view(), types.deep_view(), 0)
                == alter_array_step(old(conn)@, table@, subs),
            alter_subs_from(start, table@, subs, existing.deep_view(), types.deep_view(), 0)
                == alter_subs_from(
                conn@,
                table@,
                subs,
                existing.deep_view(),
                types.deep_view(),
                i as int,
            ),
        decreases flat_subs.len() - i,
    {
        assert(subs[i as int] == *flat_subs@[i as int]);
        alter_sub(conn, table, flat_subs[i], &existing, &types)?;
        i += 1;
    }
    Ok(())
}

/// Adds what a stored array table lacks: the locale column, then the columns of
/// its sub-fields.
pub open spec fn update_array_step(
    s: SessionView,
    table: Seq<char>,
    subs: Seq<FieldDefinition>,
    locale: Option<Seq<char>>,
) -> Step<()> {
    match locale {
        None => alter_array_step(s, table, subs),
        Some(code) => {
            let (s1, r) = ensure_locale_column_step(s, table, code);
            match r {
                Err(e) => (s1, Err(e)),
                Ok(_) => alter_array_step(s1, table, subs),
            }
        },
    }
}

/// Creates an array table, or adds what it lacks.
pub open spec fn array_ddl_step(
    s: SessionView,
    table: Seq<char>,
    collection: Seq<char>,
    subs: Seq<FieldDefinition>,
    locale: Option<Seq<char>>,
) -> Step<()> {
    let (s1, exists) = table_exists_step(s, table);
    match exists {
        Err(e) => (s1, Err(e)),
        Ok(true) => update_array_step(s1, table, subs, locale),
        Ok(false) => create_array_step(s1, table, collection, subs, locale),
    }
}

/// Creates an array table, or adds what it lacks, and gives it its index.
pub open spec fn sync_array_step(
    s: SessionView,
    collection: Seq<char>,
    field: FieldDefinition,
    full_name: Seq<char>,
    has_locale_col: bool,
    config: LocaleConfig,
) -> Step<()> {
    let table = join_table_name(collection, full_name);
    let (s1, r) = array_ddl_step(
        s,
        table,
        collection,
        row_fields(field.fields@),
        row_locale(has_locale_col, config),
    );
    match r {
        Err(e) => (s1, Err(e)),
        Ok(_) => sync_index_step(
            s1,
            table,
            has_locale_col,
            index_name(table, has_locale_col, short_digest(table)),
        ),
    }
}

/// Creates the table of an array field, or adds what it lacks, and gives it its
/// index.
pub fn sync_array_table(
    conn: &mut Session,
    collection_slug: &str,
    field: &FieldDefinition,
    full_name: &str,
    has_locale_col: bool,
    locale_config: &LocaleConfig,
) -> (r: Result<(), DbError>)
    ensures
        (final(conn)@, out(r)) == sync_array_step(
            old(conn)@,
            collection_slug@,
            *field,
            full_name@,
            has_locale_col,
            *locale_config,
        ),
{
    let table_name = join_table(collection_slug, full_name);
    let flat_subs = flatten_array_sub_fields(&field.fields);
    if table_exists(conn, table_name.as_str())? {
        if has_locale_col {
            ensure_locale_column(
                conn,
                table_name.as_str(),
                locale_config.default_locale.as_str(),
            )?;
        }
        alter_array_table(conn, table_name.as_str(), &flat_subs)?;
    } else {
        create_array_table(
            conn,
            table_name.as_str(),
            collection_slug,
            &flat_subs,
            has_locale_col,
            locale_config,
        )?;
    }
    sync_row_parent_index(conn, table_name.as_str(), has_locale_col)
}

/// Whether a table has every column of a sub-field, and the column of a list is text.
pub open spec fn holds_sub(
    dialect: Dialect,
    field: FieldDefinition,
    existing: Seq<Seq<char>>,
    types: Seq<(Seq<char>, Seq<char>)>,
) -> bool {
    &&& existing.contains(field.name@)
    &&& forall|k: int|
        0 <= k < field.companions(field.name@).len() ==> existing.contains(
            #[trigger] field.companions(field.name@)[k],
        )
    &&& dialect == Dialect::Postgres && field.scalar_list() ==> match type_of(types, field.name@) {
        None => true,
        Some(t) => equal_ignoring_case(t, "TEXT"@),
    }
}

proof fn held_companions_are_not_added(
    s: SessionView,
    table: Seq<char>,
    companions: Seq<Seq<char>>,
    existing: Seq<Seq<char>>,
    i: int,
)
    requires
        0 <= i,
        forall|k: int| 0 <= k < companions.len() ==> existing.contains(#[trigger] companions[k]),
    ensures
        add_companions_from(s, table, companions, existing, i) == (s, Ok::<(), ErrorView>(())),
    decreases companions.len() - i,
{
    if i < companions.len() {
        assert(existing.contains(companions[i]));
        held_companions_are_not_added(s, table, companions, existing, i + 1);
    }
}

/// An array table that has the columns of its sub-fields is not altered.
pub proof fn an_array_table_in_shape_is_not_altered(
    s: SessionView,
    table: Seq<char>,
    subs: Seq<FieldDefinition>,
    existing: Seq<Seq<char>>,
    types: Seq<(Seq<char>, Seq<char>)>,
    i: int,
)
    requires
        0 <= i,
        forall|k: int|
            0 <= k < subs.len() ==> holds_sub(s.dialect, #[trigger] subs[k], existing, types),
    ensures
        alter_subs_from(s, table, subs, existing, types, i) == (s, Ok::<(), ErrorView>(())),
    decreases subs.len() - i,
{
    if i < subs.len() {
        assert(holds_sub(s.dialect, subs[i], existing, types));
        let name = subs[i].name@;
        held_companions_are_not_added(s, table, subs[i].companions(name), existing, 0);
        an_array_table_in_shape_is_not_altered(s, table, subs, existing, types, i + 1);
    }
}

} // verus!
