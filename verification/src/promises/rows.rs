//! The tables that rows are kept in: what they are made of, and what becomes of their
//! rows when the document they belong to goes.
use crate::definition::{FieldDefinition, FieldType};
use crate::migrate::helpers::column_specs::{ddl_type_of, locale_column_def};
use crate::migrate::join_tables::array::{
    array_columns, companion_def, create_array_sql, create_array_step, one_sub_defs, sub_defs,
    sub_field_def,
};
use crate::migrate::join_tables::blocks::{blocks_ddl_step, create_blocks_sql};
use crate::migrate::join_tables::junction_shape::{JunctionShapeView, create_junction_step};
use crate::names::{escaped, quoted};
use crate::promises::{answered, running};
use crate::promises::lookups::{a_table_is_looked_for, asks_for_table, told_missing, told_there};
use crate::session::{Dialect, ReplyView, SessionView, ddl_text};
use crate::text::join;
use crate::value::ErrorView;
use vstd::prelude::*;

verus! {

/// The column type a field's value is kept in: lists of plain values are text, numbers
/// and checkboxes have a type of their own, all else is text.
pub open spec fn kept_as(dialect: Dialect, field: FieldDefinition) -> Seq<char> {
    let number = match dialect {
        Dialect::Sqlite => "REAL"@,
        Dialect::Postgres => "DOUBLE PRECISION"@,
    };
    let truth = match dialect {
        Dialect::Sqlite => "INTEGER"@,
        Dialect::Postgres => "SMALLINT"@,
    };
    match field.field_type {
        FieldType::Number => if field.has_many {
            "TEXT"@
        } else {
            number
        },
        FieldType::Checkbox => truth,
        _ => "TEXT"@,
    }
}

/// A value has one type of column, wherever it is kept.
pub proof fn values_have_one_type(dialect: Dialect, field: FieldDefinition)
    ensures
        ddl_type_of(dialect, field) == kept_as(dialect, field),
{
}

/// The definition of the column that a field of a row is kept in, and of the column kept
/// beside it: the zone of a date, the language of a code.
pub open spec fn row_column(dialect: Dialect, field: FieldDefinition) -> Seq<char> {
    let own = ", "@ + quoted(field.name@) + " "@ + kept_as(dialect, field);
    if field.field_type == FieldType::Date && field.timezone {
        own + ", "@ + quoted(field.name@ + "_tz"@) + " TEXT"@
    } else if field.field_type == FieldType::Code && field.languages@.len() > 0 {
        own + ", "@ + quoted(field.name@ + "_lang"@) + " TEXT"@
    } else {
        own
    }
}

/// The definitions of the columns that the fields of a row are kept in.
pub open spec fn row_columns(dialect: Dialect, fields: Seq<FieldDefinition>) -> Seq<char>
    decreases fields.len(),
{
    if fields.len() == 0 {
        Seq::empty()
    } else {
        row_columns(dialect, fields.drop_last()) + row_column(dialect, fields.last())
    }
}

/// The definition of the column that says which locale a row belongs to.
pub open spec fn row_locale_column(locale: Option<Seq<char>>) -> Seq<char> {
    match locale {
        Some(code) => ", _locale TEXT NOT NULL DEFAULT '"@ + escaped(code) + "'"@,
        None => Seq::empty(),
    }
}

spec fn each_after(sep: Seq<char>, parts: Seq<Seq<char>>) -> Seq<char>
    decreases parts.len(),
{
    if parts.len() == 0 {
        Seq::empty()
    } else {
        each_after(sep, parts.drop_last()) + sep + parts.last()
    }
}

proof fn joined_behind(first: Seq<Seq<char>>, rest: Seq<Seq<char>>, sep: Seq<char>)
    requires
        first.len() > 0,
    ensures
        join(first + rest, sep) == join(first, sep) + each_after(sep, rest),
    decreases rest.len(),
{
    if rest.len() == 0 {
        assert(first + rest =~= first);
        assert(join(first, sep) + Seq::<char>::empty() =~= join(first, sep));
    } else {
        joined_behind(first, rest.drop_last(), sep);
        assert((first + rest).drop_last() =~= first + rest.drop_last());
        assert(join(first, sep) + (each_after(sep, rest.drop_last()) + sep + rest.last()) =~= join(
            first,
            sep,
        ) + each_after(sep, rest.drop_last()) + sep + rest.last());
    }
}

proof fn after_in_parts(sep: Seq<char>, a: Seq<Seq<char>>, b: Seq<Seq<char>>)
    ensures
        each_after(sep, a + b) == each_after(sep, a) + each_after(sep, b),
    decreases b.len(),
{
    if b.len() == 0 {
        assert(a + b =~= a);
        assert(each_after(sep, a) + Seq::<char>::empty() =~= each_after(sep, a));
    } else {
        after_in_parts(sep, a, b.drop_last());
        assert((a + b).drop_last() =~= a + b.drop_last());
        assert(each_after(sep, a) + (each_after(sep, b.drop_last()) + sep + b.last())
            =~= each_after(sep, a) + each_after(sep, b.drop_last()) + sep + b.last());
    }
}

proof fn one_column_after(dialect: Dialect, field: FieldDefinition)
    ensures
        each_after(", "@, one_sub_defs(dialect, field)) == row_column(dialect, field),
{
    let defs = one_sub_defs(dialect, field);
    let own = sub_field_def(dialect, field);
    let companions = field.companions(field.name@);
    assert(defs[0] == own);
    assert(seq![own].drop_last() =~= Seq::empty());
    reveal_with_fuel(each_after, 3);
    if companions.len() == 0 {
        assert(defs =~= seq![own]);
        assert(each_after(", "@, defs) =~= ", "@ + quoted(field.name@) + " "@ + kept_as(
            dialect,
            field,
        ));
    } else {
        let beside = companion_def(companions[0]);
        assert(defs =~= seq![own, beside]);
        assert(defs.drop_last() =~= seq![own]);
        assert(each_after(", "@, defs) =~= ", "@ + quoted(field.name@) + " "@ + kept_as(
            dialect,
            field,
        ) + ", "@ + quoted(companions[0]) + " TEXT"@);
    }
}

proof fn columns_after(dialect: Dialect, fields: Seq<FieldDefinition>)
    ensures
        each_after(", "@, sub_defs(dialect, fields)) == row_columns(dialect, fields),
    decreases fields.len(),
{
    if fields.len() > 0 {
        columns_after(dialect, fields.drop_last());
        after_in_parts(
            ", "@,
            sub_defs(dialect, fields.drop_last()),
            one_sub_defs(dialect, fields.last()),
        );
        one_column_after(dialect, fields.last());
    }
}

/// The statement making the table of an array: a row has an id, belongs to a document and
/// goes when that goes, and keeps its place.
pub open spec fn array_made(
    dialect: Dialect,
    table: Seq<char>,
    collection: Seq<char>,
    fields: Seq<FieldDefinition>,
    locale: Option<Seq<char>>,
) -> Seq<char> {
    "CREATE TABLE \""@ + table
        + "\" (id TEXT PRIMARY KEY, parent_id TEXT NOT NULL REFERENCES "@ + quoted(collection)
        + "(id) ON DELETE CASCADE, _order INTEGER NOT NULL DEFAULT 0"@ + row_locale_column(locale)
        + row_columns(dialect, fields) + ")"@
}

spec fn own_array_columns(collection: Seq<char>) -> Seq<char> {
    "id TEXT PRIMARY KEY"@ + ", "@ + ("parent_id TEXT NOT NULL REFERENCES "@ + quoted(collection)
        + "(id) ON DELETE CASCADE"@) + ", "@ + "_order INTEGER NOT NULL DEFAULT 0"@
}

proof fn array_columns_joined(
    dialect: Dialect,
    collection: Seq<char>,
    fields: Seq<FieldDefinition>,
    locale: Option<Seq<char>>,
)
    ensures
        join(array_columns(dialect, collection, fields, locale), ", "@) == own_array_columns(
            collection,
        ) + row_locale_column(locale) + row_columns(dialect, fields),
{
    let id = "id TEXT PRIMARY KEY"@;
    let parent = "parent_id TEXT NOT NULL REFERENCES "@ + quoted(collection)
        + "(id) ON DELETE CASCADE"@;
    let order = "_order INTEGER NOT NULL DEFAULT 0"@;
    let own = seq![id, parent, order];
    let subs = sub_defs(dialect, fields);
    let all = array_columns(dialect, collection, fields, locale);
    let start = own_array_columns(collection);
    assert(join(own, ", "@) == start) by {
        reveal_with_fuel(join, 4);
        assert(own.drop_last() =~= seq![id, parent]);
        assert(seq![id, parent].drop_last() =~= seq![id]);
    }
    columns_after(dialect, fields);
    let columns = row_columns(dialect, fields);
    match locale {
        Some(code) => {
            let at = locale_column_def(code);
            assert(all =~= own + (seq![at] + subs));
            joined_behind(own, seq![at] + subs, ", "@);
            after_in_parts(", "@, seq![at], subs);
            assert(each_after(", "@, seq![at]) =~= ", "@ + at) by {
                reveal_with_fuel(each_after, 2);
                assert(seq![at].drop_last() =~= Seq::empty());
            }
            a_locale_column_behind(code);
            let listed = row_locale_column(locale);
            assert(start + (listed + columns) =~= start + listed + columns);
        },
        None => {
            assert(all =~= own + subs);
            joined_behind(own, subs, ", "@);
            assert(start + Seq::<char>::empty() =~= start);
        },
    }
}

proof fn regrouped(
    b: Seq<char>,
    i: Seq<char>,
    c: Seq<char>,
    p: Seq<char>,
    q: Seq<char>,
    d: Seq<char>,
    o: Seq<char>,
)
    ensures
        b + (i + c + (p + q + d) + c + o) == (b + i + c + p) + q + (d + c + o),
{
    assert(b + (i + c + (p + q + d) + c + o) =~= (b + i + c + p) + q + (d + c + o));
}

proof fn arrays_are_made_so(
    dialect: Dialect,
    table: Seq<char>,
    collection: Seq<char>,
    fields: Seq<FieldDefinition>,
    locale: Option<Seq<char>>,
)
    ensures
        create_array_sql(dialect, table, collection, fields, locale) == array_made(
            dialect,
            table,
            collection,
            fields,
            locale,
        ),
{
    let own = own_array_columns(collection);
    let listed = row_locale_column(locale);
    let columns = row_columns(dialect, fields);
    array_columns_joined(dialect, collection, fields, locale);
    own_columns_in_one();
    regrouped(
        "\" ("@,
        "id TEXT PRIMARY KEY"@,
        ", "@,
        "parent_id TEXT NOT NULL REFERENCES "@,
        quoted(collection),
        "(id) ON DELETE CASCADE"@,
        "_order INTEGER NOT NULL DEFAULT 0"@,
    );
    let lead = "\" (id TEXT PRIMARY KEY, parent_id TEXT NOT NULL REFERENCES "@;
    let tail = "(id) ON DELETE CASCADE, _order INTEGER NOT NULL DEFAULT 0"@;
    let start = "CREATE TABLE \""@ + table;
    assert(start + "\" ("@ + (own + listed + columns) + ")"@ =~= start + ("\" ("@ + own) + listed
        + columns + ")"@);
    assert(start + (lead + quoted(collection) + tail) =~= start + lead + quoted(collection) + tail);
}

proof fn own_columns_in_one()
    ensures
        "\" ("@ + "id TEXT PRIMARY KEY"@ + ", "@ + "parent_id TEXT NOT NULL REFERENCES "@
            == "\" (id TEXT PRIMARY KEY, parent_id TEXT NOT NULL REFERENCES "@,
        "(id) ON DELETE CASCADE"@ + ", "@ + "_order INTEGER NOT NULL DEFAULT 0"@
            == "(id) ON DELETE CASCADE, _order INTEGER NOT NULL DEFAULT 0"@,
{
    assert("\" ("@ + "id TEXT PRIMARY KEY"@ + ", "@ + "parent_id TEXT NOT NULL REFERENCES "@
        =~= "\" (id TEXT PRIMARY KEY, parent_id TEXT NOT NULL REFERENCES "@) by {
        reveal_strlit("\" (");
        reveal_strlit(", ");
        reveal_strlit("id TEXT PRIMARY KEY");
        reveal_strlit("parent_id TEXT NOT NULL REFERENCES ");
        reveal_strlit("\" (id TEXT PRIMARY KEY, parent_id TEXT NOT NULL REFERENCES ");
    }
    assert("(id) ON DELETE CASCADE"@ + ", "@ + "_order INTEGER NOT NULL DEFAULT 0"@
        =~= "(id) ON DELETE CASCADE, _order INTEGER NOT NULL DEFAULT 0"@) by {
        reveal_strlit(", ");
        reveal_strlit("(id) ON DELETE CASCADE");
        reveal_strlit("_order INTEGER NOT NULL DEFAULT 0");
        reveal_strlit("(id) ON DELETE CASCADE, _order INTEGER NOT NULL DEFAULT 0");
    }
}

proof fn a_locale_column_behind(code: Seq<char>)
    ensures
        ", "@ + locale_column_def(code) == row_locale_column(Some(code)),
{
    reveal_strlit(", ");
    reveal_strlit("_locale TEXT NOT NULL DEFAULT '");
    reveal_strlit(", _locale TEXT NOT NULL DEFAULT '");
    assert(", "@ + locale_column_def(code) =~= row_locale_column(Some(code)));
}

/// The table of an array is made with a row's own columns and a column for each field of
/// a row. A row refers to the document it belongs to and goes with it.
pub proof fn an_arrays_rows_go_with_their_document(
    s: SessionView,
    table: Seq<char>,
    collection: Seq<char>,
    fields: Seq<FieldDefinition>,
    locale: Option<Seq<char>>,
    n: u64,
    why: Seq<char>,
)
    ensures
        ({
            let (end, r) = create_array_step(s, table, collection, fields, locale);
            let made = array_made(s.dialect, table, collection, fields, locale);
            &&& end.sent == s.sent.push(running(ddl_text(s.dialect, made)))
            &&& s.dialect == Dialect::Sqlite ==> end.sent == s.sent.push(running(made))
            &&& answered(s, 0, ReplyView::Count(n)) ==> r == Ok::<(), ErrorView>(())
            &&& answered(s, 0, ReplyView::Failed(why)) ==> r == Err::<(), ErrorView>(
                ErrorView::Backend("Failed to create array table "@ + table + ": "@ + why),
            )
        }),
{
    arrays_are_made_so(s.dialect, table, collection, fields, locale);}

/// The statement making the table of a blocks field: a row has an id, belongs to a
/// document and goes when that goes, keeps its place, and holds a kind and its data.
pub open spec fn blocks_made(
    table: Seq<char>,
    collection: Seq<char>,
    locale: Option<Seq<char>>,
) -> Seq<char> {
    "CREATE TABLE "@ + quoted(table)
        + " (id TEXT PRIMARY KEY, parent_id TEXT NOT NULL REFERENCES "@ + quoted(collection)
        + "(id) ON DELETE CASCADE, _order INTEGER NOT NULL DEFAULT 0, _block_type TEXT NOT NULL, data TEXT NOT NULL DEFAULT '{}'"@
        + row_locale_column(locale) + ")"@
}

proof fn blocks_are_made_so(
    table: Seq<char>,
    collection: Seq<char>,
    locale: Option<Seq<char>>,
)
    ensures
        create_blocks_sql(table, collection, locale) == blocks_made(table, collection, locale),
{
    match locale {
        Some(code) => {
            a_locale_column_behind(code);
        },
        None => {},
    }
}

/// The table of a blocks field is made where it is missing, with rows that go with the
/// document they belong to. One that is there is left alone, but for the locale column
/// that a field kept per locale adds.
pub proof fn a_blocks_rows_go_with_their_document(
    s: SessionView,
    table: Seq<char>,
    collection: Seq<char>,
    locale: Option<Seq<char>>,
    n: u64,
)
    ensures
        ({
            let (end, r) = blocks_ddl_step(s, table, collection, locale);
            let looked = s.sent.push(asks_for_table(s.dialect, table));
            let made = blocks_made(table, collection, locale);
            &&& told_missing(s, s.sent.len() as int) ==> end.sent == looked.push(
                running(ddl_text(s.dialect, made)),
            )
            &&& told_missing(s, s.sent.len() as int) && answered(s, 1, ReplyView::Count(n))
                ==> r is Ok
            &&& told_there(s, s.sent.len() as int) && locale is None ==> end.sent == looked
                && r is Ok
        }),
{
    blocks_are_made_so(table, collection, locale);
    a_table_is_looked_for(s, table, Seq::empty());
    let asked = asks_for_table(s.dialect, table);
    assert(s.sent + seq![asked] =~= s.sent.push(asked));
}

/// The statement making a junction: a row belongs to a document and goes when that goes,
/// refers to another, and keeps its place. The key is what tells rows apart.
pub open spec fn junction_made(
    table: Seq<char>,
    collection: Seq<char>,
    polymorphic: bool,
    locale: Option<Seq<char>>,
) -> Seq<char> {
    "CREATE TABLE "@ + quoted(table) + " (parent_id TEXT NOT NULL REFERENCES "@ + quoted(collection)
        + "(id) ON DELETE CASCADE, related_id TEXT NOT NULL"@ + (if polymorphic {
        ", related_collection TEXT NOT NULL DEFAULT ''"@
    } else {
        Seq::empty()
    }) + ", _order INTEGER NOT NULL DEFAULT 0"@ + row_locale_column(locale)
        + ", PRIMARY KEY ("@ + junction_key(polymorphic, locale is Some) + "))"@
}

/// The columns of a junction's key.
pub open spec fn junction_key(polymorphic: bool, localized: bool) -> Seq<char> {
    match (polymorphic, localized) {
        (false, false) => "parent_id, related_id"@,
        (true, false) => "parent_id, related_id, related_collection"@,
        (false, true) => "parent_id, related_id, _locale"@,
        (true, true) => "parent_id, related_id, related_collection, _locale"@,
    }
}

pub(crate) proof fn keys_are_so(shape: JunctionShapeView)
    ensures
        join(shape.key_columns(), ", "@) == junction_key(
            shape.polymorphic,
            shape.default_locale is Some,
        ),
{
    let a = "parent_id"@;
    let b = "related_id"@;
    let c = "related_collection"@;
    let d = "_locale"@;
    reveal_with_fuel(join, 5);
    let keys = shape.key_columns();
    reveal_strlit(", ");
    reveal_strlit("parent_id");
    reveal_strlit("related_id");
    assert(seq![a, b].drop_last() =~= seq![a]);
    if shape.polymorphic && shape.default_locale is Some {
        assert(keys =~= seq![a, b, c, d]);
        assert(keys.drop_last() =~= seq![a, b, c]);
        assert(seq![a, b, c].drop_last() =~= seq![a, b]);
        reveal_strlit("related_collection");
        reveal_strlit("_locale");
        reveal_strlit("parent_id, related_id, related_collection, _locale");
        assert(join(keys, ", "@) =~= "parent_id, related_id, related_collection, _locale"@);
    } else if shape.polymorphic {
        assert(keys =~= seq![a, b, c]);
        assert(keys.drop_last() =~= seq![a, b]);
        reveal_strlit("related_collection");
        reveal_strlit("parent_id, related_id, related_collection");
        assert(join(keys, ", "@) =~= "parent_id, related_id, related_collection"@);
    } else if shape.default_locale is Some {
        assert(keys =~= seq![a, b, d]);
        assert(keys.drop_last() =~= seq![a, b]);
        reveal_strlit("_locale");
        reveal_strlit("parent_id, related_id, _locale");
        assert(join(keys, ", "@) =~= "parent_id, related_id, _locale"@);
    } else {
        assert(keys =~= seq![a, b]);
        reveal_strlit("parent_id, related_id");
        assert(join(keys, ", "@) =~= "parent_id, related_id"@);
    }
}

spec fn middle_columns(shape: JunctionShapeView) -> Seq<Seq<char>> {
    let key = "PRIMARY KEY ("@ + junction_key(shape.polymorphic, shape.default_locale is Some)
        + ")"@;
    let order = "_order INTEGER NOT NULL DEFAULT 0"@;
    let target = "related_collection TEXT NOT NULL DEFAULT ''"@;
    match (shape.polymorphic, shape.default_locale) {
        (false, None) => seq![order, key],
        (true, None) => seq![target, order, key],
        (false, Some(code)) => seq![order, locale_column_def(code), key],
        (true, Some(code)) => seq![target, order, locale_column_def(code), key],
    }
}

proof fn behind_a_comma()
    ensures
        ", "@ + "_order INTEGER NOT NULL DEFAULT 0"@ == ", _order INTEGER NOT NULL DEFAULT 0"@,
        ", "@ + "related_collection TEXT NOT NULL DEFAULT ''"@
            == ", related_collection TEXT NOT NULL DEFAULT ''"@,
        ", "@ + "PRIMARY KEY ("@ == ", PRIMARY KEY ("@,
        ")"@ + ")"@ == "))"@,
        " ("@ + "parent_id TEXT NOT NULL REFERENCES "@ == " (parent_id TEXT NOT NULL REFERENCES "@,
        "(id) ON DELETE CASCADE"@ + ", "@ + "related_id TEXT NOT NULL"@
            == "(id) ON DELETE CASCADE, related_id TEXT NOT NULL"@,
{
    reveal_strlit(", ");
    assert(", "@ + "_order INTEGER NOT NULL DEFAULT 0"@ =~= ", _order INTEGER NOT NULL DEFAULT 0"@)
        by {
        reveal_strlit("_order INTEGER NOT NULL DEFAULT 0");
        reveal_strlit(", _order INTEGER NOT NULL DEFAULT 0");
    }
    assert(", "@ + "related_collection TEXT NOT NULL DEFAULT ''"@
        =~= ", related_collection TEXT NOT NULL DEFAULT ''"@) by {
        reveal_strlit("related_collection TEXT NOT NULL DEFAULT ''");
        reveal_strlit(", related_collection TEXT NOT NULL DEFAULT ''");
    }
    assert(", "@ + "PRIMARY KEY ("@ =~= ", PRIMARY KEY ("@) by {
        reveal_strlit("PRIMARY KEY (");
        reveal_strlit(", PRIMARY KEY (");
    }
    assert(")"@ + ")"@ =~= "))"@) by {
        reveal_strlit(")");
        reveal_strlit("))");
    }
    assert(" ("@ + "parent_id TEXT NOT NULL REFERENCES "@
        =~= " (parent_id TEXT NOT NULL REFERENCES "@) by {
        reveal_strlit(" (");
        reveal_strlit("parent_id TEXT NOT NULL REFERENCES ");
        reveal_strlit(" (parent_id TEXT NOT NULL REFERENCES ");
    }
    assert("(id) ON DELETE CASCADE"@ + ", "@ + "related_id TEXT NOT NULL"@
        =~= "(id) ON DELETE CASCADE, related_id TEXT NOT NULL"@) by {
        reveal_strlit("(id) ON DELETE CASCADE");
        reveal_strlit("related_id TEXT NOT NULL");
        reveal_strlit("(id) ON DELETE CASCADE, related_id TEXT NOT NULL");
    }
}

spec fn middle_text(shape: JunctionShapeView) -> Seq<char> {
    (if shape.polymorphic {
        ", related_collection TEXT NOT NULL DEFAULT ''"@
    } else {
        Seq::empty()
    }) + ", _order INTEGER NOT NULL DEFAULT 0"@ + row_locale_column(shape.default_locale)
        + ", PRIMARY KEY ("@ + junction_key(shape.polymorphic, shape.default_locale is Some) + ")"@
}

proof fn middle_as_text(shape: JunctionShapeView)
    ensures
        each_after(", "@, middle_columns(shape)) == middle_text(shape),
{
    behind_a_comma();
    let keyed = junction_key(shape.polymorphic, shape.default_locale is Some);
    let key = "PRIMARY KEY ("@ + keyed + ")"@;
    let order = "_order INTEGER NOT NULL DEFAULT 0"@;
    let target = "related_collection TEXT NOT NULL DEFAULT ''"@;
    let none = Seq::<Seq<char>>::empty();
    let parts = middle_columns(shape);
    let sep = ", "@;
    assert(sep + key =~= (sep + "PRIMARY KEY ("@) + keyed + ")"@);
    reveal_with_fuel(each_after, 5);
    match (shape.polymorphic, shape.default_locale) {
        (false, None) => {
            assert(parts.drop_last() =~= seq![order]);
            assert(seq![order].drop_last() =~= none);
            assert(each_after(sep, parts) =~= (sep + order) + (sep + key));
            assert(each_after(sep, parts) =~= middle_text(shape));
        },
        (true, None) => {
            assert(parts.drop_last() =~= seq![target, order]);
            assert(seq![target, order].drop_last() =~= seq![target]);
            assert(seq![target].drop_last() =~= none);
            assert(each_after(sep, parts) =~= (sep + target) + (sep + order) + (sep + key));
            assert(each_after(sep, parts) =~= middle_text(shape));
        },
        (false, Some(code)) => {
            let at = locale_column_def(code);
            a_locale_column_behind(code);
            assert(parts.drop_last() =~= seq![order, at]);
            assert(seq![order, at].drop_last() =~= seq![order]);
            assert(seq![order].drop_last() =~= none);
            assert(each_after(sep, parts) =~= (sep + order) + (sep + at) + (sep + key));
            assert(each_after(sep, parts) =~= middle_text(shape));
        },
        (true, Some(code)) => {
            let at = locale_column_def(code);
            a_locale_column_behind(code);
            assert(parts.drop_last() =~= seq![target, order, at]);
            assert(seq![target, order, at].drop_last() =~= seq![target, order]);
            assert(seq![target, order].drop_last() =~= seq![target]);
            assert(seq![target].drop_last() =~= none);
            assert(each_after(sep, parts) =~= (sep + target) + (sep + order) + (sep + at) + (sep
                + key));
            assert(each_after(sep, parts) =~= middle_text(shape));
        },
    }
}

pub(crate) proof fn junctions_are_made_so(
    table: Seq<char>,
    collection: Seq<char>,
    shape: JunctionShapeView,
)
    ensures
        shape.create_sql(table, collection) == junction_made(
            table,
            collection,
            shape.polymorphic,
            shape.default_locale,
        ),
{
    let parent = "parent_id TEXT NOT NULL REFERENCES "@ + quoted(collection)
        + "(id) ON DELETE CASCADE"@;
    let related = "related_id TEXT NOT NULL"@;
    let own = seq![parent, related];
    let rest = middle_columns(shape);
    keys_are_so(shape);
    assert(shape.definitions(collection) =~= own + rest);
    joined_behind(own, rest, ", "@);
    middle_as_text(shape);
    behind_a_comma();
    assert(join(own, ", "@) == parent + ", "@ + related) by {
        reveal_with_fuel(join, 3);
        assert(own.drop_last() =~= seq![parent]);
    }
    let q = quoted(collection);
    let head = "CREATE TABLE "@ + quoted(table);
    junction_regrouped(
        " ("@,
        "parent_id TEXT NOT NULL REFERENCES "@,
        q,
        "(id) ON DELETE CASCADE"@,
        ", "@,
        related,
    );
    let lead = " (parent_id TEXT NOT NULL REFERENCES "@ + q
        + "(id) ON DELETE CASCADE, related_id TEXT NOT NULL"@;
    let middle = middle_text(shape);
    assert(head + " ("@ + (parent + ", "@ + related + middle) + ")"@ =~= head + (" ("@ + (parent
        + ", "@ + related)) + middle + ")"@);
    junction_tail(head, lead, shape);
    assert(head + (" (parent_id TEXT NOT NULL REFERENCES "@ + q
        + "(id) ON DELETE CASCADE, related_id TEXT NOT NULL"@) =~= head
        + " (parent_id TEXT NOT NULL REFERENCES "@ + q
        + "(id) ON DELETE CASCADE, related_id TEXT NOT NULL"@);
}

proof fn junction_regrouped(
    a: Seq<char>,
    b: Seq<char>,
    q: Seq<char>,
    c: Seq<char>,
    d: Seq<char>,
    e: Seq<char>,
)
    ensures
        a + ((b + q + c) + d + e) == (a + b) + q + (c + d + e),
{
    assert(a + ((b + q + c) + d + e) =~= (a + b) + q + (c + d + e));
}

proof fn junction_tail(head: Seq<char>, lead: Seq<char>, shape: JunctionShapeView)
    ensures
        head + lead + middle_text(shape) + ")"@ == head + lead + (if shape.polymorphic {
            ", related_collection TEXT NOT NULL DEFAULT ''"@
        } else {
            Seq::empty()
        }) + ", _order INTEGER NOT NULL DEFAULT 0"@ + row_locale_column(shape.default_locale)
            + ", PRIMARY KEY ("@ + junction_key(shape.polymorphic, shape.default_locale is Some)
            + "))"@,
{
    behind_a_comma();
    let t: Seq<char> = if shape.polymorphic {
        ", related_collection TEXT NOT NULL DEFAULT ''"@
    } else {
        Seq::empty()
    };
    let o = ", _order INTEGER NOT NULL DEFAULT 0"@;
    let l = row_locale_column(shape.default_locale);
    let p = ", PRIMARY KEY ("@;
    let k = junction_key(shape.polymorphic, shape.default_locale is Some);
    tail_regrouped(head + lead, t, o, l, p, k, ")"@, ")"@);
}

proof fn tail_regrouped(
    h: Seq<char>,
    t: Seq<char>,
    o: Seq<char>,
    l: Seq<char>,
    p: Seq<char>,
    k: Seq<char>,
    x: Seq<char>,
    y: Seq<char>,
)
    ensures
        h + (t + o + l + p + k + x) + y == h + t + o + l + p + k + (x + y),
{
    assert(h + (t + o + l + p + k + x) + y =~= h + t + o + l + p + k + (x + y));
}

/// A junction is made with rows that go with the document they belong to, keyed by what
/// tells them apart: the document, what it refers to, where that has several kinds its
/// kind, and where rows are kept per locale the locale.
pub proof fn a_junctions_rows_go_with_their_document(
    s: SessionView,
    table: Seq<char>,
    collection: Seq<char>,
    polymorphic: bool,
    locale: Option<Seq<char>>,
    n: u64,
)
    ensures
        ({
            let shape = JunctionShapeView { polymorphic, default_locale: locale };
            let (end, r) = create_junction_step(s, table, collection, shape);
            &&& end.sent == s.sent.push(
                running(
                    ddl_text(s.dialect, junction_made(table, collection, polymorphic, locale)),
                ),
            )
            &&& answered(s, 0, ReplyView::Count(n)) ==> r is Ok
        }),
{
    let shape = JunctionShapeView { polymorphic, default_locale: locale };
    junctions_are_made_so(table, collection, shape);
}

} // verus!
