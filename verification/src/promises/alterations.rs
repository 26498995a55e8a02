//! Tables that are there already: what is added to them, dropped and kept.
use crate::definition::{FieldDefinition, FieldType};
use crate::migrate::helpers::alter::{
    add_column_step, reconcile_scalar_list_step, system_column, type_from, type_mismatch,
    unaccounted, warned_of_columns,
};
use crate::migrate::helpers::introspection::{
    ConstraintKind, ConstraintView, table_column_types_step, table_constraints_step,
};
use crate::migrate::helpers::versions::{ddl_from, sync_versions_table_step};
use crate::migrate::inline_unique::{gate_pending_step, inline_unique_step};
use crate::migrate::join_tables::array::{
    add_companions_from, alter_array_step, alter_sub_step, alter_subs_from, companion_def,
    reconcile_sub_step, sub_field_def,
};
use crate::migrate::join_tables::junction_shape::{
    JunctionShapeView, add_target_column_step, drop_constraints_from, replace_key_step,
};
use crate::migrate::nullable_columns::{
    always_set, columns_to_relax_step, not_null_step, relax_from, to_relax,
};
use crate::names::quoted;
use crate::order::sorted;
use crate::promises::{
    after, answered, between, between_wider, parameters_are_counted_from_one, record_read, running,
};
use crate::promises::lookups::{asks_for_columns, columns_are_looked_for, told_columns};
use crate::promises::rows::{junction_key, kept_as, keys_are_so};
use crate::promises::system::filled_in;
use crate::replay::{
    extends_itself, extends_on, on_add_column_step, on_add_companions_from, on_alter_sub_step,
    on_alter_subs_from, on_reconcile_sub_step, on_table_column_types_step,
};
use crate::session::{Dialect, ReplyView, RequestView, SessionView, ddl_text, extends};
use crate::text::equal_ignoring_case;
use crate::value::{DbRowView, DbValueView, ErrorView, texts_under};
use vstd::prelude::*;

verus! {

/// The statement adding a column to a table.
pub open spec fn column_added(table: Seq<char>, definition: Seq<char>) -> Seq<char> {
    "ALTER TABLE "@ + quoted(table) + " ADD COLUMN "@ + definition
}

/// A column is added to a table that lacks it, by its definition, and to no other.
pub proof fn a_missing_column_is_added(
    s: SessionView,
    table: Seq<char>,
    name: Seq<char>,
    definition: Seq<char>,
    existing: Seq<Seq<char>>,
    n: u64,
    why: Seq<char>,
)
    ensures
        ({
            let (end, r) = add_column_step(s, table, name, definition, existing);
            &&& existing.contains(name) ==> end == s && r is Ok
            &&& !existing.contains(name) ==> {
                &&& end.sent == s.sent.push(
                    running(ddl_text(s.dialect, column_added(table, definition))),
                )
                &&& answered(s, 0, ReplyView::Count(n)) ==> r is Ok
                &&& answered(s, 0, ReplyView::Failed(why)) ==> r == Err::<(), ErrorView>(
                    ErrorView::Backend(
                        "Failed to add column "@ + name + " to "@ + table + ": "@ + why,
                    ),
                )
            }
        }),
{
}

/// What a schema statement is sent as: as it is on SQLite.
pub proof fn sqlite_takes_statements_as_they_are(sql: Seq<char>)
    ensures
        ddl_text(Dialect::Sqlite, sql) == sql,
{
}

/// Whether the column of a field of a row, and what is kept beside it, is there or added.
pub open spec fn row_field_added(
    s: SessionView,
    i: int,
    j: int,
    table: Seq<char>,
    existing: Seq<Seq<char>>,
    field: FieldDefinition,
) -> bool {
    let name = field.name@;
    let zoned = field.field_type == FieldType::Date && field.timezone;
    let tagged = field.field_type == FieldType::Code && field.languages@.len() > 0;
    &&& existing.contains(name) || between(
        s,
        i,
        j,
        running(
            ddl_text(
                s.dialect,
                column_added(table, quoted(name) + " "@ + kept_as(s.dialect, field)),
            ),
        ),
    )
    &&& zoned && !existing.contains(name + "_tz"@) ==> between(
        s,
        i,
        j,
        running(
            ddl_text(s.dialect, column_added(table, quoted(name + "_tz"@) + " TEXT"@)),
        ),
    )
    &&& tagged && !existing.contains(name + "_lang"@) ==> between(
        s,
        i,
        j,
        running(
            ddl_text(s.dialect, column_added(table, quoted(name + "_lang"@) + " TEXT"@)),
        ),
    )
}

proof fn row_field_added_wider(
    b: SessionView,
    d: SessionView,
    i: int,
    j: int,
    k: int,
    l: int,
    table: Seq<char>,
    existing: Seq<Seq<char>>,
    field: FieldDefinition,
)
    requires
        extends(b, d),
        row_field_added(b, i, j, table, existing, field),
        0 <= k <= i,
        j <= l,
    ensures
        row_field_added(d, k, l, table, existing, field),
{
    let name = field.name@;
    let e = b.dialect;
    let own = column_added(table, quoted(name) + " "@ + kept_as(e, field));
    let zone = column_added(table, quoted(name + "_tz"@) + " TEXT"@);
    let tag = column_added(table, quoted(name + "_lang"@) + " TEXT"@);
    if !existing.contains(name) {
        between_wider(b, d, i, j, k, l, running(ddl_text(e, own)));
    }
    if field.field_type == FieldType::Date && field.timezone && !existing.contains(name + "_tz"@) {
        between_wider(b, d, i, j, k, l, running(ddl_text(e, zone)));
    }
    if field.field_type == FieldType::Code && field.languages@.len() > 0 && !existing.contains(
        name + "_lang"@,
    ) {
        between_wider(b, d, i, j, k, l, running(ddl_text(e, tag)));
    }
}

proof fn an_added_column_is_sent(
    s: SessionView,
    table: Seq<char>,
    name: Seq<char>,
    definition: Seq<char>,
    existing: Seq<Seq<char>>,
)
    ensures
        ({
            let (end, r) = add_column_step(s, table, name, definition, existing);
            &&& extends(s, end)
            &&& r is Ok && !existing.contains(name) ==> between(
                end,
                s.sent.len() as int,
                end.sent.len() as int,
                running(ddl_text(s.dialect, column_added(table, definition))),
            )
        }),
{
    let (end, r) = add_column_step(s, table, name, definition, existing);
    on_add_column_step(s, table, name, definition, existing);
    if r is Ok && !existing.contains(name) {
        assert(end.sent[s.sent.len() as int] == running(
            ddl_text(s.dialect, column_added(table, definition)),
        ));
    }
}

proof fn a_row_field_is_added(
    s: SessionView,
    table: Seq<char>,
    field: FieldDefinition,
    existing: Seq<Seq<char>>,
    types: Seq<(Seq<char>, Seq<char>)>,
)
    requires
        alter_sub_step(s, table, field, existing, types).1 is Ok,
    ensures
        ({
            let end = alter_sub_step(s, table, field, existing, types).0;
            &&& extends(s, end)
            &&& row_field_added(
                end,
                s.sent.len() as int,
                end.sent.len() as int,
                table,
                existing,
                field,
            )
        }),
{
    let end = alter_sub_step(s, table, field, existing, types).0;
    let name = field.name@;
    let at = s.sent.len() as int;
    let last = end.sent.len() as int;
    let s1 = reconcile_sub_step(s, table, field, existing, types).0;
    let own = sub_field_def(s.dialect, field);
    let s2 = add_column_step(s1, table, name, own, existing).0;
    let beside = field.companions(name);
    on_reconcile_sub_step(s, table, field, existing, types);
    an_added_column_is_sent(s1, table, name, own, existing);
    on_add_companions_from(s2, table, beside, existing, 0);
    on_alter_sub_step(s, table, field, existing, types);
    if !existing.contains(name) {
        between_wider(
            s2,
            end,
            s1.sent.len() as int,
            s2.sent.len() as int,
            at,
            last,
            running(ddl_text(s.dialect, column_added(table, own))),
        );
    }
    if beside.len() > 0 {
        let other = beside[0];
        let definition = companion_def(other);
        an_added_column_is_sent(s2, table, other, definition, existing);
        let s3 = add_column_step(s2, table, other, definition, existing).0;
        on_add_companions_from(s3, table, beside, existing, 1);
        assert(end == add_companions_from(s3, table, beside, existing, 1).0);
        if !existing.contains(other) {
            between_wider(
                s3,
                end,
                s2.sent.len() as int,
                s3.sent.len() as int,
                at,
                last,
                running(ddl_text(s.dialect, column_added(table, definition))),
            );
        }
    }
}

proof fn row_fields_are_added(
    s: SessionView,
    table: Seq<char>,
    subs: Seq<FieldDefinition>,
    existing: Seq<Seq<char>>,
    types: Seq<(Seq<char>, Seq<char>)>,
    i: int,
    k: int,
)
    requires
        0 <= i <= k < subs.len(),
        alter_subs_from(s, table, subs, existing, types, i).1 is Ok,
    ensures
        ({
            let end = alter_subs_from(s, table, subs, existing, types, i).0;
            row_field_added(
                end,
                s.sent.len() as int,
                end.sent.len() as int,
                table,
                existing,
                subs[k],
            )
        }),
    decreases subs.len() - i,
{
    let end = alter_subs_from(s, table, subs, existing, types, i).0;
    let s1 = alter_sub_step(s, table, subs[i], existing, types).0;
    a_row_field_is_added(s, table, subs[i], existing, types);
    on_alter_subs_from(s1, table, subs, existing, types, i + 1);
    let last = end.sent.len() as int;
    let (b, from, to) = if i == k {
        (s1, s.sent.len() as int, s1.sent.len() as int)
    } else {
        row_fields_are_added(s1, table, subs, existing, types, i + 1, k);
        extends_itself(end);
        (end, s1.sent.len() as int, last)
    };
    row_field_added_wider(
        b,
        end,
        from,
        to,
        s.sent.len() as int,
        last,
        table,
        existing,
        subs[k],
    );
}

/// A stored array table is given every column that a field of its rows lacks there, and
/// that what is kept beside one lacks.
pub proof fn an_array_gains_what_it_lacks(
    s: SessionView,
    table: Seq<char>,
    subs: Seq<FieldDefinition>,
    k: int,
)
    requires
        0 <= k < subs.len(),
    ensures
        ({
            let (end, r) = alter_array_step(s, table, subs);
            let at = s.sent.len() as int;
            r is Ok ==> {
                &&& at < end.sent.len() && end.sent[at] == asks_for_columns(s.dialect, table)
                &&& told_columns(s, at) matches Some(existing) && row_field_added(
                    end,
                    at,
                    end.sent.len() as int,
                    table,
                    existing,
                    subs[k],
                )
            }
        }),
{
    let (end, r) = alter_array_step(s, table, subs);
    if r is Ok {
        let at = s.sent.len() as int;
        columns_are_looked_for(s, table, Seq::empty());
        let asked = asks_for_columns(s.dialect, table);
        let s1 = s.asked(asked);
        assert(s1.sent =~= s.sent + seq![asked]);
        let existing = told_columns(s, at)->Some_0;
        let (s2, types) = table_column_types_step(s1, table);
        on_table_column_types_step(s1, table);
        row_fields_are_added(s2, table, subs, existing, types->Ok_0, 0, k);
        on_alter_subs_from(s2, table, subs, existing, types->Ok_0, 0);
        extends_on(s1, s2, end);
        extends_itself(end);
        assert(s1.sent[at] == asked);
        assert(end.sent[at] == asked);
        row_field_added_wider(
            end,
            end,
            s2.sent.len() as int,
            end.sent.len() as int,
            at,
            end.sent.len() as int,
            table,
            existing,
            subs[k],
        );
    }
}

/// On Postgres the column of a list of plain values is made text where another type is
/// listed for it. SQLite needs no such thing.
pub proof fn lists_are_made_text(
    s: SessionView,
    table: Seq<char>,
    name: Seq<char>,
    stored: Seq<char>,
)
    ensures
        ({
            let types = seq![(name, stored)];
            let end = reconcile_scalar_list_step(s, table, name, types).0;
            let made_text = "ALTER TABLE "@ + quoted(table) + " ALTER COLUMN "@ + quoted(name)
                + " TYPE TEXT USING "@ + quoted(name) + "::text"@;
            &&& s.dialect == Dialect::Sqlite ==> end == s
            &&& s.dialect == Dialect::Postgres ==> {
                &&& equal_ignoring_case(stored, "TEXT"@) ==> end == s
                &&& !equal_ignoring_case(stored, "TEXT"@) ==> end.sent == s.sent.push(
                    running(ddl_text(s.dialect, made_text)),
                )
            }
        }),
{
    reveal_with_fuel(type_from, 2);
    assert(seq![(name, stored)][0] == (name, stored));
}

proof fn first_listed(types: Seq<(Seq<char>, Seq<char>)>, name: Seq<char>, i: int, k: int)
    requires
        0 <= i <= k < types.len(),
        types[k].0 == name,
        forall|m: int| i <= m < k ==> (#[trigger] types[m]).0 != name,
    ensures
        type_from(types, name, i) == Some(types[k].1),
    decreases k - i,
{
    if i < k {
        first_listed(types, name, i + 1, k);
    }
}

proof fn none_listed(types: Seq<(Seq<char>, Seq<char>)>, name: Seq<char>, i: int)
    requires
        0 <= i,
        forall|m: int| i <= m < types.len() ==> (#[trigger] types[m]).0 != name,
    ensures
        type_from(types, name, i) is None,
    decreases types.len() - i,
{
    if i < types.len() {
        none_listed(types, name, i + 1);
    }
}

/// A column whose stored type is another than its field asks for, letters' case aside, is
/// refused; one of that type, and one that is not stored, is not.
pub proof fn another_type_is_refused(
    table: Seq<char>,
    types: Seq<(Seq<char>, Seq<char>)>,
    name: Seq<char>,
    expected: Seq<char>,
    k: int,
)
    ensures
        0 <= k < types.len() && types[k].0 == name && (forall|m: int|
            0 <= m < k ==> (#[trigger] types[m]).0 != name) ==> (type_mismatch(
            table,
            types,
            name,
            expected,
        ) is Ok <==> equal_ignoring_case(types[k].1, expected)),
        (forall|m: int| 0 <= m < types.len() ==> (#[trigger] types[m]).0 != name)
            ==> type_mismatch(table, types, name, expected) is Ok,
        type_mismatch(table, types, name, expected) matches Err(e) ==> e is Refused,
{
    if 0 <= k < types.len() && types[k].0 == name && (forall|m: int|
        0 <= m < k ==> (#[trigger] types[m]).0 != name) {
        first_listed(types, name, 0, k);
    }
    if forall|m: int| 0 <= m < types.len() ==> (#[trigger] types[m]).0 != name {
        none_listed(types, name, 0);
    }
}

/// The columns that no field accounts for are those that are neither expected nor the
/// library's own: the id, the two timestamps, and what begins with an underscore.
pub proof fn what_no_field_accounts_for(
    existing: Seq<Seq<char>>,
    expected: Seq<Seq<char>>,
    column: Seq<char>,
)
    ensures
        unaccounted(existing, expected).contains(column) <==> existing.contains(column)
            && !expected.contains(column) && column != "id"@ && column != "created_at"@ && column
            != "updated_at"@ && !(column.len() > 0 && column[0] == '_'),
    decreases existing.len(),
{
    reveal_strlit("_");
    assert(system_column(column) <==> column == "id"@ || column == "created_at"@ || column
        == "updated_at"@ || (column.len() > 0 && column[0] == '_')) by {
        if column.len() > 0 && column[0] == '_' {
            assert("_"@ =~= column.take(1));
            assert("_"@.is_prefix_of(column));
        }
        if "_"@.is_prefix_of(column) {
            assert(column[0] == "_"@[0]);
        }
    }
    if existing.len() > 0 {
        let before = existing.drop_last();
        what_no_field_accounts_for(before, expected, column);
        let found = unaccounted(before, expected);
        let last = existing.last();
        assert(existing.contains(column) <==> before.contains(column) || last == column) by {
            if before.contains(column) {
                let i = choose|i: int| 0 <= i < before.len() && before[i] == column;
                assert(existing[i] == column);
            }
            if last == column {
                assert(existing[existing.len() - 1] == column);
            }
            if existing.contains(column) && last != column {
                let i = choose|i: int| 0 <= i < existing.len() && existing[i] == column;
                assert(before[i] == column);
            }
        }
        let all = unaccounted(existing, expected);
        if !(expected.contains(last) || system_column(last)) {
            assert(all == found.push(last));
            if found.contains(column) {
                let i = choose|i: int| 0 <= i < found.len() && found[i] == column;
                assert(all[i] == column);
            }
            if last == column {
                assert(all[found.len() as int] == column);
            }
            if all.contains(column) && last != column {
                let i = choose|i: int| 0 <= i < all.len() && all[i] == column;
                assert(found[i] == column);
            }
        }
    }
}

/// The operator is warned of each such column, in order, and no request is sent.
pub proof fn each_column_is_warned_of(
    s: SessionView,
    table: Seq<char>,
    columns: Seq<Seq<char>>,
    i: int,
)
    requires
        0 <= i <= columns.len(),
    ensures
        ({
            let end = warned_of_columns(s, table, columns, i);
            &&& end.sent == s.sent
            &&& end.warnings == s.warnings + Seq::new(
                (columns.len() - i) as nat,
                |k: int|
                    "Column '"@ + columns[i + k] + "' exists in table '"@ + table
                        + "' but not in Lua definition (not removed)"@,
            )
        }),
    decreases columns.len() - i,
{
    let told = |c: Seq<char>|
        "Column '"@ + c + "' exists in table '"@ + table
            + "' but not in Lua definition (not removed)"@;
    if i < columns.len() {
        let s1 = s.warned(told(columns[i]));
        each_column_is_warned_of(s1, table, columns, i + 1);
        let rest = Seq::new(
            (columns.len() - i - 1) as nat,
            |k: int|
                "Column '"@ + columns[i + 1 + k] + "' exists in table '"@ + table
                    + "' but not in Lua definition (not removed)"@,
        );
        let all = Seq::new(
            (columns.len() - i) as nat,
            |k: int|
                "Column '"@ + columns[i + k] + "' exists in table '"@ + table
                    + "' but not in Lua definition (not removed)"@,
        );
        assert(s.warnings.push(told(columns[i])) + rest =~= s.warnings + all);
    } else {
        assert(s.warnings =~= s.warnings + Seq::new(
            0,
            |k: int|
                "Column '"@ + columns[i + k] + "' exists in table '"@ + table
                    + "' but not in Lua definition (not removed)"@,
        ));
    }
}

/// The statement making the table of a definition's versions: each belongs to a document
/// and goes when that goes.
pub open spec fn versions_made(dialect: Dialect, slug: Seq<char>) -> Seq<char> {
    "CREATE TABLE "@ + ("_versions_"@ + slug)
        + " (id TEXT PRIMARY KEY, _parent TEXT NOT NULL REFERENCES "@ + slug
        + "(id) ON DELETE CASCADE, _version INTEGER NOT NULL, _status TEXT NOT NULL, _latest INTEGER NOT NULL DEFAULT 0, snapshot TEXT NOT NULL, created_at "@
        + filled_in(dialect) + ", updated_at "@ + filled_in(dialect) + ")"@
}

/// The table of versions is made where it is missing, with an index over a document's
/// latest, one over its versions from the newest on, and one that keeps their numbers
/// apart. One that is there is left alone.
pub proof fn versions_are_kept_in_a_table(s: SessionView, slug: Seq<char>, n: u64)
    requires
        s.dialect == Dialect::Sqlite,
    ensures
        ({
            let (end, r) = sync_versions_table_step(s, slug);
            let table = "_versions_"@ + slug;
            let looked = s.sent.push(RequestView::TableExists { table });
            &&& answered(s, 0, ReplyView::Flag(true)) ==> end.sent == looked && r is Ok
            &&& answered(s, 0, ReplyView::Flag(false)) && answered(s, 1, ReplyView::Count(n))
                && answered(s, 2, ReplyView::Count(n)) && answered(s, 3, ReplyView::Count(n))
                && answered(s, 4, ReplyView::Count(n)) ==> {
                &&& r is Ok
                &&& end.sent == looked.push(running(versions_made(s.dialect, slug))).push(
                    running(
                        "CREATE INDEX IF NOT EXISTS idx__ver_"@ + slug + "_parent_latest ON "@
                            + table + " (_parent, _latest)"@,
                    ),
                ).push(
                    running(
                        "CREATE INDEX IF NOT EXISTS idx__ver_"@ + slug + "_parent_version ON "@
                            + table + " (_parent, _version DESC)"@,
                    ),
                ).push(
                    running(
                        "CREATE UNIQUE INDEX IF NOT EXISTS idx__ver_"@ + slug
                            + "_parent_version_unique ON "@ + table + " (_parent, _version)"@,
                    ),
                )
            }
        }),
{
    reveal_with_fuel(ddl_from, 4);
}

/// A pass that is on record as done does not run again; one that is not, or without a
/// table of records, does.
pub proof fn a_pass_runs_until_it_is_on_record(
    s: SessionView,
    key: Seq<char>,
    row: DbRowView,
    value: Seq<char>,
)
    requires
        s.dialect == Dialect::Sqlite,
        row.values.len() > 0,
        row.values[0] == DbValueView::Text(value),
    ensures
        ({
            let (end, r) = gate_pending_step(s, key);
            let looked = s.sent.push(RequestView::TableExists { table: "_crap_meta"@ });
            &&& answered(s, 0, ReplyView::Flag(false)) ==> end.sent == looked && r == Ok::<
                bool,
                ErrorView,
            >(true)
            &&& answered(s, 0, ReplyView::Flag(true)) && answered(s, 1, ReplyView::Row(None))
                ==> end.sent == looked.push(record_read(s.dialect, key)) && r == Ok::<
                bool,
                ErrorView,
            >(true)
            &&& answered(s, 0, ReplyView::Flag(true)) && answered(
                s,
                1,
                ReplyView::Row(Some(row)),
            ) ==> end.sent == looked.push(record_read(s.dialect, key)) && r == Ok::<
                bool,
                ErrorView,
            >(value != "1"@)
        }),
{
    parameters_are_counted_from_one(s.dialect);
}

/// The columns that a table forbids to be empty are asked of the database by name.
pub proof fn required_columns_are_asked_for(
    s: SessionView,
    table: Seq<char>,
    rows: Seq<DbRowView>,
)
    ensures
        ({
            let (end, r) = not_null_step(s, table);
            let sql = match s.dialect {
                Dialect::Postgres => "SELECT column_name AS name FROM information_schema.columns WHERE table_schema = 'public' AND table_name = $1 AND is_nullable = 'NO'"@,
                Dialect::Sqlite => "SELECT name FROM pragma_table_info(?1) WHERE \"notnull\" = 1 AND pk = 0"@,
            };
            &&& end == after(
                s,
                seq![RequestView::QueryAll { sql, params: seq![DbValueView::Text(table)] }],
            )
            &&& answered(s, 0, ReplyView::Rows(rows)) ==> r == Ok::<Seq<Seq<char>>, ErrorView>(
                texts_under(rows, "name"@),
            )
        }),
{
    parameters_are_counted_from_one(s.dialect);
    let asked = not_null_step(s, table).0.sent.last();
    assert(s.sent.push(asked) =~= s.sent + seq![asked]);
    match s.dialect {
        Dialect::Postgres => {
            assert("SELECT column_name AS name FROM information_schema.columns WHERE table_schema = 'public' AND table_name = "@
                + "$1"@ + " AND is_nullable = 'NO'"@
                =~= "SELECT column_name AS name FROM information_schema.columns WHERE table_schema = 'public' AND table_name = $1 AND is_nullable = 'NO'"@)
                by {
                reveal_strlit(
                    "SELECT column_name AS name FROM information_schema.columns WHERE table_schema = 'public' AND table_name = ",
                );
                reveal_strlit("$1");
                reveal_strlit(" AND is_nullable = 'NO'");
                reveal_strlit(
                    "SELECT column_name AS name FROM information_schema.columns WHERE table_schema = 'public' AND table_name = $1 AND is_nullable = 'NO'",
                );
            }
        },
        Dialect::Sqlite => {
            assert("SELECT name FROM pragma_table_info("@ + "?1"@
                + ") WHERE \"notnull\" = 1 AND pk = 0"@
                =~= "SELECT name FROM pragma_table_info(?1) WHERE \"notnull\" = 1 AND pk = 0"@) by {
                reveal_strlit("SELECT name FROM pragma_table_info(");
                reveal_strlit("?1");
                reveal_strlit(") WHERE \"notnull\" = 1 AND pk = 0");
                reveal_strlit(
                    "SELECT name FROM pragma_table_info(?1) WHERE \"notnull\" = 1 AND pk = 0",
                );
            }
        },
    }
}

/// All of them are relaxed but the id, the status and the count of references.
pub proof fn what_is_relaxed(columns: Seq<Seq<char>>, column: Seq<char>)
    ensures
        to_relax(columns).contains(column) <==> columns.contains(column) && column != "id"@
            && column != "_status"@ && column != "_ref_count"@,
    decreases columns.len(),
{
    if columns.len() > 0 {
        let before = columns.drop_last();
        let last = columns.last();
        what_is_relaxed(before, column);
        assert(columns.contains(column) <==> before.contains(column) || last == column) by {
            if before.contains(column) {
                let i = choose|i: int| 0 <= i < before.len() && before[i] == column;
                assert(columns[i] == column);
            }
            if last == column {
                assert(columns[columns.len() - 1] == column);
            }
            if columns.contains(column) && last != column {
                let i = choose|i: int| 0 <= i < columns.len() && columns[i] == column;
                assert(before[i] == column);
            }
        }
        let found = to_relax(before);
        let all = to_relax(columns);
        if !always_set(last) {
            assert(all == found.push(last));
            if found.contains(column) {
                let i = choose|i: int| 0 <= i < found.len() && found[i] == column;
                assert(all[i] == column);
            }
            if last == column {
                assert(all[found.len() as int] == column);
            }
            if all.contains(column) && last != column {
                let i = choose|i: int| 0 <= i < all.len() && all[i] == column;
                assert(found[i] == column);
            }
        }
    }
}

/// Each column given is relaxed in place.
pub proof fn each_column_is_relaxed(
    s: SessionView,
    table: Seq<char>,
    columns: Seq<Seq<char>>,
    i: int,
    k: int,
)
    requires
        0 <= i <= k < columns.len(),
        relax_from(s, table, columns, i).1 is Ok,
    ensures
        ({
            let end = relax_from(s, table, columns, i).0;
            &&& end.sent.len() == s.sent.len() + columns.len() - i
            &&& end.sent[s.sent.len() + k - i] == running(
                ddl_text(
                    s.dialect,
                    "ALTER TABLE "@ + quoted(table) + " ALTER COLUMN "@ + quoted(columns[k])
                        + " DROP NOT NULL"@,
                ),
            )
        }),
    decreases columns.len() - i,
{
    let sql = "ALTER TABLE "@ + quoted(table) + " ALTER COLUMN "@ + quoted(columns[i])
        + " DROP NOT NULL"@;
    let request = running(ddl_text(s.dialect, sql));
    let s1 = s.asked(request);
    relax_keeps(s1, table, columns, i + 1);
    if i < k {
        each_column_is_relaxed(s1, table, columns, i + 1, k);
    } else {
        assert(s1.sent[s.sent.len() as int] == request);
    }
}

proof fn relax_keeps(s: SessionView, table: Seq<char>, columns: Seq<Seq<char>>, i: int)
    requires
        0 <= i <= columns.len(),
        relax_from(s, table, columns, i).1 is Ok,
    ensures
        ({
            let end = relax_from(s, table, columns, i).0;
            &&& end.dialect == s.dialect
            &&& end.sent.len() == s.sent.len() + columns.len() - i
            &&& forall|m: int| 0 <= m < s.sent.len() ==> #[trigger] end.sent[m] == s.sent[m]
        }),
    decreases columns.len() - i,
{
    if i < columns.len() {
        let sql = "ALTER TABLE "@ + quoted(table) + " ALTER COLUMN "@ + quoted(columns[i])
            + " DROP NOT NULL"@;
        let s1 = s.asked(running(ddl_text(s.dialect, sql)));
        relax_keeps(s1, table, columns, i + 1);
        let end = relax_from(s, table, columns, i).0;
        assert forall|m: int| 0 <= m < s.sent.len() implies #[trigger] end.sent[m] == s.sent[m] by {
            assert(s1.sent[m] == s.sent[m]);
        }
    }
}

/// Columns are looked for to relax until that is on record: those that must not be empty
/// and may be, by name.
pub proof fn columns_are_relaxed_once(
    s: SessionView,
    slug: Seq<char>,
    row: DbRowView,
    rows: Seq<DbRowView>,
)
    requires
        s.dialect == Dialect::Sqlite,
        row.values.len() > 0,
        row.values[0] == DbValueView::Text("1"@),
        answered(s, 0, ReplyView::Flag(true)),
    ensures
        ({
            let (end, r) = columns_to_relax_step(s, slug);
            let looked = s.sent.push(RequestView::TableExists { table: "_crap_meta"@ }).push(
                record_read(s.dialect, "nullable_columns:"@ + slug),
            );
            &&& answered(s, 1, ReplyView::Row(Some(row))) ==> end.sent == looked && r == Ok::<
                Option<Seq<Seq<char>>>,
                ErrorView,
            >(None)
            &&& answered(s, 1, ReplyView::Row(None)) && answered(s, 2, ReplyView::Rows(rows))
                ==> end.sent == looked.push(
                RequestView::QueryAll {
                    sql: "SELECT name FROM pragma_table_info(?1) WHERE \"notnull\" = 1 AND pk = 0"@,
                    params: seq![DbValueView::Text(slug)],
                },
            ) && r == Ok::<Option<Seq<Seq<char>>>, ErrorView>(
                Some(sorted(to_relax(texts_under(rows, "name"@)))),
            )
        }),
{
    parameters_are_counted_from_one(s.dialect);
    let key = "nullable_columns:"@ + slug;
    let s1 = s.asked(RequestView::TableExists { table: "_crap_meta"@ });
    let s2 = s1.asked(record_read(s.dialect, key));
    required_columns_are_asked_for(s2, slug, rows);
    let asked = not_null_step(s2, slug).0.sent.last();
    assert(s2.sent + seq![asked] =~= s2.sent.push(asked));
    if answered(s, 1, ReplyView::Row(None)) {
        assert(gate_pending_step(s, key).0 == s2);
    }
}

/// What a table's own definition made unique is looked for until that is on record: it is
/// to be dropped exactly if there is any.
pub proof fn uniqueness_is_dropped_once(
    s: SessionView,
    slug: Seq<char>,
    row: DbRowView,
)
    requires
        s.dialect == Dialect::Sqlite,
        row.values.len() > 0,
        row.values[0] == DbValueView::Text("1"@),
        answered(s, 0, ReplyView::Flag(true)),
    ensures
        ({
            let (end, r) = inline_unique_step(s, slug);
            let looked = s.asked(RequestView::TableExists { table: "_crap_meta"@ }).asked(
                record_read(s.dialect, "inline_unique:"@ + slug),
            );
            let found = table_constraints_step(looked, slug, ConstraintKind::Unique);
            &&& answered(s, 1, ReplyView::Row(Some(row))) ==> end == looked && r == Ok::<
                Option<bool>,
                ErrorView,
            >(None)
            &&& answered(s, 1, ReplyView::Row(None)) ==> end == found.0 && (found.1 matches Ok(all)
                ==> r == Ok::<Option<bool>, ErrorView>(Some(all.len() > 0)))
        }),
{
    parameters_are_counted_from_one(s.dialect);
}

/// On Postgres a junction's key is changed in place: the columns it lacks are added, the
/// old keys dropped, and the new one made.
pub proof fn a_key_is_changed_in_place(
    s: SessionView,
    table: Seq<char>,
    polymorphic: bool,
    locale: Option<Seq<char>>,
    key: ConstraintView,
    n: u64,
)
    ensures
        ({
            let shape = JunctionShapeView { polymorphic, default_locale: locale };
            let (s1, keys) = table_constraints_step(s, table, ConstraintKind::PrimaryKey);
            let (end, r) = replace_key_step(s, table, shape);
            keys == Ok::<Seq<ConstraintView>, ErrorView>(seq![key]) && answered(
                s1,
                0,
                ReplyView::Count(n),
            ) ==> end.sent == s1.sent.push(
                running(
                    ddl_text(
                        s1.dialect,
                        "ALTER TABLE "@ + quoted(table) + " DROP CONSTRAINT "@ + quoted(key.name),
                    ),
                ),
            ).push(
                running(
                    ddl_text(
                        s1.dialect,
                        "ALTER TABLE "@ + quoted(table) + " ADD PRIMARY KEY ("@ + junction_key(
                            polymorphic,
                            locale is Some,
                        ) + ")"@,
                    ),
                ),
            )
        }),
{
    let shape = JunctionShapeView { polymorphic, default_locale: locale };
    keys_are_so(shape);
    reveal_with_fuel(drop_constraints_from, 3);
}

/// The column of what is referred to is added to a junction that lacks it, where its
/// field refers to several kinds.
pub proof fn the_column_of_kinds_is_added(
    s: SessionView,
    table: Seq<char>,
    polymorphic: bool,
    locale: Option<Seq<char>>,
)
    ensures
        ({
            let shape = JunctionShapeView { polymorphic, default_locale: locale };
            let end = add_target_column_step(s, table, shape).0;
            let looked = s.sent.push(asks_for_columns(s.dialect, table));
            told_columns(s, s.sent.len() as int) matches Some(existing) ==> {
                &&& polymorphic && !existing.contains("related_collection"@) ==> end.sent
                    == looked.push(
                    running(
                        ddl_text(
                            s.dialect,
                            "ALTER TABLE "@ + quoted(table)
                                + " ADD COLUMN related_collection TEXT NOT NULL DEFAULT ''"@,
                        ),
                    ),
                )
                &&& !polymorphic || existing.contains("related_collection"@) ==> end.sent == looked
            }
        }),
{
    columns_are_looked_for(s, table, Seq::empty());
    let asked = asks_for_columns(s.dialect, table);
    assert(s.sent + seq![asked] =~= s.sent.push(asked));
}

} // verus!
