//! What changes when locales do: where values go, which rows stay, who is told.
use crate::definition::{LocaleConfig, Registry};
use crate::migrate::helpers::column_specs::{ColumnSpecView, ensure_locale_column_step};
use crate::migrate::helpers::introspection::{
    ConstraintKind, ConstraintView, table_constraints_step,
};
use crate::migrate::join_tables::junction_shape::{
    JunctionShapeView, copy_exprs, key_of, rebuild_step, reconcile_step, rekeying,
};
use crate::migrate::join_tables::locale_rows::{keep_default_step, narrow_step, only_locale};
use crate::migrate::join_tables::parent_index::{
    drop_indexes_from, drop_other_step, drop_prefixed_step,
};
use crate::migrate::legacy_timestamps::target_tables;
use crate::migrate::locale_change::{
    ColumnPlanView, LocaleShapeView, carries, carry_values_step, content_from, load_shape_step,
    locale_plans_from, localized_columns, plans_for, record_shape_step, same_texts,
    warn_default_step,
};
use crate::names::{escaped, locale_column_name, quoted};
use crate::order::{deduped, sorted};
use crate::promises::{
    after, answered, between, between_asked, between_wider, parameters_are_counted_from_one,
    record_read, record_removed, record_written, running,
};
use crate::promises::lookups::{asks_for_columns, columns_are_looked_for, told_columns};
use crate::promises::rows::{junction_made, junctions_are_made_so};
use crate::replay::{extends_itself, extends_on, on_ask_done, on_drop_indexes_from};
use crate::session::{Dialect, ReplyView, RequestView, SessionView, ddl_text};
use crate::text::join;
use crate::value::{DbRowView, DbValueView, ErrorView, texts_in_column};
use vstd::prelude::*;

verus! {

proof fn a_plan_for_each_locale(
    base: Seq<char>,
    locales: Seq<Seq<char>>,
    default_locale: Seq<char>,
    i: int,
    done: Seq<ColumnPlanView>,
    k: int,
)
    requires
        0 <= i <= locales.len(),
        done.len() == i,
        0 <= k < locales.len(),
        locale_plans_from(base, locales, default_locale, i, done) is Ok,
    ensures
        ({
            let plans = locale_plans_from(base, locales, default_locale, i, done)->Ok_0;
            &&& plans.len() == locales.len()
            &&& k < i ==> plans[k] == done[k]
            &&& k >= i ==> locale_column_name(base, locales[k]) == Ok::<Seq<char>, ErrorView>(
                plans[k].name,
            ) && plans[k].carry_from == if locales[k] == default_locale {
                Some(base)
            } else {
                None
            }
        }),
    decreases locales.len() - i,
{
    if i < locales.len() {
        let plan = ColumnPlanView {
            name: locale_column_name(base, locales[i])->Ok_0,
            carry_from: if locales[i] == default_locale {
                Some(base)
            } else {
                None
            },
        };
        let more = done.push(plan);
        a_plan_for_each_locale(base, locales, default_locale, i + 1, more, k);
        if k == i {
            assert(more[k] == plan);
        }
    }
}

/// A localized field has a column for each locale; only the default locale's takes over
/// what the field's one column held. A field that is not localized has its one column,
/// which takes over what the default locale's held.
pub proof fn each_locale_has_its_column(base: Seq<char>, config: LocaleConfig, k: int)
    ensures
        plans_for(base, true, config) matches Ok(plans) ==> {
            let locales = config.locales.deep_view();
            &&& plans.len() == locales.len()
            &&& 0 <= k < locales.len() ==> {
                &&& locale_column_name(base, locales[k]) == Ok::<Seq<char>, ErrorView>(
                    plans[k].name,
                )
                &&& locales[k] == config.default_locale@ ==> plans[k].carry_from == Some(base)
                &&& locales[k] != config.default_locale@ ==> plans[k].carry_from is None
            }
        },
        plans_for(base, false, config) matches Ok(plans) ==> {
            &&& plans.len() == 1
            &&& plans[0].name == base
            &&& plans[0].carry_from matches Some(from) && locale_column_name(
                base,
                config.default_locale@,
            ) == Ok::<Seq<char>, ErrorView>(from)
        },
{
    let locales = config.locales.deep_view();
    if plans_for(base, true, config) is Ok {
        if 0 <= k < locales.len() {
            a_plan_for_each_locale(base, locales, config.default_locale@, 0, Seq::empty(), k);
        } else if locales.len() > 0 {
            a_plan_for_each_locale(base, locales, config.default_locale@, 0, Seq::empty(), 0);
        }
    }
}

/// A column takes over what another holds, row by row where that holds anything, if the
/// table has that other; else nothing is sent.
pub proof fn values_are_taken_over(
    s: SessionView,
    table: Seq<char>,
    name: Seq<char>,
    from: Seq<char>,
    existing: Seq<Seq<char>>,
    n: u64,
)
    ensures
        ({
            let (end, r) = carry_values_step(
                s,
                ColumnPlanView { name, carry_from: Some(from) },
                table,
                existing,
            );
            &&& !existing.contains(from) ==> end == s && r is Ok
            &&& existing.contains(from) ==> end == after(
                s,
                seq![
                    running(
                        "UPDATE "@ + quoted(table) + " SET "@ + quoted(name) + " = "@ + quoted(from)
                            + " WHERE "@ + quoted(from) + " IS NOT NULL"@,
                    ),
                ],
            )
            &&& existing.contains(from) && answered(s, 0, ReplyView::Count(n)) ==> r is Ok
        }),
        carry_values_step(s, ColumnPlanView { name, carry_from: None }, table, existing).0 == s,
{
    let asked = running(
        "UPDATE "@ + quoted(table) + " SET "@ + quoted(name) + " = "@ + quoted(from) + " WHERE "@
            + quoted(from) + " IS NOT NULL"@,
    );
    assert(s.sent.push(asked) =~= s.sent + seq![asked]);
}

/// Values move into a column that was just made, and where the field became localized or
/// stopped being so since that was recorded; without a record they stay.
pub proof fn when_values_move(
    previous: Seq<Seq<char>>,
    current: Seq<Seq<char>>,
    column: Seq<char>,
    created: bool,
)
    ensures
        carries(LocaleShapeView { previous: Some(previous), current }, column, created) <==> created
            || previous.contains(column) && !current.contains(column) || !previous.contains(column)
            && current.contains(column),
        carries(LocaleShapeView { previous: None, current }, column, created) <==> created,
{
}

/// Which columns are localized is recorded, each once and by name, unless the record says
/// so already.
pub proof fn localized_columns_are_recorded(
    s: SessionView,
    table: Seq<char>,
    previous: Seq<Seq<char>>,
    current: Seq<Seq<char>>,
    n: u64,
    column: Seq<char>,
)
    ensures
        ({
            let key = "locale_shape:"@ + table;
            let value = "1:"@ + join(deduped(sorted(current)), ","@);
            let stored = after(
                s,
                seq![record_removed(s.dialect, key), record_written(s.dialect, key, value)],
            );
            let fresh = record_shape_step(s, LocaleShapeView { previous: None, current }, table);
            let known = record_shape_step(
                s,
                LocaleShapeView { previous: Some(previous), current },
                table,
            );
            &&& answered(s, 0, ReplyView::Count(n)) ==> fresh.0 == stored
            &&& previous.contains(column) != current.contains(column) && answered(
                s,
                0,
                ReplyView::Count(n),
            ) ==> known.0 == stored
            &&& previous == current ==> known.0 == s && known.1 is Ok
        }),
{
    parameters_are_counted_from_one(s.dialect);
    let key = "locale_shape:"@ + table;
    let value = "1:"@ + join(deduped(sorted(current)), ","@);
    let a = record_removed(s.dialect, key);
    let b = record_written(s.dialect, key, value);
    assert(s.sent.push(a).push(b) =~= s.sent + seq![a, b]);
    if previous.contains(column) && !current.contains(column) {
        let i = choose|i: int| 0 <= i < previous.len() && previous[i] == column;
        assert(!same_texts(previous, current));
    }
    if current.contains(column) && !previous.contains(column) {
        let i = choose|i: int| 0 <= i < current.len() && current[i] == column;
        assert(!same_texts(previous, current));
    }
}

/// The localized columns are those of the columns that are.
pub proof fn which_columns_are_localized(specs: Seq<ColumnSpecView>, m: int)
    requires
        0 <= m < specs.len(),
    ensures
        specs[m].is_localized ==> localized_columns(specs).contains(specs[m].col_name),
    decreases specs.len(),
{
    if specs[m].is_localized {
        let before = localized_columns(specs.drop_last());
        let all = localized_columns(specs);
        if m == specs.len() - 1 {
            assert(all.last() == specs[m].col_name);
        } else {
            assert(specs.drop_last()[m] == specs[m]);
            which_columns_are_localized(specs.drop_last(), m);
            let i = choose|i: int| 0 <= i < before.len() && before[i] == specs[m].col_name;
            assert(all[i] == before[i]);
        }
    }
}

/// What is on record for a table is read under its name.
pub proof fn localized_columns_are_read(
    s: SessionView,
    table: Seq<char>,
    specs: Seq<ColumnSpecView>,
)
    ensures
        ({
            let (end, r) = load_shape_step(s, table, specs);
            &&& end == after(s, seq![record_read(s.dialect, "locale_shape:"@ + table)])
            &&& answered(s, 0, ReplyView::Row(None)) ==> (r matches Ok(shape)
                && shape.previous is None && shape.current == localized_columns(specs))
        }),
{
    parameters_are_counted_from_one(s.dialect);
    let asked = record_read(s.dialect, "locale_shape:"@ + table);
    assert(s.sent.push(asked) =~= s.sent + seq![asked]);
}

/// A table that stops keeping rows per locale keeps those of the default locale and drops
/// the others. One that holds rows of other locales alone is refused, and nothing of it
/// is dropped.
pub proof fn the_default_locales_rows_stay(
    s: SessionView,
    table: Seq<char>,
    default_locale: Seq<char>,
    held: Seq<Seq<char>>,
    dropped: u64,
    k: int,
)
    requires
        answered(s, 0, ReplyView::Names(held)),
    ensures
        ({
            let (end, r) = keep_default_step(s, table, default_locale);
            let looked = s.sent.push(RequestView::HeldLocales { table });
            &&& (forall|i: int| 0 <= i < held.len() ==> #[trigger] held[i] == default_locale)
                ==> end.sent == looked && r == Ok::<u64, ErrorView>(0)
            &&& 0 <= k < held.len() && held[k] != default_locale && !held.contains(default_locale)
                ==> end.sent == looked && (r matches Err(ErrorView::Refused(_)))
            &&& 0 <= k < held.len() && held[k] != default_locale && held.contains(default_locale)
                && answered(s, 1, ReplyView::Count(dropped)) ==> end.sent == looked.push(
                RequestView::DeleteRowsOutsideLocales { table, locales: seq![default_locale] },
            ) && r == Ok::<u64, ErrorView>(dropped)
        }),
{
    if 0 <= k < held.len() && held[k] != default_locale {
        assert(!only_locale(held, default_locale));
    }
}

/// Where rows were dropped, the reference counts are marked stale; where none was, or the
/// table was recorded as shared, nothing else is sent.
pub proof fn dropped_rows_are_counted_anew(
    s: SessionView,
    table: Seq<char>,
    default_locale: Seq<char>,
    held: Seq<Seq<char>>,
    dropped: u64,
    k: int,
)
    ensures
        narrow_step(s, table, Some(false), default_locale).0 == s,
        0 <= k < held.len() && held[k] != default_locale && held.contains(default_locale)
            && answered(s, 0, ReplyView::Names(held)) && answered(s, 1, ReplyView::Count(dropped))
            ==> {
            let sent = narrow_step(s, table, Some(true), default_locale).0.sent;
            let narrowed = s.sent.push(RequestView::HeldLocales { table }).push(
                RequestView::DeleteRowsOutsideLocales { table, locales: seq![default_locale] },
            );
            &&& dropped > 0 ==> sent == narrowed.push(RequestView::InvalidateRefCounts)
            &&& dropped == 0 ==> sent == narrowed
        },
{
    if 0 <= k < held.len() && held[k] != default_locale {
        assert(!only_locale(held, default_locale));
    }
}

/// The locale column is added to a table that lacks it, with the default locale's code
/// for the rows that are there, and to no other.
pub proof fn the_locale_column_is_added(s: SessionView, table: Seq<char>, code: Seq<char>)
    ensures
        ({
            let (end, r) = ensure_locale_column_step(s, table, code);
            let looked = s.sent.push(asks_for_columns(s.dialect, table));
            told_columns(s, s.sent.len() as int) matches Some(existing) ==> {
                &&& existing.contains("_locale"@) ==> end.sent == looked && r is Ok
                &&& !existing.contains("_locale"@) ==> end.sent == looked.push(
                    running(
                        ddl_text(
                            s.dialect,
                            "ALTER TABLE \""@ + table + "\" ADD COLUMN "@ + (
                            "_locale TEXT NOT NULL DEFAULT '"@ + escaped(code)
                                + "'"@),
                        ),
                    ),
                )
            }
        }),
{
    columns_are_looked_for(s, table, Seq::empty());
    let asked = asks_for_columns(s.dialect, table);
    assert(s.sent + seq![asked] =~= s.sent.push(asked));
}

/// A junction that has to be made anew is renamed, made in its shape, filled from the
/// renamed one, and that is dropped.
pub proof fn a_junction_is_made_anew(
    s: SessionView,
    table: Seq<char>,
    collection: Seq<char>,
    polymorphic: bool,
    locale: Option<Seq<char>>,
    stored: Seq<Seq<char>>,
)
    requires
        s.dialect == Dialect::Sqlite,
        answered(s, 0, ReplyView::Names(stored)),
        answered(s, 1, ReplyView::Done),
        answered(s, 2, ReplyView::Done),
        answered(s, 3, ReplyView::Done),
        answered(s, 4, ReplyView::Done),
    ensures
        ({
            let shape = JunctionShapeView { polymorphic, default_locale: locale };
            let (end, r) = rebuild_step(s, table, collection, shape);
            let old = "_"@ + table + "_migrate"@;
            &&& r is Ok
            &&& end.sent == s.sent.push(RequestView::TableColumns { table }).push(
                RequestView::ExecuteBatch {
                    sql: "ALTER TABLE "@ + quoted(table) + " RENAME TO "@ + quoted(old),
                },
            ).push(
                RequestView::ExecuteBatch {
                    sql: junction_made(table, collection, polymorphic, locale),
                },
            ).push(
                RequestView::ExecuteBatch {
                    sql: "INSERT INTO "@ + quoted(table) + " ("@ + join(shape.columns(), ", "@)
                        + ") SELECT "@ + join(copy_exprs(shape, shape.columns(), stored), ", "@)
                        + " FROM "@ + quoted(old),
                },
            ).push(RequestView::ExecuteBatch { sql: "DROP TABLE "@ + quoted(old) })
        }),
{
    let shape = JunctionShapeView { polymorphic, default_locale: locale };
    junctions_are_made_so(table, collection, shape);
}

/// What a junction that is made anew is filled with: every column it had is copied as it
/// is; the locale of rows that had none is the default one, and a kind they had none of
/// is empty.
pub proof fn what_a_junction_is_filled_with(
    shape: JunctionShapeView,
    stored: Seq<Seq<char>>,
    column: Seq<char>,
)
    ensures
        stored.contains(column) ==> shape.copy_expr(column, stored) == column,
        !stored.contains("_locale"@) && shape.default_locale is Some ==> shape.copy_expr(
            "_locale"@,
            stored,
        ) == "'"@ + escaped(shape.default_locale->Some_0) + "'"@,
        !stored.contains("related_collection"@) ==> shape.copy_expr(
            "related_collection"@,
            stored,
        ) == "''"@,
        shape.columns().contains("parent_id"@) && shape.columns().contains("related_id"@)
            && shape.columns().contains("_order"@),
        shape.polymorphic ==> shape.columns().contains("related_collection"@),
        shape.default_locale is Some ==> shape.columns().contains("_locale"@),
{
    let columns = shape.columns();
    assert(columns[0] == "parent_id"@);
    assert(columns[1] == "related_id"@);
    if shape.polymorphic {
        assert(columns[2] == "related_collection"@);
        assert(columns[3] == "_order"@);
    } else {
        assert(columns[2] == "_order"@);
    }
    if shape.default_locale is Some {
        assert(columns.last() == "_locale"@);
    }
    reveal_strlit("related_collection");
    reveal_strlit("_locale");
    assert("related_collection"@[0] == 'r');
    assert("_locale"@[0] == '_');
}

/// The key of a table on SQLite is its columns with a place in the primary key, in that
/// order; on Postgres the catalogue names its constraints.
pub proof fn a_key_is_looked_up(s: SessionView, table: Seq<char>, rows: Seq<DbRowView>)
    ensures
        ({
            let (end, r) = table_constraints_step(s, table, ConstraintKind::PrimaryKey);
            let columns = texts_in_column(rows, 0);
            &&& s.dialect == Dialect::Sqlite ==> {
                &&& end.sent == s.sent.push(
                    RequestView::QueryAll {
                        sql: "SELECT name FROM pragma_table_info(?1) WHERE pk > 0 ORDER BY pk"@,
                        params: seq![DbValueView::Text(table)],
                    },
                )
                &&& answered(s, 0, ReplyView::Rows(rows)) && columns.len() > 0 ==> (r matches Ok(
                    keys,
                ) && keys.len() == 1 && keys[0].columns == columns)
                &&& answered(s, 0, ReplyView::Rows(rows)) && columns.len() == 0 ==> (r matches Ok(
                    keys,
                ) && keys.len() == 0)
            }
            &&& s.dialect == Dialect::Postgres ==> end.sent == s.sent.push(
                RequestView::QueryAll {
                    sql: "SELECT tc.constraint_name, kcu.column_name FROM information_schema.table_constraints tc JOIN information_schema.key_column_usage kcu ON kcu.constraint_schema = tc.constraint_schema AND kcu.constraint_name = tc.constraint_name AND kcu.table_name = tc.table_name WHERE tc.table_schema = 'public' AND tc.table_name = $1 AND tc.constraint_type = $2 ORDER BY tc.constraint_name, kcu.ordinal_position"@,
                    params: seq![DbValueView::Text(table), DbValueView::Text("PRIMARY KEY"@)],
                },
            )
        }),
{
}

/// What is unique on SQLite are the indexes that the table's own definition made; on
/// Postgres the catalogue names them.
pub proof fn uniqueness_is_looked_up(s: SessionView, table: Seq<char>)
    ensures
        ({
            let (end, r) = table_constraints_step(s, table, ConstraintKind::Unique);
            let at = s.sent.len() as int;
            &&& s.dialect == Dialect::Sqlite && answered(s, 0, ReplyView::Rows(Seq::empty()))
                ==> end.sent == s.sent.push(
                RequestView::QueryAll {
                    sql: "SELECT name FROM pragma_index_list(?1) WHERE origin = 'u' ORDER BY name"@,
                    params: seq![DbValueView::Text(table)],
                },
            ) && (r matches Ok(found) && found.len() == 0)
            &&& s.dialect == Dialect::Postgres ==> end.sent == s.sent.push(
                RequestView::QueryAll {
                    sql: "SELECT tc.constraint_name, kcu.column_name FROM information_schema.table_constraints tc JOIN information_schema.key_column_usage kcu ON kcu.constraint_schema = tc.constraint_schema AND kcu.constraint_name = tc.constraint_name AND kcu.table_name = tc.table_name WHERE tc.table_schema = 'public' AND tc.table_name = $1 AND tc.constraint_type = $2 ORDER BY tc.constraint_name, kcu.ordinal_position"@,
                    params: seq![DbValueView::Text(table), DbValueView::Text("UNIQUE"@)],
                },
            )
        }),
{
}

/// A default locale that changed is told of where any table of a definition holds a row,
/// and of nothing where it did not change, where it was not known, or where there is no
/// row.
pub proof fn a_changed_default_is_told_of(
    s: SessionView,
    registry: Registry,
    previous: Seq<char>,
    now: Seq<char>,
)
    ensures
        warn_default_step(s, registry, None, now).0 == s,
        warn_default_step(s, registry, Some(now), now).0 == s,
        previous != now ==> {
            let (end, r) = warn_default_step(s, registry, Some(previous), now);
            let looked = content_from(s, target_tables(registry), 0);
            &&& end.sent == looked.0.sent
            &&& looked.1 == Ok::<bool, ErrorView>(true) ==> r is Ok && end.warnings
                == looked.0.warnings.push(
                "default_locale changed from '"@ + previous + "' to '"@ + now
                    + "' with content already stored: existing values stay in the '"@ + previous
                    + "' columns, default reads now take '"@ + now
                    + "', fallback now resolves toward '"@ + now
                    + "', and completeness is judged against '"@ + now
                    + "'. Translate or re-save the affected documents."@,
            )
            &&& looked.1 == Ok::<bool, ErrorView>(false) ==> r is Ok && end.warnings
                == looked.0.warnings
        },
{
}

/// There is content if a table of a collection or of a global is there and holds a row:
/// one after another is asked until one does.
pub proof fn content_is_looked_for_in_every_table(
    s: SessionView,
    tables: Seq<Seq<char>>,
    i: int,
    row: DbRowView,
)
    requires
        s.dialect == Dialect::Sqlite,
        0 <= i < tables.len(),
    ensures
        ({
            let looking = RequestView::TableExists { table: tables[i] };
            let asking = RequestView::QueryOne {
                sql: "SELECT 1 FROM "@ + quoted(tables[i]) + " LIMIT 1"@,
                params: Seq::empty(),
            };
            let found = content_from(s, tables, i);
            &&& answered(s, 0, ReplyView::Flag(false)) ==> found == content_from(
                s.asked(looking),
                tables,
                i + 1,
            )
            &&& answered(s, 0, ReplyView::Flag(true)) && answered(s, 1, ReplyView::Row(None))
                ==> found == content_from(s.asked(looking).asked(asking), tables, i + 1)
            &&& answered(s, 0, ReplyView::Flag(true)) && answered(
                s,
                1,
                ReplyView::Row(Some(row)),
            ) ==> found == (s.asked(looking).asked(asking), Ok::<bool, ErrorView>(true))
        }),
        content_from(s, tables, tables.len() as int) == (s, Ok::<bool, ErrorView>(false)),
{
}

/// The tables of the definitions are those of every collection, then of every global.
pub proof fn the_tables_of_the_definitions(registry: Registry, c: int, g: int)
    ensures
        ({
            let tables = target_tables(registry);
            let n = registry.collections@.len() as int;
            &&& tables.len() == n + registry.globals@.len()
            &&& 0 <= c < n ==> tables[c] == registry.collections@[c].slug@
            &&& 0 <= g < registry.globals@.len() ==> tables[n + g] == "_global_"@
                + registry.globals@[g].slug@
        }),
{
}

/// An index of a row table under another name than the one it keeps is dropped.
pub proof fn other_indexes_are_dropped(
    s: SessionView,
    names: Seq<Seq<char>>,
    keep: Seq<char>,
    i: int,
    k: int,
)
    requires
        0 <= i <= k < names.len(),
        names[k] != keep,
        drop_indexes_from(s, names, keep, i).1 is Ok,
    ensures
        ({
            let end = drop_indexes_from(s, names, keep, i).0;
            between(
                end,
                s.sent.len() as int,
                end.sent.len() as int,
                running(ddl_text(s.dialect, "DROP INDEX IF EXISTS "@ + quoted(names[k]))),
            )
        }),
    decreases names.len() - i,
{
    let end = drop_indexes_from(s, names, keep, i).0;
    let last = end.sent.len() as int;
    let from = s.sent.len() as int;
    if names[i] == keep {
        other_indexes_are_dropped(s, names, keep, i + 1, k);
    } else {
        let here = running(ddl_text(s.dialect, "DROP INDEX IF EXISTS "@ + quoted(names[i])));
        let s1 = s.asked(here);
        on_drop_indexes_from(s1, names, keep, i + 1);
        if i == k {
            between_asked(s, end, from, last, here);
        } else {
            other_indexes_are_dropped(s1, names, keep, i + 1, k);
            extends_itself(end);
            between_wider(
                end,
                end,
                s1.sent.len() as int,
                last,
                from,
                last,
                running(ddl_text(s.dialect, "DROP INDEX IF EXISTS "@ + quoted(names[k]))),
            );
        }
    }
}

/// Both kinds of index a row table may have are looked for: over documents alone, and
/// over documents and locales.
pub proof fn both_kinds_of_index_are_looked_for(
    s: SessionView,
    table: Seq<char>,
    keep: Seq<char>,
)
    requires
        s.dialect == Dialect::Sqlite,
        drop_other_step(s, table, keep).1 is Ok,
    ensures
        ({
            let end = drop_other_step(s, table, keep).0;
            let (i, j) = (s.sent.len() as int, end.sent.len() as int);
            &&& between(
                end,
                i,
                j,
                RequestView::IndexNames { table, prefix: "idx__rows_"@ },
            )
            &&& between(
                end,
                i,
                j,
                RequestView::IndexNames { table, prefix: "idx__lrows_"@ },
            )
        }),
{
    let end = drop_other_step(s, table, keep).0;
    let plain = RequestView::IndexNames { table, prefix: "idx__rows_"@ };
    let per_locale = RequestView::IndexNames { table, prefix: "idx__lrows_"@ };
    let (i, j) = (s.sent.len() as int, end.sent.len() as int);
    let s1 = drop_prefixed_step(s, table, "idx__rows_"@, keep).0;
    let names = s.replies[i]->Names_0;
    let a = s.asked(plain);
    on_drop_indexes_from(a, names, keep, 0);
    assert(s1 == drop_indexes_from(a, names, keep, 0).0);
    let others = s1.replies[s1.sent.len() as int]->Names_0;
    let b = s1.asked(per_locale);
    on_drop_indexes_from(b, others, keep, 0);
    assert(end == drop_indexes_from(b, others, keep, 0).0);
    on_ask_done(s1, per_locale);
    extends_on(s1, b, end);
    extends_on(a, s1, end);
    between_asked(s, end, i, j, plain);
    between_asked(s1, end, i, j, per_locale);
}

/// A junction whose key has every column its field asks for is left alone; else it is made
/// anew on SQLite.
pub proof fn a_junctions_key_is_held_to_its_field(
    s: SessionView,
    table: Seq<char>,
    collection: Seq<char>,
    shape: JunctionShapeView,
    rows: Seq<DbRowView>,
    k: int,
)
    requires
        s.dialect == Dialect::Sqlite,
        answered(s, 0, ReplyView::Rows(rows)),
        texts_in_column(rows, 0).len() > 0,
    ensures
        ({
            let stored = texts_in_column(rows, 0);
            let wanted = shape.key_columns();
            let (end, r) = reconcile_step(s, table, collection, shape);
            let looked = s.asked(
                RequestView::QueryAll {
                    sql: "SELECT name FROM pragma_table_info(?1) WHERE pk > 0 ORDER BY pk"@,
                    params: seq![DbValueView::Text(table)],
                },
            );
            &&& (forall|i: int| 0 <= i < wanted.len() ==> stored.contains(#[trigger] wanted[i]))
                ==> end == looked && r is Ok
            &&& 0 <= k < wanted.len() && !stored.contains(wanted[k]) ==> end.sent
                == rebuild_step(
                looked.noted(rekeying(table, wanted, stored)),
                table,
                collection,
                shape,
            ).0.sent
        }),
{
    let stored = texts_in_column(rows, 0);
    let wanted = shape.key_columns();
    let key = ConstraintView { name: Seq::empty(), columns: stored };
    reveal_with_fuel(key_of, 2);
    assert(seq![key].drop_last() =~= Seq::<ConstraintView>::empty());
    assert(Seq::<Seq<char>>::empty() + stored =~= stored);
    assert(key_of(seq![key]) == stored);
}

} // verus!
