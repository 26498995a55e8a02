//! Tables that no definition accounts for, and names that a database would cut.
use crate::definition::{
    CollectionDefinition, FieldDefinition, FieldType, GlobalDefinition, LeafView, LocaleConfig,
    Registry, leaves,
};
use crate::migrate::helpers::column_specs::column_specs;
use crate::migrate::helpers::introspection::table_columns_step;
use crate::migrate::identifier_check::{
    accepted_exactly_if_names_fit, identifier_checks, may_have_table, spec_fits,
};
use crate::migrate::join_tables::orchestrator::plans_of;
use crate::migrate::join_tables::parent_index::byte_len;
use crate::migrate::orphan_tables::{
    OrphanKind, OrphanView, accounted_for, classified, collection_tables, find_orphans_step,
    global_tables, known, orphan_warning, orphans_from, row_tables, tables_of, warned_of_tables,
};
use crate::migrate::transaction::in_orphans_from;
use crate::names::locale_column_name;
use crate::order::{sorted, sorted_holds_the_same};
use crate::promises::answered;
use crate::promises::lookups::{asks_for_columns, columns_are_looked_for, told_columns};
use crate::replay::extends_itself;
use crate::session::{Dialect, ReplyView, RequestView, SessionView, extends};
use vstd::prelude::*;

verus! {

/// Whether a field keeps rows in a table of its own.
pub open spec fn keeps_rows(field: FieldDefinition) -> bool {
    match field.field_type {
        FieldType::Array | FieldType::Blocks => true,
        FieldType::Relationship | FieldType::Upload => field.relationship matches Some(rc)
            && rc.has_many,
        _ => false,
    }
}

proof fn rows_are_named(table: Seq<char>, found: Seq<LeafView>, m: int)
    requires
        0 <= m < found.len(),
        keeps_rows(found[m].field),
    ensures
        row_tables(table, plans_of(found, false)).contains(table + "_"@ + found[m].path()),
    decreases found.len(),
{
    let name = table + "_"@ + found[m].path();
    let plans = plans_of(found, false);
    let earlier = plans_of(found.drop_last(), false);
    let all = row_tables(table, plans);
    let before = row_tables(table, earlier);
    if m == found.len() - 1 {
        assert(plans.drop_last() =~= earlier);
        assert(all.last() == name);
    } else {
        assert(found.drop_last()[m] == found[m]);
        rows_are_named(table, found.drop_last(), m);
        let i = choose|i: int| 0 <= i < before.len() && before[i] == name;
        if plans.len() > earlier.len() {
            assert(plans.drop_last() =~= earlier);
            assert(all[i] == name);
        }
    }
}

proof fn tables_of_one(table: Seq<char>, fields: Seq<FieldDefinition>, m: int)
    ensures
        tables_of(table, fields).contains(table),
        tables_of(table, fields).contains("_versions_"@ + table),
        0 <= m < leaves(fields, Seq::empty(), false).len() && keeps_rows(
            leaves(fields, Seq::empty(), false)[m].field,
        ) ==> tables_of(table, fields).contains(
            table + "_"@ + leaves(fields, Seq::empty(), false)[m].path(),
        ),
{
    let all = tables_of(table, fields);
    let found = leaves(fields, Seq::empty(), false);
    assert(all[0] == table);
    assert(all[1] == "_versions_"@ + table);
    if 0 <= m < found.len() && keeps_rows(found[m].field) {
        rows_are_named(table, found, m);
        let rows = row_tables(table, plans_of(found, false));
        let name = table + "_"@ + found[m].path();
        let i = choose|i: int| 0 <= i < rows.len() && rows[i] == name;
        assert(all[2 + i] == name);
    }
}

proof fn among_collections(collections: Seq<CollectionDefinition>, c: int, name: Seq<char>)
    requires
        0 <= c < collections.len(),
        tables_of(collections[c].slug@, collections[c].fields@).contains(name),
    ensures
        collection_tables(collections).contains(name),
    decreases collections.len(),
{
    let before = collection_tables(collections.drop_last());
    let last = tables_of(collections.last().slug@, collections.last().fields@);
    let all = collection_tables(collections);
    if c == collections.len() - 1 {
        let i = choose|i: int| 0 <= i < last.len() && last[i] == name;
        assert(all[before.len() + i] == name);
    } else {
        assert(collections.drop_last()[c] == collections[c]);
        among_collections(collections.drop_last(), c, name);
        let i = choose|i: int| 0 <= i < before.len() && before[i] == name;
        assert(all[i] == name);
    }
}

proof fn among_globals(globals: Seq<GlobalDefinition>, g: int, name: Seq<char>)
    requires
        0 <= g < globals.len(),
        tables_of("_global_"@ + globals[g].slug@, globals[g].fields@).contains(name),
    ensures
        global_tables(globals).contains(name),
    decreases globals.len(),
{
    let before = global_tables(globals.drop_last());
    let last = tables_of("_global_"@ + globals.last().slug@, globals.last().fields@);
    let all = global_tables(globals);
    if g == globals.len() - 1 {
        let i = choose|i: int| 0 <= i < last.len() && last[i] == name;
        assert(all[before.len() + i] == name);
    } else {
        assert(globals.drop_last()[g] == globals[g]);
        among_globals(globals.drop_last(), g, name);
        let i = choose|i: int| 0 <= i < before.len() && before[i] == name;
        assert(all[i] == name);
    }
}

/// Whether a table is one of a definition's: its own, that of its versions, or that of
/// the rows of one of its fields.
pub open spec fn is_table_of(
    name: Seq<char>,
    table: Seq<char>,
    fields: Seq<FieldDefinition>,
) -> bool {
    ||| name == table
    ||| name == "_versions_"@ + table
    ||| exists|m: int|
        0 <= m < leaves(fields, Seq::empty(), false).len() && keeps_rows(
            (#[trigger] leaves(fields, Seq::empty(), false)[m]).field,
        ) && name == table + "_"@ + leaves(fields, Seq::empty(), false)[m].path()
}

/// No table that a definition uses is ever reported: a collection's or a global's own,
/// that of its versions, and that of the rows of each of its fields.
pub proof fn no_table_in_use_is_reported(registry: Registry, name: Seq<char>, d: int)
    requires
        ({
            ||| 0 <= d < registry.collections@.len() && is_table_of(
                name,
                registry.collections@[d].slug@,
                registry.collections@[d].fields@,
            )
            ||| 0 <= d < registry.globals@.len() && is_table_of(
                name,
                "_global_"@ + registry.globals@[d].slug@,
                registry.globals@[d].fields@,
            )
        }),
    ensures
        accounted_for(name, known(registry)),
{
    let own = collection_tables(registry.collections@);
    let others = global_tables(registry.globals@);
    let all = known(registry);
    if 0 <= d < registry.collections@.len() && is_table_of(
        name,
        registry.collections@[d].slug@,
        registry.collections@[d].fields@,
    ) {
        let table = registry.collections@[d].slug@;
        let fields = registry.collections@[d].fields@;
        let found = leaves(fields, Seq::empty(), false);
        let m = choose|m: int|
            0 <= m < found.len() && keeps_rows((#[trigger] found[m]).field) && name == table + "_"@
                + found[m].path();
        tables_of_one(table, fields, m);
        among_collections(registry.collections@, d, name);
        let i = choose|i: int| 0 <= i < own.len() && own[i] == name;
        assert(all[i] == name);
    } else {
        let table = "_global_"@ + registry.globals@[d].slug@;
        let fields = registry.globals@[d].fields@;
        let found = leaves(fields, Seq::empty(), false);
        let m = choose|m: int|
            0 <= m < found.len() && keeps_rows((#[trigger] found[m]).field) && name == table + "_"@
                + found[m].path();
        tables_of_one(table, fields, m);
        among_globals(registry.globals@, d, name);
        let i = choose|i: int| 0 <= i < others.len() && others[i] == name;
        assert(all[own.len() + i] == name);
    }
}

/// Nor is a table that the library keeps for itself or for searching.
pub proof fn no_table_of_the_librarys_own_is_reported(registry: Registry, rest: Seq<char>)
    ensures
        accounted_for("_crap"@ + rest, known(registry)),
        accounted_for("_fts_"@ + rest, known(registry)),
{
    assert("_crap"@ =~= ("_crap"@ + rest).take("_crap"@.len() as int));
    assert("_fts_"@ =~= ("_fts_"@ + rest).take("_fts_"@.len() as int));
    assert("_crap"@.is_prefix_of("_crap"@ + rest));
    assert("_fts_"@.is_prefix_of("_fts_"@ + rest));
}

/// What a leftover is: a versions table or a global's by its name; else the rows of a
/// field if it has a document and a place for each, and a collection's if it counts
/// references. Any other table may be another application's and is none.
pub proof fn leftovers_are_told_by_name_and_columns(
    rest: Seq<char>,
    name: Seq<char>,
    columns: Seq<Seq<char>>,
)
    ensures
        classified("_versions_"@ + rest, columns) == Some(OrphanKind::Versions),
        classified("_global_"@ + rest, columns) == Some(OrphanKind::Global),
        name.len() == 0 || name[0] != '_' ==> {
            let rows = columns.contains("parent_id"@) && columns.contains("_order"@);
            &&& rows ==> classified(name, columns) == Some(OrphanKind::Junction)
            &&& !rows && columns.contains("_ref_count"@) ==> classified(name, columns) == Some(
                OrphanKind::Collection,
            )
            &&& !rows && !columns.contains("_ref_count"@) ==> classified(name, columns) is None
        },
{
    reveal_strlit("_versions_");
    reveal_strlit("_global_");
    assert("_versions_"@ =~= ("_versions_"@ + rest).take(10));
    assert("_versions_"@.is_prefix_of("_versions_"@ + rest));
    assert("_global_"@ =~= ("_global_"@ + rest).take(8));
    assert("_global_"@.is_prefix_of("_global_"@ + rest));
    assert(("_global_"@ + rest)[1] == 'g');
    if "_versions_"@.is_prefix_of("_global_"@ + rest) {
        assert(("_global_"@ + rest)[1] == "_versions_"@[1]);
    }
    if name.len() == 0 || name[0] != '_' {
        if "_versions_"@.is_prefix_of(name) {
            assert(name[0] == "_versions_"@[0]);
        }
        if "_global_"@.is_prefix_of(name) {
            assert(name[0] == "_global_"@[0]);
        }
    }
}

/// The operator is told of a leftover by its name and kind.
pub proof fn leftovers_are_told_of(s: SessionView, name: Seq<char>)
    ensures
        forall|kind: OrphanKind| #[trigger]
            orphan_warning(OrphanView { name, kind }) == "Table '"@ + name + "' ("@ + (match kind {
                OrphanKind::Collection => "collection table"@,
                OrphanKind::Global => "global table"@,
                OrphanKind::Versions => "versions table"@,
                OrphanKind::Junction => "junction table"@,
            })
                + ") belongs to no definition (not removed) — `crap-cms db cleanup` lists it, `db cleanup --drop-tables -y` drops it"@,
{
}

/// Of each leftover the operator is told once, and no request is sent for it.
pub proof fn each_leftover_is_told_of(s: SessionView, orphans: Seq<OrphanView>, i: int, k: int)
    requires
        0 <= i <= k < orphans.len(),
    ensures
        ({
            let end = warned_of_tables(s, orphans, i);
            &&& end.sent == s.sent
            &&& end.warnings.len() == s.warnings.len() + orphans.len() - i
            &&& end.warnings[s.warnings.len() + k - i] == orphan_warning(orphans[k])
        }),
    decreases orphans.len() - i,
{
    let s1 = s.warned(orphan_warning(orphans[i]));
    warnings_stay(s1, orphans, i + 1);
    if i < k {
        each_leftover_is_told_of(s1, orphans, i + 1, k);
    } else {
        assert(s1.warnings[s.warnings.len() as int] == orphan_warning(orphans[k]));
    }
}

proof fn warnings_stay(s: SessionView, orphans: Seq<OrphanView>, i: int)
    requires
        0 <= i <= orphans.len(),
    ensures
        ({
            let end = warned_of_tables(s, orphans, i);
            &&& end.sent == s.sent
            &&& end.warnings.len() == s.warnings.len() + orphans.len() - i
            &&& forall|m: int|
                0 <= m < s.warnings.len() ==> #[trigger] end.warnings[m] == s.warnings[m]
        }),
    decreases orphans.len() - i,
{
    if i < orphans.len() {
        let s1 = s.warned(orphan_warning(orphans[i]));
        warnings_stay(s1, orphans, i + 1);
        let end = warned_of_tables(s, orphans, i);
        assert forall|m: int| 0 <= m < s.warnings.len() implies #[trigger] end.warnings[m]
            == s.warnings[m] by {
            assert(s1.warnings[m] == s.warnings[m]);
        }
    }
}

/// A definition is taken only if every name it is stored under is at most 63 bytes long:
/// its table's, those of its columns, in each locale where they are kept so, and those of
/// its fields' rows. Postgres would cut a longer one.
pub proof fn no_name_is_cut(
    table: Seq<char>,
    fields: Seq<FieldDefinition>,
    config: LocaleConfig,
    c: int,
    l: int,
    m: int,
)
    requires
        identifier_checks(table, fields, config) is Ok,
    ensures
        byte_len(table) <= 63,
        ({
            let specs = column_specs(fields, config.enabled());
            let locales = config.locales.deep_view();
            &&& 0 <= c < specs.len() && !specs[c].is_localized ==> byte_len(specs[c].col_name)
                <= 63
            &&& 0 <= c < specs.len() && specs[c].is_localized && 0 <= l < locales.len() ==> (
            locale_column_name(specs[c].col_name, locales[l]) matches Ok(column) && byte_len(
                column,
            ) <= 63)
        }),
        ({
            let found = leaves(fields, Seq::empty(), false);
            0 <= m < found.len() && keeps_rows(found[m].field) ==> byte_len(
                table + "_"@ + found[m].path(),
            ) <= 63
        }),
{
    accepted_exactly_if_names_fit(table, fields, config);
    let specs = column_specs(fields, config.enabled());
    let locales = config.locales.deep_view();
    let found = leaves(fields, Seq::empty(), false);
    if 0 <= c < specs.len() {
        assert(spec_fits(specs[c], locales));
        if specs[c].is_localized && 0 <= l < locales.len() {
            assert(locale_column_name(specs[c].col_name, locales[l]) is Ok);
        }
    }
    if 0 <= m < found.len() && keeps_rows(found[m].field) {
        assert(may_have_table(found[m].field));
    }
}

/// Whether the columns of a table were asked for there, and the table found to be a
/// leftover if they or its name tell so.
pub open spec fn looked_into(
    s: SessionView,
    i: int,
    j: int,
    name: Seq<char>,
    found: Seq<OrphanView>,
) -> bool {
    exists|k: int|
        0 <= i <= k < j && k < s.sent.len() && #[trigger] s.sent[k] == asks_for_columns(
            s.dialect,
            name,
        ) && (told_columns(s, k) matches Some(columns) && (classified(name, columns) matches Some(
            kind,
        ) ==> found.contains(OrphanView { name, kind })))
}

proof fn looked_into_wider(
    b: SessionView,
    d: SessionView,
    i: int,
    j: int,
    k: int,
    l: int,
    name: Seq<char>,
    found: Seq<OrphanView>,
)
    requires
        extends(b, d),
        looked_into(b, i, j, name, found),
        0 <= k <= i,
        j <= l,
    ensures
        looked_into(d, k, l, name, found),
{
    let at = choose|at: int|
        0 <= i <= at < j && at < b.sent.len() && #[trigger] b.sent[at] == asks_for_columns(
            b.dialect,
            name,
        ) && (told_columns(b, at) matches Some(columns) && (classified(name, columns) matches Some(
            kind,
        ) ==> found.contains(OrphanView { name, kind })));
    assert(d.sent[at] == b.sent[at]);
}

proof fn what_is_found_stays_found(
    s: SessionView,
    names: Seq<Seq<char>>,
    known: Seq<Seq<char>>,
    i: int,
    done: Seq<OrphanView>,
    x: OrphanView,
)
    requires
        done.contains(x),
        orphans_from(s, names, known, i, done).1 is Ok,
    ensures
        orphans_from(s, names, known, i, done).1->Ok_0.contains(x),
    decreases names.len() - i,
{
    if 0 <= i < names.len() {
        if accounted_for(names[i], known) {
            what_is_found_stays_found(s, names, known, i + 1, done, x);
        } else {
            let (s1, columns) = table_columns_step(s, names[i]);
            match classified(names[i], columns->Ok_0) {
                Some(kind) => {
                    let more = done.push(OrphanView { name: names[i], kind });
                    let m = choose|m: int| 0 <= m < done.len() && done[m] == x;
                    assert(more[m] == x);
                    what_is_found_stays_found(s1, names, known, i + 1, more, x);
                },
                None => {
                    what_is_found_stays_found(s1, names, known, i + 1, done, x);
                },
            }
        }
    }
}

proof fn each_is_looked_into(
    s: SessionView,
    names: Seq<Seq<char>>,
    known: Seq<Seq<char>>,
    i: int,
    done: Seq<OrphanView>,
    k: int,
)
    requires
        0 <= i <= k < names.len(),
        !accounted_for(names[k], known),
        orphans_from(s, names, known, i, done).1 is Ok,
    ensures
        ({
            let (end, r) = orphans_from(s, names, known, i, done);
            looked_into(end, s.sent.len() as int, end.sent.len() as int, names[k], r->Ok_0)
        }),
    decreases names.len() - i,
{
    let (end, r) = orphans_from(s, names, known, i, done);
    let at = s.sent.len() as int;
    let last = end.sent.len() as int;
    extends_itself(end);
    if accounted_for(names[i], known) {
        each_is_looked_into(s, names, known, i + 1, done, k);
    } else {
        columns_are_looked_for(s, names[i], Seq::empty());
        let asked = asks_for_columns(s.dialect, names[i]);
        let s1 = s.asked(asked);
        assert(s1.sent =~= s.sent + seq![asked]);
        let columns = told_columns(s, at)->Some_0;
        let more = match classified(names[i], columns) {
            Some(kind) => done.push(OrphanView { name: names[i], kind }),
            None => done,
        };
        assert(end == orphans_from(s1, names, known, i + 1, more).0);
        in_orphans_from(s1, names, known, i + 1, more);
        if i == k {
            assert(s1.sent[at] == asked);
            assert(end.sent[at] == asked);
            match classified(names[i], columns) {
                Some(kind) => {
                    let x = OrphanView { name: names[i], kind };
                    assert(more[done.len() as int] == x);
                    what_is_found_stays_found(s1, names, known, i + 1, more, x);
                },
                None => {},
            }
        } else {
            each_is_looked_into(s1, names, known, i + 1, more, k);
            looked_into_wider(
                end,
                end,
                s1.sent.len() as int,
                last,
                at,
                last,
                names[k],
                r->Ok_0,
            );
        }
    }
}

/// Every table that no definition accounts for is looked into, and found to be a leftover
/// if its name or its columns tell so.
pub proof fn every_leftover_is_found(
    s: SessionView,
    registry: Registry,
    tables: Seq<Seq<char>>,
    k: int,
)
    requires
        s.dialect == Dialect::Sqlite,
        answered(s, 0, ReplyView::Names(tables)),
        0 <= k < tables.len(),
        !accounted_for(tables[k], known(registry)),
    ensures
        ({
            let (end, r) = find_orphans_step(s, registry);
            &&& end.sent.len() > s.sent.len() && end.sent[s.sent.len() as int]
                == RequestView::ListUserTables
            &&& r is Ok ==> looked_into(
                end,
                s.sent.len() as int,
                end.sent.len() as int,
                tables[k],
                r->Ok_0,
            )
        }),
{
    let (end, r) = find_orphans_step(s, registry);
    let s1 = s.asked(RequestView::ListUserTables);
    let names = sorted(tables);
    in_orphans_from(s1, names, known(registry), 0, Seq::empty());
    assert(end == orphans_from(s1, names, known(registry), 0, Seq::empty()).0);
    assert(s1.sent[s.sent.len() as int] == RequestView::ListUserTables);
    assert(end.sent[s.sent.len() as int] == RequestView::ListUserTables);
    if r is Ok {
        sorted_holds_the_same(tables, tables[k]);
        let m = choose|m: int| 0 <= m < names.len() && names[m] == tables[k];
        each_is_looked_into(s1, names, known(registry), 0, Seq::empty(), m);
        extends_itself(end);
        looked_into_wider(
            end,
            end,
            s1.sent.len() as int,
            end.sent.len() as int,
            s.sent.len() as int,
            end.sent.len() as int,
            tables[k],
            r->Ok_0,
        );
    }
}

} // verus!
