//! Why a second sync of the tables of rows changes nothing.
use crate::definition::{FieldDefinition, LocaleConfig, RelationshipConfig, row_fields};
use crate::digest::short_digest;
use crate::migrate::helpers::alter::{add_column_step, type_of};
use crate::migrate::helpers::introspection::{
    ConstraintKind, ConstraintView, index_names_step, table_columns_step, table_column_types_step,
    table_constraints_step, table_exists_step,
};
use crate::migrate::join_tables::array::{
    add_companions_from, alter_array_step, alter_sub_step, alter_subs_from, array_ddl_step,
    companion_def, create_array_sql, reconcile_sub_step, row_locale, sub_field_def,
    update_array_step,
};
use crate::migrate::join_tables::blocks::{blocks_ddl_step, create_blocks_sql};
use crate::migrate::join_tables::junction_shape::{
    JunctionShapeView, add_locale_column_step, add_target_column_step, drop_constraints_from,
    key_covers, key_of, rebuild_temp, reconcile_step, rekeying,
};
use crate::migrate::join_tables::locale_rows::{
    narrow_step, read_record, record_key, record_text, recorded_step, records_are_read_back,
    sync_locale_rows_step,
};
use crate::migrate::join_tables::orchestrator::{
    JoinTableKind, PlanView, join_plans, plan_ddl_step, plan_step, plans_from,
    sync_join_tables_step,
};
use crate::migrate::join_tables::parent_index::{
    create_index_sql, drop_indexes_from, drop_prefixed_step, index_name, index_prefix,
    sync_index_step,
};
use crate::migrate::join_tables::relationship::junction_ddl_step;
use crate::migrate::meta;
use crate::migrate::relationship_target::{
    target, target_key, track_target_step, warn_repointed_step,
};
use crate::names::{join_table_name, quoted};
use crate::session::{
    Dialect, RequestView, SessionView, batch_ddl_step, ddl_step, ddl_text, extends, reads,
};
use crate::text::{equal_ignoring_case, join};
use crate::value::{DbValueView, ErrorView};
use crate::migrate::helpers::column_specs::{ensure_locale_column_step, locale_column_def};
use crate::replay::{
    extends_itself, extends_on, on_add_column_step, on_add_companions_from,
    on_add_locale_column_step, on_add_target_column_step, on_alter_array_step, on_alter_sub_step,
    on_alter_subs_from, on_array_ddl_step, on_blocks_ddl_step, on_create_array_step,
    on_create_junction_step, on_ddl_step, on_drop_constraints_from, on_drop_indexes_from,
    on_drop_prefixed_step, on_ensure_locale_column_step, on_index_names_step, on_junction_ddl_step,
    on_narrow_step, on_noted, on_parent_index_sync_index_step, on_plan_ddl_step, on_plan_step,
    on_reconcile_step, on_reconcile_sub_step, on_sync_locale_rows_step, on_table_constraints_step,
    on_track_target_step, on_update_array_step, on_warn_repointed_step,
};
use crate::migrate::transaction::{in_meta_upsert_step, in_table_exists_step, inside};
use vstd::prelude::*;

verus! {

/// A table of rows as the catalog tells it.
pub ghost struct StoredTable {
    pub columns: Seq<Seq<char>>,
    pub types: Seq<(Seq<char>, Seq<char>)>,
    pub keys: Seq<ConstraintView>,
    /// The indexes listed under the two prefixes that indexes over parents have.
    pub plain_indexes: Seq<Seq<char>>,
    pub locale_indexes: Seq<Seq<char>>,
}

/// What a database holds of the tables of rows, and under the keys of its records.
pub ghost struct Catalog {
    pub tables: Map<Seq<char>, StoredTable>,
    pub records: Map<Seq<char>, Seq<char>>,
}

impl Catalog {
    /// What is recorded under a key.
    pub open spec fn record(self, key: Seq<char>) -> Option<Seq<char>> {
        if self.records.dom().contains(key) {
            Some(self.records[key])
        } else {
            None
        }
    }
}

/// Whether a table has every column a field's values are kept in, each of a type that
/// takes them.
pub open spec fn keeps_field(
    dialect: Dialect,
    stored: StoredTable,
    field: FieldDefinition,
) -> bool {
    &&& stored.columns.contains(field.name@)
    &&& forall|i: int|
        0 <= i < field.companions(field.name@).len() ==> stored.columns.contains(
            #[trigger] field.companions(field.name@)[i],
        )
    &&& field.scalar_list() && dialect == Dialect::Postgres ==> (type_of(
        stored.types,
        field.name@,
    ) matches Some(t) ==> equal_ignoring_case(t, "TEXT"@))
}

/// Whether the index over the parents is the one asked for, and the only one.
pub open spec fn indexed_as(stored: StoredTable, localized: bool, name: Seq<char>) -> bool {
    &&& forall|i: int|
        0 <= i < stored.plain_indexes.len() ==> #[trigger] stored.plain_indexes[i] == name
    &&& forall|i: int|
        0 <= i < stored.locale_indexes.len() ==> #[trigger] stored.locale_indexes[i] == name
    &&& if localized {
        stored.locale_indexes.contains(name)
    } else {
        stored.plain_indexes.contains(name)
    }
}

/// The name of the index over the parents of a table's rows.
pub open spec fn own_index(table: Seq<char>, localized: bool) -> Seq<char> {
    index_name(table, localized, short_digest(table))
}

/// The shape of the junction of a reference to many.
pub open spec fn wanted_shape(plan: PlanView, config: LocaleConfig) -> JunctionShapeView {
    JunctionShapeView {
        polymorphic: plan.field.relationship->Some_0.polymorphic_spec(),
        default_locale: row_locale(plan.has_locale_col, config),
    }
}

/// Whether a stored table is as its field asks for.
pub open spec fn table_in_shape(
    dialect: Dialect,
    stored: StoredTable,
    table: Seq<char>,
    plan: PlanView,
    config: LocaleConfig,
) -> bool {
    match plan.kind {
        JoinTableKind::Relationship => key_covers(
            key_of(stored.keys),
            wanted_shape(plan, config).key_columns(),
        ),
        JoinTableKind::Array => {
            &&& plan.has_locale_col ==> stored.columns.contains("_locale"@)
            &&& forall|i: int|
                0 <= i < row_fields(plan.field.fields@).len() ==> keeps_field(
                    dialect,
                    stored,
                    #[trigger] row_fields(plan.field.fields@)[i],
                )
            &&& indexed_as(stored, plan.has_locale_col, own_index(table, plan.has_locale_col))
        },
        JoinTableKind::Blocks => {
            &&& plan.has_locale_col ==> stored.columns.contains("_locale"@)
            &&& indexed_as(stored, plan.has_locale_col, own_index(table, plan.has_locale_col))
        },
    }
}

/// Whether the table of a planned field, and what is recorded of it, are as the field
/// asks for.
pub open spec fn in_shape(
    dialect: Dialect,
    catalog: Catalog,
    collection: Seq<char>,
    plan: PlanView,
    config: LocaleConfig,
) -> bool {
    let table = join_table_name(collection, plan.full_name);
    plan.has_table() ==> {
        &&& catalog.tables.dom().contains(table)
        &&& table_in_shape(dialect, catalog.tables[table], table, plan, config)
        &&& read_record(catalog.record(record_key(table))) == Some(plan.has_locale_col)
        &&& plan.kind == JoinTableKind::Relationship ==> catalog.record(target_key(table)) == Some(
            target(plan.field.relationship->Some_0),
        )
    }
}

/// Whether the reads of an index's sync are answered from the catalog, and the index that
/// is there is left by a statement that makes it where it is missing.
pub open spec fn answers_index(
    s: SessionView,
    stored: StoredTable,
    table: Seq<char>,
    localized: bool,
) -> bool {
    let (s1, plain) = index_names_step(s, table, index_prefix(false));
    let (s2, per_locale) = index_names_step(s1, table, index_prefix(true));
    &&& plain == Ok::<Seq<Seq<char>>, ErrorView>(stored.plain_indexes)
    &&& per_locale == Ok::<Seq<Seq<char>>, ErrorView>(stored.locale_indexes)
    &&& ddl_step(s2, create_index_sql(table, localized, own_index(table, localized))).1 is Ok
}

/// Whether the reads of a table's columns for the locale column are answered from the
/// catalog.
pub open spec fn answers_locale(s: SessionView, stored: StoredTable, table: Seq<char>) -> bool {
    table_columns_step(s, table).1 == Ok::<Seq<Seq<char>>, ErrorView>(stored.columns)
}

/// Where a look at the locale column leaves a session.
pub open spec fn after_locale(s: SessionView, table: Seq<char>, localized: bool) -> SessionView {
    if localized {
        table_columns_step(s, table).0
    } else {
        s
    }
}

/// Whether the reads of one planned table's sync are answered from the catalog.
pub open spec fn answers_plan(
    s: SessionView,
    catalog: Catalog,
    collection: Seq<char>,
    plan: PlanView,
) -> bool {
    let table = join_table_name(collection, plan.full_name);
    let stored = catalog.tables[table];
    let (s1, recorded) = meta::get_step(s, record_key(table));
    let (s2, exists) = table_exists_step(s1, table);
    plan.has_table() ==> {
        &&& recorded == Ok::<Option<Seq<char>>, ErrorView>(catalog.record(record_key(table)))
        &&& exists == Ok::<bool, ErrorView>(catalog.tables.dom().contains(table))
        &&& match plan.kind {
            JoinTableKind::Relationship => {
                let (s3, keys) = table_constraints_step(s2, table, ConstraintKind::PrimaryKey);
                &&& keys == Ok::<Seq<ConstraintView>, ErrorView>(stored.keys)
                &&& meta::get_step(s3, target_key(table)).1 == Ok::<Option<Seq<char>>, ErrorView>(
                    catalog.record(target_key(table)),
                )
            },
            JoinTableKind::Array => {
                let s3 = after_locale(s2, table, plan.has_locale_col);
                let (s4, columns) = table_columns_step(s3, table);
                let (s5, types) = table_column_types_step(s4, table);
                &&& plan.has_locale_col ==> answers_locale(s2, stored, table)
                &&& columns == Ok::<Seq<Seq<char>>, ErrorView>(stored.columns)
                &&& types == Ok::<Seq<(Seq<char>, Seq<char>)>, ErrorView>(stored.types)
                &&& answers_index(s5, stored, table, plan.has_locale_col)
            },
            JoinTableKind::Blocks => {
                let s3 = after_locale(s2, table, plan.has_locale_col);
                &&& plan.has_locale_col ==> answers_locale(s2, stored, table)
                &&& answers_index(s3, stored, table, plan.has_locale_col)
            },
        }
    }
}

/// Whether the reads of a sync of the planned tables from the `i`-th on are answered from
/// the catalog.
pub open spec fn answers_plans(
    s: SessionView,
    catalog: Catalog,
    collection: Seq<char>,
    plans: Seq<PlanView>,
    config: LocaleConfig,
    i: int,
) -> bool
    decreases plans.len() - i,
{
    if i < 0 || i >= plans.len() {
        true
    } else {
        answers_plan(s, catalog, collection, plans[i]) && answers_plans(
            plan_step(s, collection, plans[i], config).0,
            catalog,
            collection,
            plans,
            config,
            i + 1,
        )
    }
}

/// Whether a request changes nothing of what a catalog tells: it reads, or it makes an
/// index, unless it is there, that is there.
pub open spec fn changes_nothing(
    catalog: Catalog,
    dialect: Dialect,
    request: RequestView,
) -> bool {
    reads(request) || exists|table: Seq<char>, localized: bool|
        is_standing_index(catalog, dialect, request, table, localized)
}

/// Whether a request makes the index of a table, unless it is there, and it is there.
pub open spec fn is_standing_index(
    catalog: Catalog,
    dialect: Dialect,
    request: RequestView,
    table: Seq<char>,
    localized: bool,
) -> bool {
    &&& catalog.tables.dom().contains(table)
    &&& indexed_as(catalog.tables[table], localized, own_index(table, localized))
    &&& request == (RequestView::Execute {
        sql: ddl_text(
            dialect,
            create_index_sql(table, localized, own_index(table, localized)),
        ),
        params: Seq::empty(),
    })
}

/// Whether a session went on with requests that change nothing alone.
pub open spec fn left_alone(catalog: Catalog, before: SessionView, after: SessionView) -> bool {
    &&& extends(before, after)
    &&& after.warnings == before.warnings
    &&& after.errors == before.errors
    &&& after.notes == before.notes
    &&& forall|i: int|
        before.sent.len() <= i < after.sent.len() ==> changes_nothing(
            catalog,
            before.dialect,
            #[trigger] after.sent[i],
        )
}

proof fn left_alone_on(catalog: Catalog, a: SessionView, b: SessionView, c: SessionView)
    requires
        left_alone(catalog, a, b),
        left_alone(catalog, b, c),
    ensures
        left_alone(catalog, a, c),
{
    assert forall|i: int| a.sent.len() <= i < c.sent.len() implies changes_nothing(
        catalog,
        a.dialect,
        #[trigger] c.sent[i],
    ) by {
        if i < b.sent.len() {
            assert(b.sent[i] == c.sent[i]);
        }
    }
    assert(a.sent =~= c.sent.take(a.sent.len() as int));
}

proof fn asking_leaves_alone(catalog: Catalog, s: SessionView, request: RequestView)
    requires
        changes_nothing(catalog, s.dialect, request),
    ensures
        left_alone(catalog, s, s.asked(request)),
{
    let t = s.asked(request);
    assert(s.sent =~= t.sent.take(s.sent.len() as int));
    assert(s.warnings =~= t.warnings.take(s.warnings.len() as int));
    assert(s.errors =~= t.errors.take(s.errors.len() as int));
    assert(s.notes =~= t.notes.take(s.notes.len() as int));
}

proof fn nothing_leaves_alone(catalog: Catalog, s: SessionView)
    ensures
        left_alone(catalog, s, s),
{
    assert(s.sent =~= s.sent.take(s.sent.len() as int));
    assert(s.warnings =~= s.warnings.take(s.warnings.len() as int));
    assert(s.errors =~= s.errors.take(s.errors.len() as int));
    assert(s.notes =~= s.notes.take(s.notes.len() as int));
}

/// Whether a session sent one more request, one that reads.
pub open spec fn read_once(before: SessionView, after: SessionView) -> bool {
    &&& after.sent.len() == before.sent.len() + 1
    &&& after == before.asked(after.sent.last())
    &&& reads(after.sent.last())
}

proof fn reading_leaves_alone(catalog: Catalog, a: SessionView, b: SessionView)
    requires
        read_once(a, b),
    ensures
        left_alone(catalog, a, b),
{
    asking_leaves_alone(catalog, a, b.sent.last());
}

proof fn kept_indexes_stay(s: SessionView, names: Seq<Seq<char>>, keep: Seq<char>, i: int)
    requires
        forall|k: int| 0 <= k < names.len() ==> #[trigger] names[k] == keep,
    ensures
        drop_indexes_from(s, names, keep, i) == (s, Ok::<(), ErrorView>(())),
    decreases names.len() - i,
{
    if 0 <= i < names.len() {
        kept_indexes_stay(s, names, keep, i + 1);
    }
}

proof fn an_index_in_place_stays(
    s: SessionView,
    catalog: Catalog,
    table: Seq<char>,
    localized: bool,
)
    requires
        catalog.tables.dom().contains(table),
        indexed_as(catalog.tables[table], localized, own_index(table, localized)),
        answers_index(s, catalog.tables[table], table, localized),
    ensures
        sync_index_step(s, table, localized, own_index(table, localized)).1 is Ok,
        left_alone(
            catalog,
            s,
            sync_index_step(s, table, localized, own_index(table, localized)).0,
        ),
{
    let stored = catalog.tables[table];
    let name = own_index(table, localized);
    let s1 = index_names_step(s, table, index_prefix(false)).0;
    let s2 = index_names_step(s1, table, index_prefix(true)).0;
    kept_indexes_stay(s1, stored.plain_indexes, name, 0);
    kept_indexes_stay(s2, stored.locale_indexes, name, 0);
    assert(read_once(s, s1) && read_once(s1, s2));
    reading_leaves_alone(catalog, s, s1);
    reading_leaves_alone(catalog, s1, s2);
    let made = RequestView::Execute {
        sql: ddl_text(s.dialect, create_index_sql(table, localized, name)),
        params: Seq::empty(),
    };
    assert(is_standing_index(catalog, s.dialect, made, table, localized));
    asking_leaves_alone(catalog, s2, made);
    left_alone_on(catalog, s, s1, s2);
    left_alone_on(catalog, s, s2, s2.asked(made));
}

proof fn companions_in_place_stay(
    s: SessionView,
    table: Seq<char>,
    companions: Seq<Seq<char>>,
    existing: Seq<Seq<char>>,
    i: int,
)
    requires
        forall|k: int| 0 <= k < companions.len() ==> existing.contains(#[trigger] companions[k]),
    ensures
        add_companions_from(s, table, companions, existing, i) == (s, Ok::<(), ErrorView>(())),
    decreases companions.len() - i,
{
    if 0 <= i < companions.len() {
        companions_in_place_stay(s, table, companions, existing, i + 1);
    }
}

proof fn columns_in_place_stay(
    s: SessionView,
    table: Seq<char>,
    subs: Seq<FieldDefinition>,
    stored: StoredTable,
    i: int,
)
    requires
        forall|k: int|
            0 <= k < subs.len() ==> keeps_field(s.dialect, stored, #[trigger] subs[k]),
    ensures
        alter_subs_from(s, table, subs, stored.columns, stored.types, i) == (
            s,
            Ok::<(), ErrorView>(()),
        ),
    decreases subs.len() - i,
{
    if 0 <= i < subs.len() {
        let field = subs[i];
        assert(keeps_field(s.dialect, stored, field));
        companions_in_place_stay(
            s,
            table,
            field.companions(field.name@),
            stored.columns,
            0,
        );
        assert(alter_sub_step(s, table, field, stored.columns, stored.types) == (
            s,
            Ok::<(), ErrorView>(()),
        ));
        columns_in_place_stay(s, table, subs, stored, i + 1);
    }
}

/// A table that is as its field asks for is left alone.
pub proof fn a_table_in_shape_is_left_alone(
    s: SessionView,
    catalog: Catalog,
    collection: Seq<char>,
    plan: PlanView,
    config: LocaleConfig,
)
    requires
        in_shape(s.dialect, catalog, collection, plan, config),
        answers_plan(s, catalog, collection, plan),
    ensures
        plan_step(s, collection, plan, config).1 is Ok,
        left_alone(catalog, s, plan_step(s, collection, plan, config).0),
{
    let table = join_table_name(collection, plan.full_name);
    if !plan.has_table() {
        nothing_leaves_alone(catalog, s);
    } else {
        let stored = catalog.tables[table];
        let s1 = meta::get_step(s, record_key(table)).0;
        assert(sync_locale_rows_step(s, table, plan.has_locale_col, config.default_locale@) == (
            s1,
            Ok::<(), ErrorView>(()),
        ));
        let s2 = table_exists_step(s1, table).0;
        assert(read_once(s, s1) && read_once(s1, s2));
        reading_leaves_alone(catalog, s, s1);
        reading_leaves_alone(catalog, s1, s2);
        left_alone_on(catalog, s, s1, s2);
        let whole = plan_step(s, collection, plan, config).0;
        match plan.kind {
            JoinTableKind::Relationship => {
                let s3 = table_constraints_step(s2, table, ConstraintKind::PrimaryKey).0;
                let s4 = meta::get_step(s3, target_key(table)).0;
                assert(read_once(s2, s3) && read_once(s3, s4));
                reading_leaves_alone(catalog, s2, s3);
                reading_leaves_alone(catalog, s3, s4);
                left_alone_on(catalog, s, s2, s3);
                left_alone_on(catalog, s, s3, s4);
                assert(whole == s4);
            },
            JoinTableKind::Array => {
                let subs = row_fields(plan.field.fields@);
                let s3 = after_locale(s2, table, plan.has_locale_col);
                if plan.has_locale_col {
                    assert(read_once(s2, s3));
                    reading_leaves_alone(catalog, s2, s3);
                } else {
                    nothing_leaves_alone(catalog, s2);
                }
                let s4 = table_columns_step(s3, table).0;
                let s5 = table_column_types_step(s4, table).0;
                assert(read_once(s3, s4) && read_once(s4, s5));
                reading_leaves_alone(catalog, s3, s4);
                reading_leaves_alone(catalog, s4, s5);
                left_alone_on(catalog, s, s2, s3);
                left_alone_on(catalog, s, s3, s4);
                left_alone_on(catalog, s, s4, s5);
                columns_in_place_stay(s5, table, subs, stored, 0);
                assert(alter_array_step(s3, table, subs) == (s5, Ok::<(), ErrorView>(())));
                an_index_in_place_stays(s5, catalog, table, plan.has_locale_col);
                left_alone_on(catalog, s, s5, whole);
            },
            JoinTableKind::Blocks => {
                let s3 = after_locale(s2, table, plan.has_locale_col);
                if plan.has_locale_col {
                    assert(read_once(s2, s3));
                    reading_leaves_alone(catalog, s2, s3);
                } else {
                    nothing_leaves_alone(catalog, s2);
                }
                left_alone_on(catalog, s, s2, s3);
                an_index_in_place_stays(s3, catalog, table, plan.has_locale_col);
                left_alone_on(catalog, s, s3, whole);
            },
        }
    }
}

proof fn tables_in_shape_are_left_alone(
    s: SessionView,
    catalog: Catalog,
    collection: Seq<char>,
    plans: Seq<PlanView>,
    config: LocaleConfig,
    i: int,
)
    requires
        0 <= i <= plans.len(),
        forall|k: int|
            0 <= k < plans.len() ==> in_shape(
                s.dialect,
                catalog,
                collection,
                #[trigger] plans[k],
                config,
            ),
        answers_plans(s, catalog, collection, plans, config, i),
    ensures
        plans_from(s, collection, plans, config, i).1 is Ok,
        left_alone(catalog, s, plans_from(s, collection, plans, config, i).0),
    decreases plans.len() - i,
{
    if i < plans.len() {
        assert(in_shape(s.dialect, catalog, collection, plans[i], config));
        a_table_in_shape_is_left_alone(s, catalog, collection, plans[i], config);
        let s1 = plan_step(s, collection, plans[i], config).0;
        tables_in_shape_are_left_alone(s1, catalog, collection, plans, config, i + 1);
        left_alone_on(catalog, s, s1, plans_from(s1, collection, plans, config, i + 1).0);
    } else {
        nothing_leaves_alone(catalog, s);
    }
}

/// A sync of tables that are as their fields ask for changes nothing: over a database in
/// that shape it succeeds, warns of nothing, and sends reads and statements that make an
/// index unless it is there, for indexes that are there.
pub proof fn a_sync_in_shape_changes_nothing(
    s: SessionView,
    catalog: Catalog,
    collection: Seq<char>,
    fields: Seq<FieldDefinition>,
    config: LocaleConfig,
)
    requires
        forall|k: int|
            0 <= k < join_plans(fields, config.enabled()).len() ==> in_shape(
                s.dialect,
                catalog,
                collection,
                #[trigger] join_plans(fields, config.enabled())[k],
                config,
            ),
        answers_plans(
            s,
            catalog,
            collection,
            join_plans(fields, config.enabled()),
            config,
            0,
        ),
    ensures
        sync_join_tables_step(s, collection, fields, config).1 is Ok,
        left_alone(catalog, s, sync_join_tables_step(s, collection, fields, config).0),
{
    tables_in_shape_are_left_alone(
        s,
        catalog,
        collection,
        join_plans(fields, config.enabled()),
        config,
        0,
    );
}

/// The request running one schema statement.
pub open spec fn ddl_request(dialect: Dialect, sql: Seq<char>) -> RequestView {
    RequestView::Execute { sql: ddl_text(dialect, sql), params: Seq::empty() }
}

/// Whether a table has a column of text, or one whose type is not told.
pub open spec fn text_at_most(stored: StoredTable, column: Seq<char>) -> bool {
    type_of(stored.types, column) matches Some(t) ==> equal_ignoring_case(t, "TEXT"@)
}

/// Whether a database did what a statement that makes a table says.
pub open spec fn made(catalog: Catalog, dialect: Dialect, request: RequestView) -> bool {
    &&& forall|
        table: Seq<char>,
        collection: Seq<char>,
        subs: Seq<FieldDefinition>,
        locale: Option<Seq<char>>,
    | request == ddl_request(
        dialect,
        #[trigger] create_array_sql(dialect, table, collection, subs, locale),
    ) ==> {
        &&& catalog.tables.dom().contains(table)
        &&& locale is Some ==> catalog.tables[table].columns.contains("_locale"@)
        &&& forall|i: int|
            0 <= i < subs.len() ==> keeps_field(dialect, catalog.tables[table], #[trigger] subs[i])
    }
    &&& forall|table: Seq<char>, collection: Seq<char>, locale: Option<Seq<char>>|
        request == ddl_request(
            dialect,
            #[trigger] create_blocks_sql(table, collection, locale),
        ) ==> {
            &&& catalog.tables.dom().contains(table)
            &&& locale is Some ==> catalog.tables[table].columns.contains("_locale"@)
        }
    &&& forall|table: Seq<char>, collection: Seq<char>, shape: JunctionShapeView|
        request == ddl_request(dialect, #[trigger] shape.create_sql(table, collection))
            || request == (RequestView::ExecuteBatch {
            sql: ddl_text(dialect, shape.create_sql(table, collection)),
        }) ==> {
            &&& catalog.tables.dom().contains(table)
            &&& key_covers(key_of(catalog.tables[table].keys), shape.key_columns())
        }
}

/// The statement giving a table a column.
pub open spec fn add_column_sql(table: Seq<char>, definition: Seq<char>) -> Seq<char> {
    "ALTER TABLE "@ + quoted(table) + " ADD COLUMN "@ + definition
}

/// The statement giving a table its locale column.
pub open spec fn add_locale_sql(table: Seq<char>, code: Seq<char>) -> Seq<char> {
    "ALTER TABLE \""@ + table + "\" ADD COLUMN "@ + locale_column_def(code)
}

/// The statement making a column text.
pub open spec fn to_text_sql(table: Seq<char>, column: Seq<char>) -> Seq<char> {
    "ALTER TABLE "@ + quoted(table) + " ALTER COLUMN "@ + quoted(column) + " TYPE TEXT USING "@
        + quoted(column) + "::text"@
}

/// The statement giving a table a primary key.
pub open spec fn add_key_sql(table: Seq<char>, shape: JunctionShapeView) -> Seq<char> {
    "ALTER TABLE "@ + quoted(table) + " ADD PRIMARY KEY ("@ + join(shape.key_columns(), ", "@)
        + ")"@
}

/// Whether a database did what a statement that changes a table says.
pub open spec fn altered(catalog: Catalog, dialect: Dialect, request: RequestView) -> bool {
    &&& forall|table: Seq<char>, field: FieldDefinition|
        request == ddl_request(
            dialect,
            #[trigger] add_column_sql(table, sub_field_def(dialect, field)),
        ) ==> {
            &&& catalog.tables[table].columns.contains(field.name@)
            &&& field.scalar_list() ==> text_at_most(catalog.tables[table], field.name@)
        }
    &&& forall|table: Seq<char>, column: Seq<char>|
        request == ddl_request(dialect, #[trigger] add_column_sql(table, companion_def(column)))
            ==> catalog.tables[table].columns.contains(column)
    &&& forall|table: Seq<char>, code: Seq<char>|
        request == ddl_request(dialect, #[trigger] add_locale_sql(table, code))
            ==> catalog.tables[table].columns.contains("_locale"@)
    &&& forall|table: Seq<char>, column: Seq<char>|
        request == ddl_request(dialect, #[trigger] to_text_sql(table, column)) ==> text_at_most(
            catalog.tables[table],
            column,
        )
    &&& forall|table: Seq<char>, shape: JunctionShapeView|
        request == ddl_request(dialect, #[trigger] add_key_sql(table, shape)) ==> key_covers(
            key_of(catalog.tables[table].keys),
            shape.key_columns(),
        )
}

/// The request recording a value under a key.
pub open spec fn record_request(dialect: Dialect, key: Seq<char>, value: Seq<char>) -> RequestView {
    RequestView::Execute {
        sql: meta::insert_sql(dialect),
        params: seq![DbValueView::Text(key), DbValueView::Text(value)],
    }
}

/// Whether a database did what a request for an index or a record says.
pub open spec fn indexed_and_recorded(
    catalog: Catalog,
    dialect: Dialect,
    request: RequestView,
) -> bool {
    &&& forall|table: Seq<char>, localized: bool, name: Seq<char>|
        request == ddl_request(dialect, #[trigger] create_index_sql(table, localized, name))
            ==> if localized {
            catalog.tables[table].locale_indexes.contains(name)
        } else {
            catalog.tables[table].plain_indexes.contains(name)
        }
    &&& forall|key: Seq<char>, value: Seq<char>|
        request == #[trigger] record_request(dialect, key, value) ==> catalog.record(key) == Some(
            value,
        )
}

/// Whether a database did what a request says.
pub open spec fn obeyed(catalog: Catalog, dialect: Dialect, request: RequestView) -> bool {
    &&& made(catalog, dialect, request)
    &&& altered(catalog, dialect, request)
    &&& indexed_and_recorded(catalog, dialect, request)
}

/// Whether a database did what every request sent since `before` says.
pub open spec fn obeys(catalog: Catalog, before: SessionView, after: SessionView) -> bool {
    forall|i: int|
        before.sent.len() <= i < after.sent.len() ==> obeyed(
            catalog,
            before.dialect,
            #[trigger] after.sent[i],
        )
}

/// Whether a request was sent since `before`.
pub open spec fn sent_since(before: SessionView, after: SessionView, request: RequestView) -> bool {
    exists|i: int| before.sent.len() <= i < after.sent.len() && #[trigger] after.sent[i] == request
}

/// Whether a record stays as it was told, unless one was stored in its place.
pub open spec fn record_stays(
    catalog: Catalog,
    before: SessionView,
    after: SessionView,
    key: Seq<char>,
) -> bool {
    meta::get_step(before, key).1 matches Ok(told) ==> catalog.record(key) == told || exists|
        value: Seq<char>,
    | #[trigger]
        sent_since(before, after, record_request(before.dialect, key, value))
}

/// Whether the columns that a table was told to have are there, with their types.
pub open spec fn columns_stay(
    stored: StoredTable,
    columns: Seq<Seq<char>>,
    types: Seq<(Seq<char>, Seq<char>)>,
) -> bool {
    forall|column: Seq<char>| #[trigger]
        columns.contains(column) ==> {
            &&& stored.columns.contains(column)
            &&& (type_of(types, column) matches Some(t) ==> equal_ignoring_case(t, "TEXT"@))
                ==> text_at_most(stored, column)
        }
}

/// Whether a list of a table's indexes holds the one it is given, and of those told the
/// ones that were not dropped.
pub open spec fn indexes_stay(
    listed: Seq<Seq<char>>,
    told: Seq<Seq<char>>,
    before: SessionView,
    after: SessionView,
    own: Seq<char>,
) -> bool {
    forall|k: int|
        0 <= k < listed.len() ==> #[trigger] listed[k] == own || (told.contains(listed[k])
            && !sent_since(
            before,
            after,
            ddl_request(before.dialect, "DROP INDEX IF EXISTS "@ + quoted(listed[k])),
        ))
}

/// Whether a database is what the sync of a table's index left.
pub open spec fn index_left(
    catalog: Catalog,
    s: SessionView,
    table: Seq<char>,
    localized: bool,
) -> bool {
    let own = own_index(table, localized);
    let after = sync_index_step(s, table, localized, own).0;
    let plain = index_names_step(s, table, index_prefix(false)).1;
    let other = drop_prefixed_step(s, table, index_prefix(false), own).0;
    let per_locale = index_names_step(other, table, index_prefix(true)).1;
    let stored = catalog.tables[table];
    &&& plain matches Ok(told) ==> indexes_stay(stored.plain_indexes, told, s, after, own)
    &&& per_locale matches Ok(told) ==> indexes_stay(stored.locale_indexes, told, s, after, own)
}

/// Whether the locale column that a table was told to have is there.
pub open spec fn locale_stays(stored: StoredTable, s: SessionView, table: Seq<char>) -> bool {
    table_columns_step(s, table).1 matches Ok(told) ==> (told.contains("_locale"@)
        ==> stored.columns.contains("_locale"@))
}

/// Where the look at a stored table's locale column leaves a session.
pub open spec fn after_ensured(s: SessionView, table: Seq<char>, locale: Option<Seq<char>>) -> SessionView {
    match locale {
        Some(code) => ensure_locale_column_step(s, table, code).0,
        None => s,
    }
}

/// Whether a database is what the sync of one planned table left: it did what it was
/// asked to, and what it told, and was not asked to change, is still so.
pub open spec fn left_by(
    catalog: Catalog,
    s: SessionView,
    collection: Seq<char>,
    plan: PlanView,
    config: LocaleConfig,
) -> bool {
    let table = join_table_name(collection, plan.full_name);
    let stored = catalog.tables[table];
    let locale = row_locale(plan.has_locale_col, config);
    let s1 = sync_locale_rows_step(s, table, plan.has_locale_col, config.default_locale@).0;
    let (s2, exists) = table_exists_step(s1, table);
    let s3 = after_ensured(s2, table, locale);
    plan.has_table() ==> {
        &&& obeys(catalog, s, plan_step(s, collection, plan, config).0)
        &&& record_stays(catalog, s, s1, record_key(table))
        &&& exists == Ok::<bool, ErrorView>(true) ==> catalog.tables.dom().contains(table)
        &&& match plan.kind {
            JoinTableKind::Relationship => {
                let shape = wanted_shape(plan, config);
                let s4 = junction_ddl_step(s1, table, collection, shape).0;
                &&& table_constraints_step(s2, table, ConstraintKind::PrimaryKey).1 matches Ok(keys)
                    ==> (key_covers(key_of(keys), shape.key_columns()) ==> key_covers(
                    key_of(stored.keys),
                    shape.key_columns(),
                ))
                &&& record_stays(
                    catalog,
                    s4,
                    plan_step(s, collection, plan, config).0,
                    target_key(table),
                )
            },
            JoinTableKind::Array => {
                let (s4, columns) = table_columns_step(s3, table);
                let types = table_column_types_step(s4, table).1;
                let s5 = array_ddl_step(
                    s1,
                    table,
                    collection,
                    row_fields(plan.field.fields@),
                    locale,
                ).0;
                &&& locale is Some ==> locale_stays(stored, s2, table)
                &&& columns is Ok && types is Ok ==> columns_stay(
                    stored,
                    columns->Ok_0,
                    types->Ok_0,
                )
                &&& index_left(catalog, s5, table, plan.has_locale_col)
            },
            JoinTableKind::Blocks => {
                let s5 = blocks_ddl_step(s1, table, collection, locale).0;
                &&& locale is Some ==> locale_stays(stored, s2, table)
                &&& index_left(catalog, s5, table, plan.has_locale_col)
            },
        }
    }
}

proof fn obeyed_in_parts(catalog: Catalog, a: SessionView, b: SessionView, c: SessionView)
    requires
        obeys(catalog, a, c),
        extends(a, b),
        extends(b, c),
    ensures
        obeys(catalog, a, b),
        obeys(catalog, b, c),
{
    assert forall|i: int| a.sent.len() <= i < b.sent.len() implies obeyed(
        catalog,
        a.dialect,
        #[trigger] b.sent[i],
    ) by {
        assert(b.sent[i] == c.sent[i]);
    }
}

proof fn a_statement_is_obeyed(catalog: Catalog, s: SessionView, sql: Seq<char>)
    requires
        obeys(catalog, s, ddl_step(s, sql).0),
    ensures
        obeyed(catalog, s.dialect, ddl_request(s.dialect, sql)),
{
    assert(ddl_step(s, sql).0.sent[s.sent.len() as int] == ddl_request(s.dialect, sql));
}

proof fn the_rest_is_dropped(s: SessionView, names: Seq<Seq<char>>, keep: Seq<char>, i: int, k: int)
    requires
        0 <= i <= k < names.len(),
        names[k] != keep,
        drop_indexes_from(s, names, keep, i).1 is Ok,
    ensures
        sent_since(
            s,
            drop_indexes_from(s, names, keep, i).0,
            ddl_request(s.dialect, "DROP INDEX IF EXISTS "@ + quoted(names[k])),
        ),
    decreases names.len() - i,
{
    broadcast use {on_drop_indexes_from, on_ddl_step};

    let last = drop_indexes_from(s, names, keep, i).0;
    let drop = ddl_request(s.dialect, "DROP INDEX IF EXISTS "@ + quoted(names[k]));
    if names[i] == keep {
        the_rest_is_dropped(s, names, keep, i + 1, k);
    } else {
        let s1 = ddl_step(s, "DROP INDEX IF EXISTS "@ + quoted(names[i])).0;
        assert(last == drop_indexes_from(s1, names, keep, i + 1).0);
        assert(extends(s1, last));
        if i == k {
            assert(s1.sent[s.sent.len() as int] == drop);
            assert(last.sent[s.sent.len() as int] == drop);
        } else {
            the_rest_is_dropped(s1, names, keep, i + 1, k);
            let j = choose|j: int|
                s1.sent.len() <= j < last.sent.len() && #[trigger] last.sent[j] == drop;
            assert(last.sent[j] == drop);
        }
    }
}

proof fn sent_earlier(a: SessionView, b: SessionView, c: SessionView, d: SessionView, request: RequestView)
    requires
        extends(a, b),
        extends(c, d),
        sent_since(b, c, request),
    ensures
        sent_since(a, d, request),
{
    let j = choose|j: int| b.sent.len() <= j < c.sent.len() && #[trigger] c.sent[j] == request;
    assert(d.sent[j] == request);
}

proof fn an_index_is_left(catalog: Catalog, s: SessionView, table: Seq<char>, localized: bool)
    requires
        sync_index_step(s, table, localized, own_index(table, localized)).1 is Ok,
        obeys(catalog, s, sync_index_step(s, table, localized, own_index(table, localized)).0),
        index_left(catalog, s, table, localized),
    ensures
        indexed_as(catalog.tables[table], localized, own_index(table, localized)),
{
    broadcast use {
        on_index_names_step, on_drop_indexes_from, on_drop_prefixed_step, on_ddl_step, extends_on,
    };

    let own = own_index(table, localized);
    let stored = catalog.tables[table];
    let last = sync_index_step(s, table, localized, own).0;
    let (s1, plain) = index_names_step(s, table, index_prefix(false));
    let s2 = drop_prefixed_step(s, table, index_prefix(false), own).0;
    let (s3, per_locale) = index_names_step(s2, table, index_prefix(true));
    let s4 = drop_prefixed_step(s2, table, index_prefix(true), own).0;
    let told = plain->Ok_0;
    let others = per_locale->Ok_0;
    assert(s2 == drop_indexes_from(s1, told, own, 0).0);
    assert(s4 == drop_indexes_from(s3, others, own, 0).0);
    let create = create_index_sql(table, localized, own);
    assert(last == ddl_step(s4, create).0);
    assert(extends(s, s1) && extends(s1, s2) && extends(s2, s3) && extends(s3, s4) && extends(
        s4,
        last,
    ));
    assert(extends(s, s4) && extends(s2, last) && extends(s, s3));
    obeyed_in_parts(catalog, s, s4, last);
    a_statement_is_obeyed(catalog, s4, create);
    assert forall|k: int| 0 <= k < stored.plain_indexes.len() implies #[trigger] stored.plain_indexes[k]
        == own by {
        let name = stored.plain_indexes[k];
        if name != own {
            let j = choose|j: int| 0 <= j < told.len() && told[j] == name;
            the_rest_is_dropped(s1, told, own, 0, j);
            sent_earlier(
                s,
                s1,
                s2,
                last,
                ddl_request(s.dialect, "DROP INDEX IF EXISTS "@ + quoted(name)),
            );
        }
    }
    assert forall|k: int| 0 <= k < stored.locale_indexes.len() implies #[trigger] stored.locale_indexes[k]
        == own by {
        let name = stored.locale_indexes[k];
        if name != own {
            let j = choose|j: int| 0 <= j < others.len() && others[j] == name;
            the_rest_is_dropped(s3, others, own, 0, j);
            sent_earlier(
                s,
                s3,
                s4,
                last,
                ddl_request(s.dialect, "DROP INDEX IF EXISTS "@ + quoted(name)),
            );
        }
    }
}

proof fn companions_are_left(
    catalog: Catalog,
    s: SessionView,
    table: Seq<char>,
    companions: Seq<Seq<char>>,
    existing: Seq<Seq<char>>,
    i: int,
)
    requires
        0 <= i,
        add_companions_from(s, table, companions, existing, i).1 is Ok,
        obeys(catalog, s, add_companions_from(s, table, companions, existing, i).0),
        forall|x: Seq<char>| #[trigger]
            existing.contains(x) ==> catalog.tables[table].columns.contains(x),
    ensures
        forall|k: int|
            i <= k < companions.len() ==> catalog.tables[table].columns.contains(
                #[trigger] companions[k],
            ),
    decreases companions.len() - i,
{
    broadcast use {on_add_companions_from, on_add_column_step};

    if i < companions.len() {
        let column = companions[i];
        let s1 = add_column_step(s, table, column, companion_def(column), existing).0;
        let last = add_companions_from(s, table, companions, existing, i).0;
        assert(last == add_companions_from(s1, table, companions, existing, i + 1).0);
        assert(extends(s, s1) && extends(s1, last));
        obeyed_in_parts(catalog, s, s1, last);
        if !existing.contains(column) {
            a_statement_is_obeyed(catalog, s, add_column_sql(table, companion_def(column)));
        }
        companions_are_left(catalog, s1, table, companions, existing, i + 1);
    }
}

proof fn a_field_is_left(
    catalog: Catalog,
    s: SessionView,
    table: Seq<char>,
    field: FieldDefinition,
    existing: Seq<Seq<char>>,
    types: Seq<(Seq<char>, Seq<char>)>,
)
    requires
        alter_sub_step(s, table, field, existing, types).1 is Ok,
        obeys(catalog, s, alter_sub_step(s, table, field, existing, types).0),
        columns_stay(catalog.tables[table], existing, types),
    ensures
        keeps_field(s.dialect, catalog.tables[table], field),
{
    broadcast use {on_reconcile_sub_step, on_add_column_step, on_add_companions_from, extends_on};

    let name = field.name@;
    let companions = field.companions(name);
    let stored = catalog.tables[table];
    let s1 = reconcile_sub_step(s, table, field, existing, types).0;
    let s2 = add_column_step(s1, table, name, sub_field_def(s.dialect, field), existing).0;
    let last = alter_sub_step(s, table, field, existing, types).0;
    assert(extends(s, s1) && extends(s1, s2) && extends(s2, last) && extends(s, s2));
    obeyed_in_parts(catalog, s, s2, last);
    obeyed_in_parts(catalog, s, s1, s2);
    companions_are_left(catalog, s2, table, companions, existing, 0);
    if !existing.contains(name) {
        a_statement_is_obeyed(catalog, s1, add_column_sql(table, sub_field_def(s.dialect, field)));
    } else if field.scalar_list() && s.dialect == Dialect::Postgres {
        if let Some(t) = type_of(types, name) {
            if !equal_ignoring_case(t, "TEXT"@) {
                a_statement_is_obeyed(catalog, s, to_text_sql(table, name));
            }
        }
    }
}

proof fn fields_are_left(
    catalog: Catalog,
    s: SessionView,
    table: Seq<char>,
    subs: Seq<FieldDefinition>,
    existing: Seq<Seq<char>>,
    types: Seq<(Seq<char>, Seq<char>)>,
    i: int,
)
    requires
        0 <= i,
        alter_subs_from(s, table, subs, existing, types, i).1 is Ok,
        obeys(catalog, s, alter_subs_from(s, table, subs, existing, types, i).0),
        columns_stay(catalog.tables[table], existing, types),
    ensures
        forall|k: int|
            i <= k < subs.len() ==> keeps_field(
                s.dialect,
                catalog.tables[table],
                #[trigger] subs[k],
            ),
    decreases subs.len() - i,
{
    broadcast use {on_alter_sub_step, on_alter_subs_from};

    if i < subs.len() {
        let s1 = alter_sub_step(s, table, subs[i], existing, types).0;
        let last = alter_subs_from(s, table, subs, existing, types, i).0;
        assert(last == alter_subs_from(s1, table, subs, existing, types, i + 1).0);
        assert(extends(s, s1) && extends(s1, last));
        obeyed_in_parts(catalog, s, s1, last);
        a_field_is_left(catalog, s, table, subs[i], existing, types);
        fields_are_left(catalog, s1, table, subs, existing, types, i + 1);
    }
}

proof fn a_locale_column_is_left(
    catalog: Catalog,
    s: SessionView,
    table: Seq<char>,
    code: Seq<char>,
)
    requires
        ensure_locale_column_step(s, table, code).1 is Ok,
        obeys(catalog, s, ensure_locale_column_step(s, table, code).0),
        locale_stays(catalog.tables[table], s, table),
    ensures
        catalog.tables[table].columns.contains("_locale"@),
{
    broadcast use {on_ddl_step, on_noted, extends_on};

    let (s1, told) = table_columns_step(s, table);
    assert(read_once(s, s1));
    nothing_or_one_extends(s, s1);
    if !told->Ok_0.contains("_locale"@) {
        let s2 = s1.noted("Adding _locale column to "@ + table);
        let last = ensure_locale_column_step(s, table, code).0;
        assert(last == ddl_step(s2, add_locale_sql(table, code)).0);
        assert(extends(s1, s2) && extends(s, s2));
        obeyed_in_parts(catalog, s, s2, last);
        a_statement_is_obeyed(catalog, s2, add_locale_sql(table, code));
    }
}

proof fn nothing_or_one_extends(a: SessionView, b: SessionView)
    requires
        a == b || read_once(a, b),
    ensures
        extends(a, b),
{
    assert(a.sent =~= b.sent.take(a.sent.len() as int));
    assert(a.warnings =~= b.warnings.take(a.warnings.len() as int));
    assert(a.errors =~= b.errors.take(a.errors.len() as int));
    assert(a.notes =~= b.notes.take(a.notes.len() as int));
}

proof fn a_stored_array_is_left(
    catalog: Catalog,
    s: SessionView,
    table: Seq<char>,
    subs: Seq<FieldDefinition>,
    locale: Option<Seq<char>>,
)
    requires
        update_array_step(s, table, subs, locale).1 is Ok,
        obeys(catalog, s, update_array_step(s, table, subs, locale).0),
        locale is Some ==> locale_stays(catalog.tables[table], s, table),
        ({
            let (s1, columns) = table_columns_step(after_ensured(s, table, locale), table);
            let types = table_column_types_step(s1, table).1;
            columns is Ok && types is Ok ==> columns_stay(
                catalog.tables[table],
                columns->Ok_0,
                types->Ok_0,
            )
        }),
    ensures
        locale is Some ==> catalog.tables[table].columns.contains("_locale"@),
        forall|i: int|
            0 <= i < subs.len() ==> keeps_field(
                s.dialect,
                catalog.tables[table],
                #[trigger] subs[i],
            ),
{
    broadcast use {
        on_ensure_locale_column_step, on_alter_array_step, on_alter_subs_from, extends_itself,
        extends_on,
    };

    let s1 = after_ensured(s, table, locale);
    let last = update_array_step(s, table, subs, locale).0;
    assert(last == alter_array_step(s1, table, subs).0);
    assert(extends(s, s1) && extends(s1, last));
    obeyed_in_parts(catalog, s, s1, last);
    if let Some(code) = locale {
        a_locale_column_is_left(catalog, s, table, code);
    }
    let (s2, columns) = table_columns_step(s1, table);
    let (s3, types) = table_column_types_step(s2, table);
    assert(read_once(s1, s2) && read_once(s2, s3));
    nothing_or_one_extends(s1, s2);
    nothing_or_one_extends(s2, s3);
    assert(last == alter_subs_from(s3, table, subs, columns->Ok_0, types->Ok_0, 0).0);
    assert(extends(s1, s3) && extends(s3, last));
    obeyed_in_parts(catalog, s1, s3, last);
    fields_are_left(catalog, s3, table, subs, columns->Ok_0, types->Ok_0, 0);
}

proof fn a_key_is_left(
    catalog: Catalog,
    s: SessionView,
    table: Seq<char>,
    collection: Seq<char>,
    shape: JunctionShapeView,
)
    requires
        reconcile_step(s, table, collection, shape).1 is Ok,
        obeys(catalog, s, reconcile_step(s, table, collection, shape).0),
        table_constraints_step(s, table, ConstraintKind::PrimaryKey).1 matches Ok(keys) ==> (
        key_covers(key_of(keys), shape.key_columns()) ==> key_covers(
            key_of(catalog.tables[table].keys),
            shape.key_columns(),
        )),
    ensures
        key_covers(key_of(catalog.tables[table].keys), shape.key_columns()),
{
    broadcast use {
        on_add_target_column_step, on_add_locale_column_step, on_table_constraints_step,
        on_drop_constraints_from, on_ddl_step, on_noted, extends_on, extends_itself,
    };

    let (s0, told) = table_constraints_step(s, table, ConstraintKind::PrimaryKey);
    let last = reconcile_step(s, table, collection, shape).0;
    if !key_covers(key_of(told->Ok_0), shape.key_columns()) {
        let s1 = s0.noted(rekeying(table, shape.key_columns(), key_of(told->Ok_0)));
        assert(extends(s, s0) && extends(s0, s1) && extends(s, s1));
        match s.dialect {
            Dialect::Postgres => {
                let s2 = add_target_column_step(s1, table, shape).0;
                let s3 = add_locale_column_step(s2, table, shape).0;
                let (s4, keys) = table_constraints_step(s3, table, ConstraintKind::PrimaryKey);
                let s5 = drop_constraints_from(s4, table, keys->Ok_0, 0).0;
                assert(last == ddl_step(s5, add_key_sql(table, shape)).0);
                assert(extends(s, s1) && extends(s1, s2) && extends(s2, s3) && extends(s3, s4)
                    && extends(s4, s5) && extends(s5, last));
                assert(extends(s, s2) && extends(s, s3) && extends(s, s4) && extends(s, s5));
                obeyed_in_parts(catalog, s, s5, last);
                a_statement_is_obeyed(catalog, s5, add_key_sql(table, shape));
            },
            Dialect::Sqlite => {
                let s2 = table_columns_step(s1, table).0;
                let s3 = batch_ddl_step(
                    s2,
                    "ALTER TABLE "@ + quoted(table) + " RENAME TO "@ + quoted(rebuild_temp(table)),
                ).0;
                let create = RequestView::ExecuteBatch {
                    sql: ddl_text(s.dialect, shape.create_sql(table, collection)),
                };
                let s4 = s3.asked(create);
                assert(s3.sent.len() == s.sent.len() + 3);
                assert(last.sent[s.sent.len() as int + 3] == create);
                assert(obeyed(catalog, s.dialect, create));
            },
        }
    }
}

proof fn a_new_record_is_left(
    catalog: Catalog,
    s: SessionView,
    key: Seq<char>,
    value: Seq<char>,
)
    requires
        meta::upsert_step(s, key, value).1 is Ok,
        obeys(catalog, s, meta::upsert_step(s, key, value).0),
    ensures
        catalog.record(key) == Some(value),
{
    let last = meta::upsert_step(s, key, value).0;
    assert(last.sent[s.sent.len() as int + 1] == record_request(s.dialect, key, value));
    assert(obeyed(catalog, s.dialect, record_request(s.dialect, key, value)));
}

proof fn no_record_is_sent(
    before: SessionView,
    after: SessionView,
    key: Seq<char>,
)
    requires
        before == after || read_once(before, after),
    ensures
        forall|value: Seq<char>| !#[trigger]
            sent_since(before, after, record_request(before.dialect, key, value)),
{
    assert forall|value: Seq<char>| !#[trigger]
        sent_since(before, after, record_request(before.dialect, key, value)) by {
        let request = record_request(before.dialect, key, value);
        if sent_since(before, after, request) {
            let i = choose|i: int|
                before.sent.len() <= i < after.sent.len() && #[trigger] after.sent[i] == request;
            assert(after.sent[i] == after.sent.last());
        }
    }
}

proof fn a_locale_record_is_left(
    catalog: Catalog,
    s: SessionView,
    table: Seq<char>,
    per_locale: bool,
    default_locale: Seq<char>,
)
    requires
        sync_locale_rows_step(s, table, per_locale, default_locale).1 is Ok,
        obeys(catalog, s, sync_locale_rows_step(s, table, per_locale, default_locale).0),
        record_stays(
            catalog,
            s,
            sync_locale_rows_step(s, table, per_locale, default_locale).0,
            record_key(table),
        ),
    ensures
        read_record(catalog.record(record_key(table))) == Some(per_locale),
{
    broadcast use {on_narrow_step, in_meta_upsert_step, extends_on, extends_itself};

    records_are_read_back(per_locale);
    let key = record_key(table);
    let (s1, recorded) = recorded_step(s, table);
    assert(read_once(s, s1));
    nothing_or_one_extends(s, s1);
    let last = sync_locale_rows_step(s, table, per_locale, default_locale).0;
    if recorded->Ok_0 == Some(per_locale) {
        assert(last == s1);
        no_record_is_sent(s, s1, key);
    } else {
        let s2 = if per_locale {
            s1
        } else {
            narrow_step(s1, table, recorded->Ok_0, default_locale).0
        };
        assert(last == meta::upsert_step(s2, key, record_text(per_locale)).0);
        assert(inside(s2, last));
        assert(extends(s, s2) && extends(s2, last));
        obeyed_in_parts(catalog, s, s2, last);
        a_new_record_is_left(catalog, s2, key, record_text(per_locale));
    }
}

proof fn a_target_is_left(
    catalog: Catalog,
    s: SessionView,
    table: Seq<char>,
    rc: RelationshipConfig,
)
    requires
        track_target_step(s, table, rc).1 is Ok,
        obeys(catalog, s, track_target_step(s, table, rc).0),
        record_stays(catalog, s, track_target_step(s, table, rc).0, target_key(table)),
    ensures
        catalog.record(target_key(table)) == Some(target(rc)),
{
    broadcast use {on_warn_repointed_step, in_meta_upsert_step, extends_on, extends_itself};

    let key = target_key(table);
    let (s1, stored) = meta::get_step(s, key);
    assert(read_once(s, s1));
    nothing_or_one_extends(s, s1);
    let last = track_target_step(s, table, rc).0;
    if stored->Ok_0 == Some(target(rc)) {
        no_record_is_sent(s, s1, key);
    } else {
        let s2 = match stored->Ok_0 {
            None => s1,
            Some(previous) => warn_repointed_step(s1, table, previous, target(rc)).0,
        };
        assert(last == meta::upsert_step(s2, key, target(rc)).0);
        assert(inside(s2, last));
        assert(extends(s, s2) && extends(s2, last));
        obeyed_in_parts(catalog, s, s2, last);
        a_new_record_is_left(catalog, s2, key, target(rc));
    }
}

/// What the sync of a table leaves is as its field asks for, whatever was there before.
pub proof fn a_synced_table_is_in_shape(
    s: SessionView,
    catalog: Catalog,
    collection: Seq<char>,
    plan: PlanView,
    config: LocaleConfig,
)
    requires
        plan_step(s, collection, plan, config).1 is Ok,
        left_by(catalog, s, collection, plan, config),
    ensures
        in_shape(s.dialect, catalog, collection, plan, config),
{
    broadcast use {
        on_sync_locale_rows_step, in_table_exists_step, on_junction_ddl_step, on_track_target_step,
        on_array_ddl_step, on_blocks_ddl_step, on_parent_index_sync_index_step, on_plan_ddl_step,
        on_reconcile_step, on_create_junction_step, on_update_array_step, on_create_array_step,
        on_ensure_locale_column_step, on_ddl_step, extends_on, extends_itself,
    };

    if plan.has_table() {
        let table = join_table_name(collection, plan.full_name);
        let localized = plan.has_locale_col;
        let locale = row_locale(localized, config);
        let whole = plan_step(s, collection, plan, config).0;
        let s1 = sync_locale_rows_step(s, table, localized, config.default_locale@).0;
        assert(whole == plan_ddl_step(s1, collection, plan, config).0);
        assert(extends(s, s1) && extends(s1, whole));
        obeyed_in_parts(catalog, s, s1, whole);
        a_locale_record_is_left(catalog, s, table, localized, config.default_locale@);
        let (s2, exists) = table_exists_step(s1, table);
        match plan.kind {
            JoinTableKind::Relationship => {
                let rc = plan.field.relationship->Some_0;
                let shape = wanted_shape(plan, config);
                let s3 = junction_ddl_step(s1, table, collection, shape).0;
                assert(whole == track_target_step(s3, table, rc).0);
                assert(extends(s1, s3) && extends(s3, whole));
                obeyed_in_parts(catalog, s1, s3, whole);
                assert(extends(s1, s2) && extends(s2, s3));
                obeyed_in_parts(catalog, s1, s2, s3);
                if exists == Ok::<bool, ErrorView>(true) {
                    a_key_is_left(catalog, s2, table, collection, shape);
                } else {
                    a_statement_is_obeyed(catalog, s2, shape.create_sql(table, collection));
                }
                a_target_is_left(catalog, s3, table, rc);
            },
            JoinTableKind::Array => {
                let subs = row_fields(plan.field.fields@);
                let s3 = array_ddl_step(s1, table, collection, subs, locale).0;
                assert(whole == sync_index_step(
                    s3,
                    table,
                    localized,
                    own_index(table, localized),
                ).0);
                assert(extends(s1, s3) && extends(s3, whole));
                obeyed_in_parts(catalog, s1, s3, whole);
                assert(extends(s1, s2) && extends(s2, s3));
                obeyed_in_parts(catalog, s1, s2, s3);
                if exists == Ok::<bool, ErrorView>(true) {
                    a_stored_array_is_left(catalog, s2, table, subs, locale);
                } else {
                    a_statement_is_obeyed(
                        catalog,
                        s2,
                        create_array_sql(s2.dialect, table, collection, subs, locale),
                    );
                }
                an_index_is_left(catalog, s3, table, localized);
            },
            JoinTableKind::Blocks => {
                let s3 = blocks_ddl_step(s1, table, collection, locale).0;
                assert(whole == sync_index_step(
                    s3,
                    table,
                    localized,
                    own_index(table, localized),
                ).0);
                assert(extends(s1, s3) && extends(s3, whole));
                obeyed_in_parts(catalog, s1, s3, whole);
                assert(extends(s1, s2) && extends(s2, s3));
                obeyed_in_parts(catalog, s1, s2, s3);
                if exists == Ok::<bool, ErrorView>(true) {
                    if let Some(code) = locale {
                        a_locale_column_is_left(catalog, s2, table, code);
                    }
                } else {
                    a_statement_is_obeyed(
                        catalog,
                        s2,
                        create_blocks_sql(table, collection, locale),
                    );
                }
                an_index_is_left(catalog, s3, table, localized);
            },
        }
    }
}

/// Whether a database is what the sync of the planned tables from the `i`-th on left:
/// what each left, none having undone what another did.
pub open spec fn all_left_by(
    catalog: Catalog,
    s: SessionView,
    collection: Seq<char>,
    plans: Seq<PlanView>,
    config: LocaleConfig,
    i: int,
) -> bool
    decreases plans.len() - i,
{
    if i < 0 || i >= plans.len() {
        true
    } else {
        left_by(catalog, s, collection, plans[i], config) && all_left_by(
            catalog,
            plan_step(s, collection, plans[i], config).0,
            collection,
            plans,
            config,
            i + 1,
        )
    }
}

proof fn synced_tables_are_in_shape(
    s: SessionView,
    catalog: Catalog,
    collection: Seq<char>,
    plans: Seq<PlanView>,
    config: LocaleConfig,
    i: int,
)
    requires
        0 <= i,
        plans_from(s, collection, plans, config, i).1 is Ok,
        all_left_by(catalog, s, collection, plans, config, i),
    ensures
        forall|k: int|
            i <= k < plans.len() ==> in_shape(
                s.dialect,
                catalog,
                collection,
                #[trigger] plans[k],
                config,
            ),
    decreases plans.len() - i,
{
    broadcast use on_plan_step;

    if i < plans.len() {
        a_synced_table_is_in_shape(s, catalog, collection, plans[i], config);
        let s1 = plan_step(s, collection, plans[i], config).0;
        assert(extends(s, s1));
        synced_tables_are_in_shape(s1, catalog, collection, plans, config, i + 1);
    }
}

/// A second sync changes nothing: after one that succeeded, over the database that it
/// left, another with the same fields succeeds too. It warns of nothing and sends reads
/// alone, and statements that make an index unless it is there, for indexes that are
/// there.
pub proof fn a_second_sync_changes_nothing(
    s: SessionView,
    t: SessionView,
    catalog: Catalog,
    collection: Seq<char>,
    fields: Seq<FieldDefinition>,
    config: LocaleConfig,
)
    requires
        sync_join_tables_step(s, collection, fields, config).1 is Ok,
        all_left_by(
            catalog,
            s,
            collection,
            join_plans(fields, config.enabled()),
            config,
            0,
        ),
        t.dialect == s.dialect,
        answers_plans(
            t,
            catalog,
            collection,
            join_plans(fields, config.enabled()),
            config,
            0,
        ),
    ensures
        sync_join_tables_step(t, collection, fields, config).1 is Ok,
        left_alone(catalog, t, sync_join_tables_step(t, collection, fields, config).0),
{
    let plans = join_plans(fields, config.enabled());
    synced_tables_are_in_shape(s, catalog, collection, plans, config, 0);
    a_sync_in_shape_changes_nothing(t, catalog, collection, fields, config);
}

} // verus!
