//! Which tables a definition's fields keep their rows in, and bringing each of
//! them up to date.
use crate::definition::{
    FieldDefinition, FieldType, Leaf, LeafView, LocaleConfig, has_own_rows, leaves,
    walk_leaf_fields,
};
use crate::migrate::join_tables::array::{sync_array_step, sync_array_table};
use crate::migrate::join_tables::blocks::{sync_blocks_step, sync_blocks_table};
use crate::migrate::join_tables::locale_rows::{sync_locale_rows, sync_locale_rows_step};
use crate::migrate::join_tables::relationship::{sync_relationship_step, sync_relationship_table};
use crate::names::{join_table, join_table_name};
use crate::session::{Session, SessionView, Step};
use crate::text::push_item;
use crate::value::{DbError, out};
use vstd::prelude::*;

verus! {

/// What kind of rows a table holds.
#[derive(Debug, Clone, Copy, PartialEq, Eq, Structural)]
pub enum JoinTableKind {
    /// A relationship or an upload.
    Relationship,
    Array,
    Blocks,
}

/// A table that a field may keep rows in.
pub struct JoinTablePlan<'a> {
    pub kind: JoinTableKind,
    pub field: &'a FieldDefinition,
    /// The field's name with the groups around it.
    pub full_name: String,
    /// Whether the table keeps rows per locale.
    pub has_locale_col: bool,
}

/// The mathematical value of a [`JoinTablePlan`].
#[verifier::ext_equal]
pub ghost struct PlanView {
    pub kind: JoinTableKind,
    pub field: FieldDefinition,
    pub full_name: Seq<char>,
    pub has_locale_col: bool,
}

impl<'a> DeepView for JoinTablePlan<'a> {
    type V = PlanView;

    open spec fn deep_view(&self) -> PlanView {
        PlanView {
            kind: self.kind,
            field: *self.field,
            full_name: self.full_name@,
            has_locale_col: self.has_locale_col,
        }
    }
}

impl PlanView {
    /// Whether the field has a table: a reference to one document has none.
    pub open spec fn has_table(self) -> bool {
        self.kind == JoinTableKind::Relationship ==> self.field.refers_to_many()
    }
}

/// What kind of rows a field of a type has.
pub open spec fn join_kind(field_type: FieldType) -> Option<JoinTableKind> {
    match field_type {
        FieldType::Relationship | FieldType::Upload => Some(JoinTableKind::Relationship),
        FieldType::Array => Some(JoinTableKind::Array),
        FieldType::Blocks => Some(JoinTableKind::Blocks),
        _ => None,
    }
}

fn kind_of(field_type: FieldType) -> (r: Option<JoinTableKind>)
    ensures
        r == join_kind(field_type),
{
    match field_type {
        FieldType::Relationship | FieldType::Upload => Some(JoinTableKind::Relationship),
        FieldType::Array => Some(JoinTableKind::Array),
        FieldType::Blocks => Some(JoinTableKind::Blocks),
        _ => None,
    }
}

/// The plans of the leaves that have rows, in order.
pub open spec fn plans_of(found: Seq<LeafView>, enabled: bool) -> Seq<PlanView>
    decreases found.len(),
{
    if found.len() == 0 {
        Seq::empty()
    } else {
        let leaf = found.last();
        let before = plans_of(found.drop_last(), enabled);
        match join_kind(leaf.field.field_type) {
            Some(kind) => before.push(
                PlanView {
                    kind,
                    field: leaf.field,
                    full_name: leaf.path(),
                    has_locale_col: leaf.localized() && enabled,
                },
            ),
            None => before,
        }
    }
}

/// The tables a definition's fields may keep rows in, in order.
pub open spec fn join_plans(fields: Seq<FieldDefinition>, enabled: bool) -> Seq<PlanView> {
    plans_of(leaves(fields, Seq::empty(), false), enabled)
}

fn collect_join_table_plans<'a>(found: &Vec<Leaf<'a>>, enabled: bool) -> (r: Vec<
    JoinTablePlan<'a>,
>)
    ensures
        r.deep_view() == plans_of(found.deep_view(), enabled),
{
    let mut plans: Vec<JoinTablePlan<'a>> = Vec::new();
    let ghost all = found.deep_view();
    let mut i: usize = 0;
    assert(all.take(0) =~= Seq::<LeafView>::empty());
    assert(plans.deep_view() =~= Seq::<PlanView>::empty());
    while i < found.len()
        invariant
            i <= found.len(),
            all == found.deep_view(),
            plans.deep_view() == plans_of(all.take(i as int), enabled),
        decreases found.len() - i,
    {
        assert(all.take(i + 1).drop_last() =~= all.take(i as int));
        assert(all.take(i + 1).last() == found@[i as int].deep_view());
        let leaf = &found[i];
        match kind_of(leaf.field.field_type) {
            Some(kind) => push_item(
                &mut plans,
                JoinTablePlan {
                    kind,
                    field: leaf.field,
                    full_name: leaf.path(),
                    has_locale_col: leaf.localized() && enabled,
                },
            ),
            None => {},
        }
        i += 1;
    }
    assert(all.take(i as int) =~= all);
    plans
}

/// The tables a definition's fields may keep rows in, in order. A group adds its
/// name and passes `localized` on; rows, collapsibles and tabs leave no trace.
pub fn plan_join_tables<'a>(
    fields: &'a Vec<FieldDefinition>,
    locale_config: &LocaleConfig,
) -> (r: Vec<JoinTablePlan<'a>>)
    ensures
        r.deep_view() == join_plans(fields@, locale_config.enabled()),
{
    let found = walk_leaf_fields(fields);
    collect_join_table_plans(&found, locale_config.is_enabled())
}

/// Creates or alters one planned table.
pub open spec fn plan_ddl_step(
    s: SessionView,
    collection: Seq<char>,
    plan: PlanView,
    config: LocaleConfig,
) -> Step<()> {
    match plan.kind {
        JoinTableKind::Relationship => sync_relationship_step(
            s,
            collection,
            plan.field.relationship,
            plan.full_name,
            plan.has_locale_col,
            config,
        ),
        JoinTableKind::Array => sync_array_step(
            s,
            collection,
            plan.field,
            plan.full_name,
            plan.has_locale_col,
            config,
        ),
        JoinTableKind::Blocks => sync_blocks_step(
            s,
            collection,
            plan.full_name,
            plan.has_locale_col,
            config,
        ),
    }
}

/// Brings one planned table up to date: its rows first, then its columns.
pub open spec fn plan_step(
    s: SessionView,
    collection: Seq<char>,
    plan: PlanView,
    config: LocaleConfig,
) -> Step<()> {
    if !plan.has_table() {
        (s, Ok(()))
    } else {
        let (s1, r) = sync_locale_rows_step(
            s,
            join_table_name(collection, plan.full_name),
            plan.has_locale_col,
            config.default_locale@,
        );
        match r {
            Err(e) => (s1, Err(e)),
            Ok(_) => plan_ddl_step(s1, collection, plan, config),
        }
    }
}

/// Brings the planned tables from the `i`-th on up to date.
pub open spec fn plans_from(
    s: SessionView,
    collection: Seq<char>,
    plans: Seq<PlanView>,
    config: LocaleConfig,
    i: int,
) -> Step<()>
    decreases plans.len() - i,
{
    if i < 0 || i >= plans.len() {
        (s, Ok(()))
    } else {
        let (s1, r) = plan_step(s, collection, plans[i], config);
        match r {
            Err(e) => (s1, Err(e)),
            Ok(_) => plans_from(s1, collection, plans, config, i + 1),
        }
    }
}

fn execute_join_table_plan<'a>(
    conn: &mut Session,
    collection_slug: &str,
    plan: &JoinTablePlan<'a>,
    locale_config: &LocaleConfig,
) -> (r: Result<(), DbError>)
    ensures
        (final(conn)@, out(r)) == plan_step(
            old(conn)@,
            collection_slug@,
            plan.deep_view(),
            *locale_config,
        ),
{
    if plan.kind == JoinTableKind::Relationship {
        let to_many = match &plan.field.relationship {
            Some(rc) => rc.has_many,
            None => false,
        };
        if !to_many {
            return Ok(());
        }
    }
    let full_name = plan.full_name.as_str();
    let table = join_table(collection_slug, full_name);
    sync_locale_rows(conn, table.as_str(), plan.has_locale_col, locale_config)?;
    match plan.kind {
        JoinTableKind::Relationship => sync_relationship_table(
            conn,
            collection_slug,
            plan.field,
            full_name,
            plan.has_locale_col,
            locale_config,
        ),
        JoinTableKind::Array => sync_array_table(
            conn,
            collection_slug,
            plan.field,
            full_name,
            plan.has_locale_col,
            locale_config,
        ),
        JoinTableKind::Blocks => sync_blocks_table(
            conn,
            collection_slug,
            full_name,
            plan.has_locale_col,
            locale_config,
        ),
    }
}

/// Brings every table a definition's fields keep rows in up to date.
pub open spec fn sync_join_tables_step(
    s: SessionView,
    collection: Seq<char>,
    fields: Seq<FieldDefinition>,
    config: LocaleConfig,
) -> Step<()> {
    plans_from(s, collection, join_plans(fields, config.enabled()), config, 0)
}

/// Brings every table a definition's fields keep rows in up to date.
pub fn sync_join_tables(
    conn: &mut Session,
    collection_slug: &str,
    fields: &Vec<FieldDefinition>,
    locale_config: &LocaleConfig,
) -> (r: Result<(), DbError>)
    ensures
        (final(conn)@, out(r)) == sync_join_tables_step(
            old(conn)@,
            collection_slug@,
            fields@,
            *locale_config,
        ),
{
    let plans = plan_join_tables(fields, locale_config);
    let ghost all = plans.deep_view();
    let ghost start = conn@;
    let mut i: usize = 0;
    while i < plans.len()
        invariant
            i <= plans.len(),
            all == plans.deep_view(),
            plans_from(start, collection_slug@, all, *locale_config, 0) == plans_from(
                conn@,
                collection_slug@,
                all,
                *locale_config,
                i as int,
            ),
            plans_from(start, collection_slug@, all, *locale_config, 0) == sync_join_tables_step(
                old(conn)@,
                collection_slug@,
                fields@,
                *locale_config,
            ),
        decreases plans.len() - i,
    {
        assert(all[i as int] == plans@[i as int].deep_view());
        execute_join_table_plan(conn, collection_slug, &plans[i], locale_config)?;
        i += 1;
    }
    Ok(())
}

/// Rows are kept per locale only where content is.
pub proof fn locale_columns_only_where_enabled(found: Seq<LeafView>, i: int)
    requires
        0 <= i < plans_of(found, false).len(),
    ensures
        !plans_of(found, false)[i].has_locale_col,
    decreases found.len(),
{
    let before = plans_of(found.drop_last(), false);
    if i < before.len() {
        locale_columns_only_where_enabled(found.drop_last(), i);
    }
}

/// A planned table is kept per locale exactly if its field, or a group around it, is
/// localized and content is kept per locale.
pub proof fn plans_follow_their_leaf(found: Seq<LeafView>, enabled: bool, i: int)
    requires
        0 <= i < plans_of(found, enabled).len(),
    ensures
        exists|k: int|
            0 <= k < found.len() && {
                let leaf = #[trigger] found[k];
                let plan = plans_of(found, enabled)[i];
                &&& plan.field == leaf.field
                &&& plan.full_name == leaf.path()
                &&& plan.has_locale_col == (leaf.localized() && enabled)
                &&& join_kind(leaf.field.field_type) == Some(plan.kind)
            },
    decreases found.len(),
{
    let front = found.drop_last();
    let before = plans_of(front, enabled);
    if i < before.len() {
        plans_follow_their_leaf(front, enabled, i);
        let k = choose|k: int|
            0 <= k < front.len() && {
                let leaf = #[trigger] front[k];
                let plan = before[i];
                &&& plan.field == leaf.field
                &&& plan.full_name == leaf.path()
                &&& plan.has_locale_col == (leaf.localized() && enabled)
                &&& join_kind(leaf.field.field_type) == Some(plan.kind)
            };
        assert(found[k] == front[k]);
    } else {
        assert(found[found.len() - 1] == found.last());
    }
}

/// A field's table is planned exactly where its value has rows of its own.
pub proof fn tables_hold_what_columns_do_not(found: Seq<LeafView>, enabled: bool, i: int)
    requires
        0 <= i < plans_of(found, enabled).len(),
    ensures
        plans_of(found, enabled)[i].has_table() <==> has_own_rows(
            plans_of(found, enabled)[i].field,
        ),
        plans_of(found, enabled)[i].has_table() <==> !plans_of(found, enabled)[i].field.in_parent(),
{
    plans_follow_their_leaf(found, enabled, i);
}

} // verus!
