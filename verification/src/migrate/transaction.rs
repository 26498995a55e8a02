//! What a sync asks for inside its transaction.
//!
//! A sync and a recreation are one transaction each, from the first table to the
//! last pass. That is a property of everything they do: each of the steps below adds
//! requests that neither begin nor end one, and so does what is made of them.
use crate::definition::{
    BlockDefinition, BlockView, CollectionDefinition, FieldDefinition, FieldType, FieldView,
    GlobalDefinition, LeafView, LocaleConfig, Registry,
};
use crate::migrate::helpers::introspection::{
    table_columns_step, table_exists_step, user_tables_step,
};
use crate::migrate::helpers::paged::{PageView, ScanView, first_page_step, page_step, update_sql};
use crate::migrate::identifier_check::identifier_checks;
use crate::migrate::legacy_timestamps::{
    normalize_from, normalize_pair_step, normalize_step, normalize_table_step,
    normalize_target_step, rewrite_from, rewrite_sql,
};
use crate::migrate::locale_change::{content_from, default_locale_step, warn_default_step};
use crate::migrate::meta;
use crate::migrate::nested_values::{
    CandidateView, Conversion, RowsView, convert_array_step, convert_blocks_step,
    convert_candidates_step, convert_collections_from, convert_columns_from, convert_globals_from,
    convert_leaves_from, convert_one_step, convert_pages, convert_rows_step, convert_step,
};
use crate::migrate::orphan_tables::{
    OrphanView, accounted_for, classified, find_orphans_step, orphan_warning, orphans_from,
    warn_orphans_step, warned_of_tables,
};
use crate::migrate::reference_cardinality::{
    CopyView, RefColumn, RefLeafView, Shape, all_warned, carry_between_step, carry_collections_from,
    carry_globals_from, carry_leaf_step, carry_leaves_from, carry_owner_step, carry_step,
    column_to_junction_step, copy_column_step, copy_columns_from, copy_page_step, copy_pages,
    junction_to_column_step, refill_from, refill_sql, refuse_multiple_step, shape_under,
};
use crate::migrate::search_index::{build_index_step, sync_index_step, sync_indexes_from};
use crate::migrate::sync::{
    begin_step, check_all_step, check_collections_from, conversions_step, finish_step,
    later_conversions_step, lock_step, locked_recreate_step, locked_sync_step, no_dangling_step,
    prepare_step, recreate_all_step, run_sync_step, sync_body_step, sync_collections_from,
    sync_globals_from, sync_tables_step,
};
use crate::migrate::system_tables::{
    ImageConvertJobView, create_jobs_step, drain_queue_step, drain_step, enqueue_step,
    later_job_columns_step, plain_tables_step, system_tables_step, unless_column_step,
};
use crate::migrate::tracking::{drop_tables_from, drop_tables_step};
use crate::names::{global_table_name, join_table_name, quoted};
use crate::pool::connect_step;
use crate::session::{
    RequestView, SessionView, answers_left, ask_count, ask_done, ask_flag, ask_names, ask_shape,
    batch_ddl_step, batch_step, execute_many_step, execute_step, extends, query_all_step,
    query_one_step,
};
use crate::value::{DbRowView, DbValueView, together};
use vstd::prelude::*;

verus! {

/// Whether a request neither begins nor ends a transaction.
pub open spec fn ends_nothing(request: RequestView) -> bool {
    match request {
        RequestView::Begin => false,
        RequestView::Commit => false,
        RequestView::Rollback => false,
        _ => true,
    }
}

/// Whether `after` is `before` with warnings and requests added, none of which
/// begins or ends a transaction.
pub open spec fn inside(before: SessionView, after: SessionView) -> bool {
    &&& extends(before, after)
    &&& forall|i: int|
        before.sent.len() <= i < after.sent.len() ==> ends_nothing(#[trigger] after.sent[i])
}

broadcast proof fn inside_on(a: SessionView, b: SessionView, c: SessionView)
    requires
        #[trigger] inside(a, b),
        #[trigger] inside(b, c),
    ensures
        inside(a, c),
{
    assert forall|i: int| a.sent.len() <= i < c.sent.len() implies ends_nothing(
        #[trigger] c.sent[i],
    ) by {
        if i < b.sent.len() {
            assert(b.sent[i] == c.sent[i]);
        }
    }
    assert(a.sent =~= c.sent.take(a.sent.len() as int));
    assert(a.warnings =~= c.warnings.take(a.warnings.len() as int));
    assert(a.errors =~= c.errors.take(a.errors.len() as int));
    assert(a.notes =~= c.notes.take(a.notes.len() as int));
}

broadcast proof fn inside_itself(s: SessionView)
    ensures
        #[trigger] inside(s, s),
{
    assert(s.sent =~= s.sent.take(s.sent.len() as int));
    assert(s.warnings =~= s.warnings.take(s.warnings.len() as int));
}

pub(crate) broadcast proof fn in_warned(s: SessionView, message: Seq<char>)
    ensures
        inside(s, #[trigger] s.warned(message)),
{
    assert(s.sent =~= s.sent.take(s.sent.len() as int));
    assert(s.warnings =~= s.warned(message).warnings.take(s.warnings.len() as int));
}

pub(crate) broadcast proof fn in_noted(s: SessionView, message: Seq<char>)
    ensures
        inside(s, #[trigger] s.noted(message)),
{
    assert(s.sent =~= s.sent.take(s.sent.len() as int));
    assert(s.warnings =~= s.warnings.take(s.warnings.len() as int));
    assert(s.errors =~= s.errors.take(s.errors.len() as int));
    assert(s.notes =~= s.noted(message).notes.take(s.notes.len() as int));
}

pub(crate) broadcast proof fn in_ask_done(s: SessionView, request: RequestView)
    requires
        ends_nothing(request),
    ensures
        inside(s, (#[trigger] ask_done(s, request)).0),
{
    assert(s.sent =~= ask_done(s, request).0.sent.take(s.sent.len() as int));
    assert(s.warnings =~= s.warnings.take(s.warnings.len() as int));
}

pub(crate) broadcast proof fn in_batch_step(s: SessionView, sql: Seq<char>)
    ensures
        inside(s, (#[trigger] batch_step(s, sql)).0),
{
    broadcast use {inside_on, inside_itself, in_ask_done};
}

pub(crate) broadcast proof fn in_batch_ddl_step(s: SessionView, sql: Seq<char>)
    ensures
        inside(s, (#[trigger] batch_ddl_step(s, sql)).0),
{
    broadcast use {inside_on, inside_itself, in_batch_step};
}

pub(crate) broadcast proof fn in_plain_tables_step(s: SessionView)
    ensures
        inside(s, (#[trigger] plain_tables_step(s)).0),
{
    broadcast use {inside_on, inside_itself, in_batch_ddl_step};
}

pub(crate) broadcast proof fn in_ask_names(s: SessionView, request: RequestView)
    requires
        ends_nothing(request),
    ensures
        inside(s, (#[trigger] ask_names(s, request)).0),
{
    assert(s.sent =~= ask_names(s, request).0.sent.take(s.sent.len() as int));
    assert(s.warnings =~= s.warnings.take(s.warnings.len() as int));
}

pub(crate) broadcast proof fn in_query_all_step(s: SessionView, sql: Seq<char>, params: Seq<DbValueView>)
    ensures
        inside(s, (#[trigger] query_all_step(s, sql, params)).0),
{
    assert(s.sent =~= query_all_step(s, sql, params).0.sent.take(s.sent.len() as int));
    assert(s.warnings =~= s.warnings.take(s.warnings.len() as int));
}

pub(crate) broadcast proof fn in_table_columns_step(s: SessionView, table: Seq<char>)
    ensures
        inside(s, (#[trigger] table_columns_step(s, table)).0),
{
    broadcast use {inside_on, inside_itself, in_ask_names, in_query_all_step};
}

pub(crate) broadcast proof fn in_unless_column_step(
    s: SessionView,
    columns: Seq<Seq<char>>,
    column: Seq<char>,
    sql: Seq<char>,
)
    ensures
        inside(s, (#[trigger] unless_column_step(s, columns, column, sql)).0),
{
    broadcast use {inside_on, inside_itself, in_batch_ddl_step};
}

pub(crate) broadcast proof fn in_later_job_columns_step(s: SessionView, columns: Seq<Seq<char>>)
    ensures
        inside(s, (#[trigger] later_job_columns_step(s, columns)).0),
{
    broadcast use {inside_on, inside_itself, in_unless_column_step};
}

pub(crate) broadcast proof fn in_create_jobs_step(s: SessionView, stamp: Seq<char>, stamp_type: Seq<char>)
    ensures
        inside(s, (#[trigger] create_jobs_step(s, stamp, stamp_type)).0),
{
    broadcast use {
        inside_on,
        inside_itself,
        in_batch_ddl_step,
        in_table_columns_step,
        in_later_job_columns_step,
    };
}

pub(crate) broadcast proof fn in_enqueue_step(s: SessionView, jobs: Seq<ImageConvertJobView>)
    ensures
        inside(s, (#[trigger] enqueue_step(s, jobs)).0),
{
    broadcast use {inside_on, inside_itself, in_ask_done};
}

pub(crate) broadcast proof fn in_drain_queue_step(s: SessionView)
    ensures
        inside(s, (#[trigger] drain_queue_step(s)).0),
{
    broadcast use {in_noted, inside_on, inside_itself, in_query_all_step, in_enqueue_step, in_batch_ddl_step};
}

pub(crate) broadcast proof fn in_drain_step(s: SessionView)
    ensures
        inside(s, (#[trigger] drain_step(s)).0),
{
    broadcast use {inside_on, inside_itself, in_query_all_step, in_drain_queue_step};
}

pub(crate) broadcast proof fn in_system_tables_step(s: SessionView)
    ensures
        inside(s, (#[trigger] system_tables_step(s)).0),
{
    broadcast use {
        inside_on,
        inside_itself,
        in_plain_tables_step,
        in_create_jobs_step,
        in_drain_step,
    };
}

pub(crate) broadcast proof fn in_check_collections_from(
    s: SessionView,
    collections: Seq<CollectionDefinition>,
    config: LocaleConfig,
    i: int,
)
    ensures
        inside(s, (#[trigger] check_collections_from(s, collections, config, i)).0),
    decreases collections.len() - i,
{
    broadcast use {inside_on, inside_itself, in_ask_done};

    if i < 0 || i >= collections.len() {
    } else {
        let slug = collections[i].slug@;
        match identifier_checks(slug, collections[i].fields@, config) {
            Err(e) => {},
            Ok(_) => {
                let (s1, r) = ask_done(s, RequestView::CheckIndexNames { slug });
                match r {
                    Err(e) => {},
                    Ok(_) => in_check_collections_from(s1, collections, config, i + 1),
                }
            },
        }
    }
}

pub(crate) broadcast proof fn in_check_all_step(s: SessionView, registry: Registry, config: LocaleConfig)
    ensures
        inside(s, (#[trigger] check_all_step(s, registry, config)).0),
{
    broadcast use {inside_on, inside_itself, in_check_collections_from, in_ask_done};
}

pub(crate) broadcast proof fn in_sync_collections_from(
    s: SessionView,
    collections: Seq<CollectionDefinition>,
    i: int,
)
    ensures
        inside(s, (#[trigger] sync_collections_from(s, collections, i)).0),
    decreases collections.len() - i,
{
    broadcast use {inside_on, inside_itself, in_ask_done};

    if i < 0 || i >= collections.len() {
    } else {
        let (s1, r) = ask_done(s, RequestView::SyncCollection { slug: collections[i].slug@ });
        match r {
            Err(e) => {},
            Ok(_) => in_sync_collections_from(s1, collections, i + 1),
        }
    }
}

pub(crate) broadcast proof fn in_sync_globals_from(s: SessionView, globals: Seq<GlobalDefinition>, i: int)
    ensures
        inside(s, (#[trigger] sync_globals_from(s, globals, i)).0),
    decreases globals.len() - i,
{
    broadcast use {inside_on, inside_itself, in_ask_done};

    if i < 0 || i >= globals.len() {
    } else {
        let (s1, r) = ask_done(s, RequestView::SyncGlobal { slug: globals[i].slug@ });
        match r {
            Err(e) => {},
            Ok(_) => in_sync_globals_from(s1, globals, i + 1),
        }
    }
}

pub(crate) broadcast proof fn in_sync_tables_step(s: SessionView, registry: Registry)
    ensures
        inside(s, (#[trigger] sync_tables_step(s, registry)).0),
{
    broadcast use {
        inside_on,
        inside_itself,
        in_ask_done,
        in_sync_collections_from,
        in_sync_globals_from,
    };
}

pub(crate) broadcast proof fn in_ask_count(s: SessionView, request: RequestView)
    requires
        ends_nothing(request),
    ensures
        inside(s, (#[trigger] ask_count(s, request)).0),
{
    assert(s.sent =~= ask_count(s, request).0.sent.take(s.sent.len() as int));
    assert(s.warnings =~= s.warnings.take(s.warnings.len() as int));
}

pub(crate) broadcast proof fn in_execute_step(s: SessionView, sql: Seq<char>, params: Seq<DbValueView>)
    ensures
        inside(s, (#[trigger] execute_step(s, sql, params)).0),
{
    broadcast use {inside_on, inside_itself, in_ask_count};
}

pub(crate) broadcast proof fn in_meta_delete_step(s: SessionView, key: Seq<char>)
    ensures
        inside(s, (#[trigger] meta::delete_step(s, key)).0),
{
    broadcast use {inside_on, inside_itself, in_execute_step};
}

pub(crate) broadcast proof fn in_user_tables_step(s: SessionView)
    ensures
        inside(s, (#[trigger] user_tables_step(s)).0),
{
    broadcast use {inside_on, inside_itself, in_ask_names, in_query_all_step};
}

pub(crate) broadcast proof fn in_orphans_from(
    s: SessionView,
    names: Seq<Seq<char>>,
    known: Seq<Seq<char>>,
    i: int,
    done: Seq<OrphanView>,
)
    ensures
        inside(s, (#[trigger] orphans_from(s, names, known, i, done)).0),
    decreases names.len() - i,
{
    broadcast use {inside_on, inside_itself, in_table_columns_step};

    if i < 0 || i >= names.len() {
    } else if accounted_for(names[i], known) {
        in_orphans_from(s, names, known, i + 1, done)
    } else {
        let (s1, columns) = table_columns_step(s, names[i]);
        match columns {
            Err(e) => {},
            Ok(columns) => match classified(names[i], columns) {
                Some(kind) => in_orphans_from(
                    s1,
                    names,
                    known,
                    i + 1,
                    done.push(OrphanView { name: names[i], kind }),
                ),
                None => in_orphans_from(s1, names, known, i + 1, done),
            },
        }
    }
}

pub(crate) broadcast proof fn in_find_orphans_step(s: SessionView, registry: Registry)
    ensures
        inside(s, (#[trigger] find_orphans_step(s, registry)).0),
{
    broadcast use {inside_on, inside_itself, in_user_tables_step, in_orphans_from};
}

pub(crate) broadcast proof fn in_warned_of_tables(s: SessionView, orphans: Seq<OrphanView>, i: int)
    ensures
        inside(s, #[trigger] warned_of_tables(s, orphans, i)),
    decreases orphans.len() - i,
{
    broadcast use {inside_on, inside_itself, in_warned};

    if i < 0 || i >= orphans.len() {
    } else {
        in_warned_of_tables(s.warned(orphan_warning(orphans[i])), orphans, i + 1)
    }
}

pub(crate) broadcast proof fn in_warn_orphans_step(s: SessionView, registry: Registry)
    ensures
        inside(s, (#[trigger] warn_orphans_step(s, registry)).0),
{
    broadcast use {inside_on, inside_itself, in_find_orphans_step, in_warned_of_tables};
}

pub(crate) broadcast proof fn in_prepare_step(s: SessionView, registry: Registry, config: LocaleConfig)
    ensures
        inside(s, (#[trigger] prepare_step(s, registry, config)).0),
{
    broadcast use {
        inside_on,
        inside_itself,
        in_system_tables_step,
        in_check_all_step,
        in_sync_tables_step,
        in_meta_delete_step,
        in_warn_orphans_step,
    };
}

pub(crate) broadcast proof fn in_query_one_step(s: SessionView, sql: Seq<char>, params: Seq<DbValueView>)
    ensures
        inside(s, (#[trigger] query_one_step(s, sql, params)).0),
{
    assert(s.sent =~= query_one_step(s, sql, params).0.sent.take(s.sent.len() as int));
    assert(s.warnings =~= s.warnings.take(s.warnings.len() as int));
}

pub(crate) broadcast proof fn in_meta_get_step(s: SessionView, key: Seq<char>)
    ensures
        inside(s, (#[trigger] meta::get_step(s, key)).0),
{
    broadcast use {inside_on, inside_itself, in_query_one_step};
}

pub(crate) broadcast proof fn in_meta_upsert_step(s: SessionView, key: Seq<char>, value: Seq<char>)
    ensures
        inside(s, (#[trigger] meta::upsert_step(s, key, value)).0),
{
    broadcast use {inside_on, inside_itself, in_meta_delete_step, in_execute_step};
}

pub(crate) broadcast proof fn in_ask_flag(s: SessionView, request: RequestView)
    requires
        ends_nothing(request),
    ensures
        inside(s, (#[trigger] ask_flag(s, request)).0),
{
    assert(s.sent =~= ask_flag(s, request).0.sent.take(s.sent.len() as int));
    assert(s.warnings =~= s.warnings.take(s.warnings.len() as int));
}

pub(crate) broadcast proof fn in_table_exists_step(s: SessionView, name: Seq<char>)
    ensures
        inside(s, (#[trigger] table_exists_step(s, name)).0),
{
    broadcast use {inside_on, inside_itself, in_ask_flag, in_query_one_step};
}

pub(crate) broadcast proof fn in_page_step(s: SessionView, scan: ScanView, after: Option<Seq<char>>)
    ensures
        inside(s, (#[trigger] page_step(s, scan, after)).0),
{
    broadcast use {inside_on, inside_itself, in_query_all_step};
}

pub(crate) broadcast proof fn in_first_page_step(s: SessionView, scan: ScanView)
    ensures
        inside(s, (#[trigger] first_page_step(s, scan)).0),
{
    broadcast use {inside_on, inside_itself, in_table_exists_step, in_page_step};
}

pub(crate) broadcast proof fn in_execute_many_step(
    s: SessionView,
    sql: Seq<char>,
    params: Seq<Seq<DbValueView>>,
)
    ensures
        inside(s, (#[trigger] execute_many_step(s, sql, params)).0),
{
    broadcast use {inside_on, inside_itself, in_ask_count};
}

pub(crate) broadcast proof fn in_all_warned(s: SessionView, warnings: Seq<Seq<char>>)
    ensures
        inside(s, #[trigger] all_warned(s, warnings)),
{
    assert(s.warnings =~= all_warned(s, warnings).warnings.take(s.warnings.len() as int));
    assert(s.sent =~= s.sent.take(s.sent.len() as int));
}

pub(crate) broadcast proof fn in_copy_page_step(s: SessionView, copy: CopyView, rows: Seq<DbRowView>)
    ensures
        inside(s, (#[trigger] copy_page_step(s, copy, rows)).0),
{
    broadcast use {inside_on, inside_itself, in_execute_many_step, in_all_warned};
}

pub(crate) broadcast proof fn in_copy_pages(
    s: SessionView,
    copy: CopyView,
    page: PageView,
    n: nat,
)
    ensures
        inside(s, (#[trigger] copy_pages(s, copy, page, n)).0),
    decreases answers_left(s),
{
    broadcast use {inside_on, inside_itself, in_copy_page_step, in_page_step};

    let (s1, r) = copy_page_step(s, copy, page.rows);
    match r {
        Err(e) => {},
        Ok(more) => match page.next {
            None => {},
            Some(after) => {
                let (s2, next) = page_step(s1, copy.scan(), Some(after));
                match next {
                    Err(e) => {},
                    Ok(next) => in_copy_pages(s2, copy, next, together(n, more)),
                }
            },
        },
    }
}

pub(crate) broadcast proof fn in_copy_column_step(s: SessionView, copy: CopyView)
    ensures
        inside(s, (#[trigger] copy_column_step(s, copy)).0),
{
    broadcast use {inside_on, inside_itself, in_first_page_step, in_copy_pages};
}

pub(crate) broadcast proof fn in_copy_columns_from(
    s: SessionView,
    table: Seq<char>,
    junction: Seq<char>,
    polymorphic: bool,
    columns: Seq<RefColumn>,
    i: int,
    n: nat,
)
    ensures
        inside(
            s,
            (#[trigger] copy_columns_from(s, table, junction, polymorphic, columns, i, n)).0,
        ),
    decreases columns.len() - i,
{
    broadcast use {inside_on, inside_itself, in_copy_column_step};

    if i < 0 || i >= columns.len() {
    } else {
        let (s1, r) = copy_column_step(
            s,
            CopyView {
                table,
                junction,
                column: columns[i].0,
                polymorphic,
                locale: columns[i].1,
            },
        );
        match r {
            Err(e) => {},
            Ok(more) => in_copy_columns_from(
                s1,
                table,
                junction,
                polymorphic,
                columns,
                i + 1,
                together(n, more),
            ),
        }
    }
}

pub(crate) broadcast proof fn in_column_to_junction_step(
    s: SessionView,
    table: Seq<char>,
    junction: Seq<char>,
    leaf: RefLeafView,
    columns: Seq<RefColumn>,
)
    ensures
        inside(s, (#[trigger] column_to_junction_step(s, table, junction, leaf, columns)).0),
{
    broadcast use {in_noted, inside_on, inside_itself, in_execute_step, in_copy_columns_from};
}

pub(crate) broadcast proof fn in_refuse_multiple_step(
    s: SessionView,
    table: Seq<char>,
    junction: Seq<char>,
    leaf: RefLeafView,
)
    ensures
        inside(s, (#[trigger] refuse_multiple_step(s, table, junction, leaf)).0),
{
    broadcast use {inside_on, inside_itself, in_query_all_step};
}

pub(crate) broadcast proof fn in_refill_from(
    s: SessionView,
    table: Seq<char>,
    junction: Seq<char>,
    polymorphic: bool,
    columns: Seq<RefColumn>,
    i: int,
)
    ensures
        inside(s, (#[trigger] refill_from(s, table, junction, polymorphic, columns, i)).0),
    decreases columns.len() - i,
{
    broadcast use {inside_on, inside_itself, in_execute_step};

    if i < 0 || i >= columns.len() {
    } else {
        let (s1, r) = execute_step(
            s,
            refill_sql(
                s.dialect,
                table,
                junction,
                columns[i].0,
                polymorphic,
                columns[i].1 is Some,
            ),
            match columns[i].1 {
                Some(locale) => seq![DbValueView::Text(locale)],
                None => Seq::empty(),
            },
        );
        match r {
            Err(e) => {},
            Ok(_) => in_refill_from(s1, table, junction, polymorphic, columns, i + 1),
        }
    }
}

pub(crate) broadcast proof fn in_junction_to_column_step(
    s: SessionView,
    table: Seq<char>,
    junction: Seq<char>,
    leaf: RefLeafView,
    columns: Seq<RefColumn>,
)
    ensures
        inside(s, (#[trigger] junction_to_column_step(s, table, junction, leaf, columns)).0),
{
    broadcast use {in_noted, inside_on, inside_itself, in_refuse_multiple_step, in_refill_from};
}

pub(crate) broadcast proof fn in_carry_between_step(
    s: SessionView,
    table: Seq<char>,
    junction: Seq<char>,
    leaf: RefLeafView,
    locales: Seq<Seq<char>>,
)
    ensures
        inside(s, (#[trigger] carry_between_step(s, table, junction, leaf, locales)).0),
{
    broadcast use {
        inside_on,
        inside_itself,
        in_table_columns_step,
        in_column_to_junction_step,
        in_junction_to_column_step,
    };
}

pub(crate) broadcast proof fn in_carry_leaf_step(
    s: SessionView,
    table: Seq<char>,
    leaf: RefLeafView,
    before: Shape,
    locales: Seq<Seq<char>>,
)
    ensures
        inside(s, (#[trigger] carry_leaf_step(s, table, leaf, before, locales)).0),
{
    broadcast use {inside_on, inside_itself, in_table_exists_step, in_carry_between_step};
}

pub(crate) broadcast proof fn in_carry_leaves_from(
    s: SessionView,
    table: Seq<char>,
    refs: Seq<RefLeafView>,
    recorded: Seq<(Seq<char>, Shape)>,
    locales: Seq<Seq<char>>,
    i: int,
)
    ensures
        inside(s, (#[trigger] carry_leaves_from(s, table, refs, recorded, locales, i)).0),
    decreases refs.len() - i,
{
    broadcast use {inside_on, inside_itself, in_carry_leaf_step};

    if i < 0 || i >= refs.len() {
    } else {
        match shape_under(recorded, refs[i].path) {
            None => in_carry_leaves_from(s, table, refs, recorded, locales, i + 1),
            Some(before) => {
                let (s1, r) = carry_leaf_step(s, table, refs[i], before, locales);
                match r {
                    Err(e) => {},
                    Ok(_) => in_carry_leaves_from(s1, table, refs, recorded, locales, i + 1),
                }
            },
        }
    }
}

pub(crate) broadcast proof fn in_carry_owner_step(
    s: SessionView,
    table: Seq<char>,
    fields: Seq<FieldDefinition>,
    config: LocaleConfig,
)
    ensures
        inside(s, (#[trigger] carry_owner_step(s, table, fields, config)).0),
{
    broadcast use {
        inside_on,
        inside_itself,
        in_meta_get_step,
        in_meta_upsert_step,
        in_carry_leaves_from,
    };
}

pub(crate) broadcast proof fn in_carry_collections_from(
    s: SessionView,
    collections: Seq<CollectionDefinition>,
    config: LocaleConfig,
    i: int,
)
    ensures
        inside(s, (#[trigger] carry_collections_from(s, collections, config, i)).0),
    decreases collections.len() - i,
{
    broadcast use {inside_on, inside_itself, in_carry_owner_step};

    if i < 0 || i >= collections.len() {
    } else {
        let (s1, r) = carry_owner_step(
            s,
            collections[i].slug@,
            collections[i].fields@,
            config,
        );
        match r {
            Err(e) => {},
            Ok(_) => in_carry_collections_from(s1, collections, config, i + 1),
        }
    }
}

pub(crate) broadcast proof fn in_carry_globals_from(
    s: SessionView,
    globals: Seq<GlobalDefinition>,
    config: LocaleConfig,
    i: int,
)
    ensures
        inside(s, (#[trigger] carry_globals_from(s, globals, config, i)).0),
    decreases globals.len() - i,
{
    broadcast use {inside_on, inside_itself, in_carry_owner_step};

    if i < 0 || i >= globals.len() {
    } else {
        let (s1, r) = carry_owner_step(
            s,
            global_table_name(globals[i].slug@),
            globals[i].fields@,
            config,
        );
        match r {
            Err(e) => {},
            Ok(_) => in_carry_globals_from(s1, globals, config, i + 1),
        }
    }
}

pub(crate) broadcast proof fn in_carry_step(s: SessionView, registry: Registry, config: LocaleConfig)
    ensures
        inside(s, (#[trigger] carry_step(s, registry, config)).0),
{
    broadcast use {inside_on, inside_itself, in_carry_collections_from, in_carry_globals_from};
}

pub(crate) broadcast proof fn in_rewrite_from(
    s: SessionView,
    table: Seq<char>,
    existing: Seq<Seq<char>>,
    columns: Seq<Seq<char>>,
    i: int,
)
    ensures
        inside(s, (#[trigger] rewrite_from(s, table, existing, columns, i)).0),
    decreases columns.len() - i,
{
    broadcast use {inside_on, inside_itself, in_execute_step};

    if i < 0 || i >= columns.len() {
    } else if !existing.contains(columns[i]) {
        in_rewrite_from(s, table, existing, columns, i + 1)
    } else {
        let (s1, r) = execute_step(s, rewrite_sql(table, columns[i]), Seq::empty());
        match r {
            Err(e) => {},
            Ok(_) => in_rewrite_from(s1, table, existing, columns, i + 1),
        }
    }
}

pub(crate) broadcast proof fn in_normalize_table_step(s: SessionView, table: Seq<char>)
    ensures
        inside(s, (#[trigger] normalize_table_step(s, table)).0),
{
    broadcast use {
        inside_on,
        inside_itself,
        in_table_exists_step,
        in_table_columns_step,
        in_rewrite_from,
    };
}

pub(crate) broadcast proof fn in_normalize_pair_step(s: SessionView, table: Seq<char>)
    ensures
        inside(s, (#[trigger] normalize_pair_step(s, table)).0),
{
    broadcast use {inside_on, inside_itself, in_normalize_table_step};
}

pub(crate) broadcast proof fn in_normalize_target_step(s: SessionView, table: Seq<char>, versioned: bool)
    ensures
        inside(s, (#[trigger] normalize_target_step(s, table, versioned)).0),
{
    broadcast use {
        inside_on,
        inside_itself,
        in_meta_get_step,
        in_normalize_pair_step,
        in_normalize_table_step,
        in_meta_upsert_step,
    };
}

pub(crate) broadcast proof fn in_normalize_from(s: SessionView, tables: Seq<Seq<char>>, i: int)
    ensures
        inside(s, (#[trigger] normalize_from(s, tables, i)).0),
    decreases tables.len() - i,
{
    broadcast use {inside_on, inside_itself, in_normalize_target_step};

    if i < 0 || i >= tables.len() {
    } else {
        let (s1, r) = normalize_target_step(s, tables[i], true);
        match r {
            Err(e) => {},
            Ok(_) => in_normalize_from(s1, tables, i + 1),
        }
    }
}

pub(crate) broadcast proof fn in_normalize_step(s: SessionView, registry: Registry)
    ensures
        inside(s, (#[trigger] normalize_step(s, registry)).0),
{
    broadcast use {
        inside_on,
        inside_itself,
        in_meta_delete_step,
        in_normalize_target_step,
        in_normalize_from,
    };
}

pub(crate) broadcast proof fn in_convert_candidates_step(
    s: SessionView,
    conversion: Conversion,
    table: Seq<char>,
    update: Seq<char>,
    failed: Seq<char>,
    fields: Seq<FieldView>,
    blocks: Seq<BlockView>,
    candidates: Seq<CandidateView>,
)
    ensures
        inside(
            s,
            (#[trigger] convert_candidates_step(
                s,
                conversion,
                table,
                update,
                failed,
                fields,
                blocks,
                candidates,
            )).0,
        ),
{
    broadcast use {inside_on, inside_itself, in_ask_names, in_execute_many_step};
}

pub(crate) broadcast proof fn in_convert_pages(
    s: SessionView,
    table: Seq<char>,
    kind: RowsView,
    page: PageView,
    n: nat,
)
    ensures
        inside(s, (#[trigger] convert_pages(s, table, kind, page, n)).0),
    decreases answers_left(s),
{
    broadcast use {inside_on, inside_itself, in_convert_candidates_step, in_page_step};

    let (s1, r) = convert_candidates_step(
        s,
        Conversion::Typed,
        table,
        update_sql(s.dialect, table, kind.column()),
        kind.failed(table),
        kind.fields(),
        kind.blocks(),
        kind.candidates(page.rows),
    );
    match r {
        Err(e) => {},
        Ok(more) => match page.next {
            None => {},
            Some(after) => {
                let (s2, next) = page_step(s1, kind.scan(table), Some(after));
                match next {
                    Err(e) => {},
                    Ok(next) => in_convert_pages(s2, table, kind, next, together(n, more)),
                }
            },
        },
    }
}

pub(crate) broadcast proof fn in_convert_rows_step(s: SessionView, table: Seq<char>, kind: RowsView)
    ensures
        inside(s, (#[trigger] convert_rows_step(s, table, kind)).0),
{
    broadcast use {inside_on, inside_itself, in_first_page_step, in_convert_pages};
}

pub(crate) broadcast proof fn in_convert_columns_from(
    s: SessionView,
    table: Seq<char>,
    sub: Seq<FieldDefinition>,
    names: Seq<Seq<char>>,
    i: int,
    n: nat,
)
    ensures
        inside(s, (#[trigger] convert_columns_from(s, table, sub, names, i, n)).0),
    decreases names.len() - i,
{
    broadcast use {inside_on, inside_itself, in_convert_rows_step};

    if i < 0 || i >= names.len() {
    } else {
        let (s1, r) = convert_rows_step(s, table, RowsView::Column(names[i], sub));
        match r {
            Err(e) => {},
            Ok(more) => in_convert_columns_from(s1, table, sub, names, i + 1, together(n, more)),
        }
    }
}

pub(crate) broadcast proof fn in_convert_array_step(
    s: SessionView,
    table: Seq<char>,
    sub: Seq<FieldDefinition>,
)
    ensures
        inside(s, (#[trigger] convert_array_step(s, table, sub)).0),
{
    broadcast use {inside_on, inside_itself, in_table_exists_step, in_convert_columns_from};
}

pub(crate) broadcast proof fn in_convert_blocks_step(
    s: SessionView,
    table: Seq<char>,
    blocks: Seq<BlockDefinition>,
)
    ensures
        inside(s, (#[trigger] convert_blocks_step(s, table, blocks)).0),
{
    broadcast use {inside_on, inside_itself, in_table_exists_step, in_convert_rows_step};
}

pub(crate) broadcast proof fn in_convert_leaves_from(
    s: SessionView,
    table: Seq<char>,
    found: Seq<LeafView>,
    i: int,
    n: nat,
)
    ensures
        inside(s, (#[trigger] convert_leaves_from(s, table, found, i, n)).0),
    decreases found.len() - i,
{
    broadcast use {inside_on, inside_itself, in_convert_array_step, in_convert_blocks_step};

    if i < 0 || i >= found.len() {
    } else {
        let join = join_table_name(table, found[i].path());
        let (s1, r) = match found[i].field.field_type {
            FieldType::Array => convert_array_step(s, join, found[i].field.fields@),
            FieldType::Blocks => convert_blocks_step(s, join, found[i].field.blocks@),
            _ => (s, Ok(0)),
        };
        match r {
            Err(e) => {},
            Ok(more) => in_convert_leaves_from(s1, table, found, i + 1, together(n, more)),
        }
    }
}

pub(crate) broadcast proof fn in_convert_one_step(
    s: SessionView,
    slug: Seq<char>,
    table: Seq<char>,
    fields: Seq<FieldDefinition>,
)
    ensures
        inside(s, (#[trigger] convert_one_step(s, slug, table, fields)).0),
{
    broadcast use {in_noted, 
        inside_on,
        inside_itself,
        in_meta_delete_step,
        in_meta_get_step,
        in_convert_leaves_from,
        in_meta_upsert_step,
    };
}

pub(crate) broadcast proof fn in_convert_collections_from(
    s: SessionView,
    collections: Seq<CollectionDefinition>,
    i: int,
)
    ensures
        inside(s, (#[trigger] convert_collections_from(s, collections, i)).0),
    decreases collections.len() - i,
{
    broadcast use {inside_on, inside_itself, in_convert_one_step};

    if i < 0 || i >= collections.len() {
    } else {
        let (s1, r) = convert_one_step(
            s,
            collections[i].slug@,
            collections[i].slug@,
            collections[i].fields@,
        );
        match r {
            Err(e) => {},
            Ok(_) => in_convert_collections_from(s1, collections, i + 1),
        }
    }
}

pub(crate) broadcast proof fn in_convert_globals_from(s: SessionView, globals: Seq<GlobalDefinition>, i: int)
    ensures
        inside(s, (#[trigger] convert_globals_from(s, globals, i)).0),
    decreases globals.len() - i,
{
    broadcast use {inside_on, inside_itself, in_convert_one_step};

    if i < 0 || i >= globals.len() {
    } else {
        let (s1, r) = convert_one_step(
            s,
            globals[i].slug@,
            global_table_name(globals[i].slug@),
            globals[i].fields@,
        );
        match r {
            Err(e) => {},
            Ok(_) => in_convert_globals_from(s1, globals, i + 1),
        }
    }
}

pub(crate) broadcast proof fn in_convert_step(s: SessionView, registry: Registry)
    ensures
        inside(s, (#[trigger] convert_step(s, registry)).0),
{
    broadcast use {inside_on, inside_itself, in_convert_collections_from, in_convert_globals_from};
}

pub(crate) broadcast proof fn in_content_from(s: SessionView, tables: Seq<Seq<char>>, i: int)
    ensures
        inside(s, (#[trigger] content_from(s, tables, i)).0),
    decreases tables.len() - i,
{
    broadcast use {inside_on, inside_itself, in_table_exists_step, in_query_one_step};

    if i < 0 || i >= tables.len() {
    } else {
        let (s1, exists) = table_exists_step(s, tables[i]);
        match exists {
            Err(e) => {},
            Ok(false) => in_content_from(s1, tables, i + 1),
            Ok(true) => {
                let (s2, row) = query_one_step(
                    s1,
                    "SELECT 1 FROM "@ + quoted(tables[i]) + " LIMIT 1"@,
                    Seq::empty(),
                );
                match row {
                    Err(e) => {},
                    Ok(Some(_)) => {},
                    Ok(None) => in_content_from(s2, tables, i + 1),
                }
            },
        }
    }
}

pub(crate) broadcast proof fn in_warn_default_step(
    s: SessionView,
    registry: Registry,
    previous: Option<Seq<char>>,
    now: Seq<char>,
)
    ensures
        inside(s, (#[trigger] warn_default_step(s, registry, previous, now)).0),
{
    broadcast use {inside_on, inside_itself, in_content_from, in_warned};
}

pub(crate) broadcast proof fn in_default_locale_step(s: SessionView, registry: Registry, config: LocaleConfig)
    ensures
        inside(s, (#[trigger] default_locale_step(s, registry, config)).0),
{
    broadcast use {
        inside_on,
        inside_itself,
        in_meta_get_step,
        in_warn_default_step,
        in_meta_upsert_step,
    };
}

pub(crate) broadcast proof fn in_later_conversions_step(
    s: SessionView,
    registry: Registry,
    config: LocaleConfig,
)
    ensures
        inside(s, (#[trigger] later_conversions_step(s, registry, config)).0),
{
    broadcast use {
        inside_on,
        inside_itself,
        in_ask_done,
        in_normalize_step,
        in_convert_step,
        in_default_locale_step,
    };
}

pub(crate) broadcast proof fn in_conversions_step(s: SessionView, registry: Registry, config: LocaleConfig)
    ensures
        inside(s, (#[trigger] conversions_step(s, registry, config)).0),
{
    broadcast use {inside_on, inside_itself, in_carry_step, in_later_conversions_step};
}

pub(crate) broadcast proof fn in_ask_shape(s: SessionView, request: RequestView)
    requires
        ends_nothing(request),
    ensures
        inside(s, (#[trigger] ask_shape(s, request)).0),
{
    assert(s.sent =~= ask_shape(s, request).0.sent.take(s.sent.len() as int));
    assert(s.warnings =~= s.warnings.take(s.warnings.len() as int));
}

pub(crate) broadcast proof fn in_build_index_step(s: SessionView, slug: Seq<char>, fingerprint: Seq<char>)
    ensures
        inside(s, (#[trigger] build_index_step(s, slug, fingerprint)).0),
{
    broadcast use {inside_on, inside_itself, in_ask_done, in_meta_upsert_step};
}

pub(crate) broadcast proof fn in_sync_index_step(s: SessionView, slug: Seq<char>)
    ensures
        inside(s, (#[trigger] sync_index_step(s, slug)).0),
{
    broadcast use {
        inside_on,
        inside_itself,
        in_ask_shape,
        in_meta_get_step,
        in_build_index_step,
        in_ask_flag,
    };
}

pub(crate) broadcast proof fn in_sync_indexes_from(
    s: SessionView,
    collections: Seq<CollectionDefinition>,
    i: int,
)
    ensures
        inside(s, (#[trigger] sync_indexes_from(s, collections, i)).0),
    decreases collections.len() - i,
{
    broadcast use {inside_on, inside_itself, in_sync_index_step};

    if i < 0 || i >= collections.len() {
    } else {
        let (s1, r) = sync_index_step(s, collections[i].slug@);
        match r {
            Err(e) => {},
            Ok(_) => in_sync_indexes_from(s1, collections, i + 1),
        }
    }
}

pub(crate) broadcast proof fn in_no_dangling_step(s: SessionView, rebuilt: Seq<Seq<char>>)
    ensures
        inside(s, (#[trigger] no_dangling_step(s, rebuilt)).0),
{
    broadcast use {inside_on, inside_itself, in_query_all_step};
}

pub(crate) broadcast proof fn in_finish_step(
    s: SessionView,
    registry: Registry,
    config: LocaleConfig,
    rebuilt: Seq<Seq<char>>,
)
    ensures
        inside(s, (#[trigger] finish_step(s, registry, config, rebuilt)).0),
{
    broadcast use {
        inside_on,
        inside_itself,
        in_conversions_step,
        in_sync_indexes_from,
        in_no_dangling_step,
    };
}

pub(crate) broadcast proof fn in_sync_body_step(
    s: SessionView,
    registry: Registry,
    config: LocaleConfig,
    rebuilt: Seq<Seq<char>>,
)
    ensures
        inside(s, (#[trigger] sync_body_step(s, registry, config, rebuilt)).0),
{
    broadcast use {inside_on, inside_itself, in_prepare_step, in_finish_step};
}

pub(crate) broadcast proof fn in_drop_tables_from(s: SessionView, tables: Seq<Seq<char>>, i: int)
    ensures
        inside(s, (#[trigger] drop_tables_from(s, tables, i)).0),
    decreases tables.len() - i,
{
    broadcast use {in_noted, inside_on, inside_itself, in_execute_step};

    if i < 0 || i >= tables.len() {
    } else {
        let (s1, r) = execute_step(
            s,
            "DROP TABLE IF EXISTS \""@ + tables[i] + "\""@,
            Seq::empty(),
        );
        match r {
            Err(e) => {},
            Ok(_) => in_drop_tables_from(s1.noted("Dropped table: "@ + tables[i]), tables, i + 1),
        }
    }
}

pub(crate) broadcast proof fn in_drop_tables_step(s: SessionView)
    ensures
        inside(s, (#[trigger] drop_tables_step(s)).0),
{
    broadcast use {inside_on, inside_itself, in_user_tables_step, in_drop_tables_from};
}

pub(crate) broadcast proof fn in_locked_recreate_step(s: SessionView, registry: Registry, config: LocaleConfig)
    ensures
        inside(s, (#[trigger] locked_recreate_step(s, registry, config)).0),
{
    broadcast use {inside_on, inside_itself, in_ask_done, in_drop_tables_step, in_sync_body_step};
}

/// A sync is one transaction: where it begins, one request begins it, one request
/// ends it and is the last, and none in between begins or ends one.
pub proof fn a_sync_is_one_transaction(
    s: SessionView,
    registry: Registry,
    config: LocaleConfig,
    rebuilt: Seq<Seq<char>>,
)
    requires
        begin_step(s).1 is Ok,
    ensures
        ({
            let sent = run_sync_step(s, registry, config, rebuilt).0.sent;
            let n = s.sent.len() as int;
            &&& extends(s, run_sync_step(s, registry, config, rebuilt).0)
            &&& sent.len() >= n + 2
            &&& sent[n] == RequestView::Begin
            &&& sent.last() == RequestView::Commit || sent.last() == RequestView::Rollback
            &&& forall|i: int| n < i < sent.len() - 1 ==> ends_nothing(#[trigger] sent[i])
        }),
{
    broadcast use {in_ask_done, in_sync_body_step, inside_on, inside_itself};

    let begun = begin_step(s).0;
    let locked = lock_step(begun).0;
    let (last, r) = locked_sync_step(begun, registry, config, rebuilt);
    assert(inside(begun, locked));
    assert(inside(begun, last));
    let whole = run_sync_step(s, registry, config, rebuilt).0;
    assert(whole.sent =~= last.sent.push(whole.sent.last()));
    assert forall|i: int| s.sent.len() < i < whole.sent.len() - 1 implies ends_nothing(
        #[trigger] whole.sent[i],
    ) by {
        assert(whole.sent[i] == last.sent[i]);
    }
    assert(last.sent[s.sent.len() as int] == begun.sent[s.sent.len() as int]);
    assert forall|i: int| 0 <= i < s.sent.len() implies s.sent[i] == whole.sent[i] by {
        assert(begun.sent[i] == last.sent[i]);
    }
    assert(s.sent =~= whole.sent.take(s.sent.len() as int));
    assert(s.warnings =~= whole.warnings.take(s.warnings.len() as int));
    assert(s.errors =~= whole.errors.take(s.errors.len() as int));
    assert(s.notes =~= whole.notes.take(s.notes.len() as int));
}

/// So is a recreation: the drops and the sync that follows are in one transaction.
pub proof fn a_recreation_is_one_transaction(
    s: SessionView,
    registry: Registry,
    config: LocaleConfig,
)
    requires
        connect_step(s, true).1 is Ok,
        begin_step(connect_step(s, true).0).1 is Ok,
    ensures
        ({
            let sent = recreate_all_step(s, registry, config).0.sent;
            let n = s.sent.len() as int;
            &&& extends(s, recreate_all_step(s, registry, config).0)
            &&& sent.len() >= n + 3
            &&& sent[n + 1] == RequestView::Begin
            &&& sent.last() == RequestView::Commit || sent.last() == RequestView::Rollback
            &&& forall|i: int| n + 1 < i < sent.len() - 1 ==> ends_nothing(#[trigger] sent[i])
        }),
{
    broadcast use {in_ask_done, in_locked_recreate_step, inside_on, inside_itself};

    let begun = begin_step(connect_step(s, true).0).0;
    let (last, r) = locked_recreate_step(begun, registry, config);
    assert(inside(begun, last));
    let whole = recreate_all_step(s, registry, config).0;
    assert(whole.sent =~= last.sent.push(whole.sent.last()));
    assert forall|i: int| s.sent.len() + 1 < i < whole.sent.len() - 1 implies ends_nothing(
        #[trigger] whole.sent[i],
    ) by {
        assert(whole.sent[i] == last.sent[i]);
    }
    assert(last.sent[s.sent.len() as int + 1] == begun.sent[s.sent.len() as int + 1]);
    assert forall|i: int| 0 <= i < s.sent.len() implies s.sent[i] == whole.sent[i] by {
        assert(begun.sent[i] == last.sent[i]);
    }
    assert(s.sent =~= whole.sent.take(s.sent.len() as int));
    assert(s.warnings =~= whole.warnings.take(s.warnings.len() as int));
    assert(s.errors =~= whole.errors.take(s.errors.len() as int));
    assert(s.notes =~= whole.notes.take(s.notes.len() as int));
}

} // verus!
