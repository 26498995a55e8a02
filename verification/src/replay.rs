//! Why an operation may be run again and again.
//!
//! The host runs an operation, carries out the first request that has no answer yet,
//! and runs the operation again with the answer on record. All those runs come to
//! one: with more answers an operation sends the same requests up to the one it
//! stopped at before, so what the host has carried out is what the last run asked
//! for, each request once and in order.
use crate::definition::{
    BlockDefinition, BlockView, CollectionDefinition, FieldDefinition, FieldType, FieldView,
    GlobalDefinition, LeafView, LocaleConfig, Registry, RelationshipConfig,
};
use crate::document::DocumentView;
use crate::migrate::helpers::alter::{add_column_step, reconcile_scalar_list_step};
use crate::migrate::helpers::column_specs::ensure_locale_column_step;
use crate::migrate::helpers::introspection::{
    ConstraintKind, ConstraintView, index_columns_from, index_names_step, pg_constraints_step,
    sqlite_inline_unique_step, sqlite_primary_key_step, table_column_types_step, table_columns_step,
    table_constraints_step, table_exists_step, user_tables_step,
};
use crate::migrate::helpers::paged::{PageView, ScanView, first_page_step, page_step, update_sql};
use crate::migrate::identifier_check::identifier_checks;
use crate::migrate::join_tables::array::{
    add_companions_from, alter_array_step, alter_sub_step, alter_subs_from, array_ddl_step,
    companion_def, create_array_step, reconcile_sub_step, sync_array_step, update_array_step,
};
use crate::migrate::join_tables::blocks::{blocks_ddl_step, sync_blocks_step};
use crate::migrate::join_tables::junction_shape::{
    JunctionShapeView, add_locale_column_step, add_target_column_step, create_junction_step,
    drop_constraints_from, rebuild_step, reconcile_step, rekey_step, replace_key_step,
};
use crate::migrate::join_tables::locale_rows::{
    keep_default_step, narrow_step, recorded_step, sync_locale_rows_step, was_per_locale_step,
};
use crate::migrate::join_tables::orchestrator::{
    PlanView, plan_ddl_step, plan_step, plans_from, sync_join_tables_step,
};
use crate::migrate::join_tables::parent_index::{
    drop_indexes_from, drop_other_step, drop_prefixed_step,
};
use crate::migrate::join_tables::relationship::{junction_ddl_step, sync_relationship_step};
use crate::migrate::legacy_timestamps::{
    normalize_from, normalize_pair_step, normalize_step, normalize_table_step,
    normalize_target_step, rewrite_from, rewrite_sql,
};
use crate::migrate::locale_change::{content_from, default_locale_step, warn_default_step};
use crate::migrate::nested_values::{
    CandidateView, Conversion, RowsView, convert_array_step, convert_blocks_step,
    convert_candidates_step, convert_collections_from, convert_columns_from, convert_globals_from,
    convert_join_tables_step, convert_leaves_from, convert_one_step, convert_pages,
    convert_rows_step, convert_step, stored_typed,
};
use crate::migrate::orphan_tables::{
    OrphanView, accounted_for, classified, find_orphans_step, orphan_warning, orphans_from,
    warn_orphans_step, warned_of_tables,
};
use crate::migrate::reference_cardinality::{
    CopyView, RefColumn, RefLeafView, Shape, all_warned, carry_between_step, carry_collections_from,
    carry_globals_from, carry_leaf_step, carry_leaves_from, carry_owner_step, carry_step,
    column_to_junction_step, copy_column_step, copy_columns_from, copy_page_step, copy_pages,
    junction_to_column_step, refill_from, refill_sql, refuse_multiple_step, shape_under,
};
use crate::migrate::relationship_target::{row_count_step, track_target_step, warn_repointed_step};
use crate::migrate::search_index::{build_index_step, sync_indexes_from};
use crate::migrate::sync::{
    begin_step, check_all_step, check_collections_from, close_step, conversions_step, finish_step,
    foreign_keys_step, later_conversions_step, lock_step, locked_recreate_step, locked_sync_step,
    no_dangling_step, pending_rebuilds_step, prepare_step, rebuilds_from, recreate_all_step,
    restore_step, run_sync_step, sync_all_step, sync_body_step, sync_collections_from,
    sync_globals_from, sync_tables_step, sync_with_rebuilds_step,
};
use crate::migrate::system_tables::{
    ImageConvertJobView, create_jobs_step, drain_queue_step, drain_step, drained, enqueue_step,
    later_job_columns_step, plain_tables_step, system_tables_step, unless_column_step,
};
use crate::migrate::tracking::{drop_tables_from, drop_tables_step};
use crate::migrate::transaction::{
    in_all_warned, in_batch_ddl_step, in_batch_step, in_build_index_step, in_carry_between_step,
    in_carry_collections_from, in_carry_globals_from, in_carry_leaf_step, in_carry_leaves_from,
    in_carry_owner_step, in_carry_step, in_check_all_step, in_check_collections_from,
    in_column_to_junction_step, in_content_from, in_conversions_step, in_convert_array_step,
    in_convert_blocks_step, in_convert_candidates_step, in_convert_collections_from,
    in_convert_columns_from, in_convert_globals_from, in_convert_leaves_from, in_convert_one_step,
    in_convert_pages, in_convert_rows_step, in_convert_step, in_copy_column_step,
    in_copy_columns_from, in_copy_page_step, in_copy_pages, in_create_jobs_step,
    in_default_locale_step, in_drain_queue_step, in_drain_step, in_drop_tables_from,
    in_drop_tables_step, in_enqueue_step, in_execute_many_step, in_execute_step,
    in_find_orphans_step, in_finish_step, in_first_page_step, in_junction_to_column_step,
    in_later_conversions_step, in_later_job_columns_step, in_locked_recreate_step,
    in_meta_delete_step, in_meta_get_step, in_meta_upsert_step, in_no_dangling_step,
    in_normalize_from, in_normalize_pair_step, in_normalize_step, in_normalize_table_step,
    in_normalize_target_step, in_orphans_from, in_page_step, in_plain_tables_step, in_prepare_step,
    in_query_all_step, in_query_one_step, in_refill_from, in_refuse_multiple_step, in_rewrite_from,
    in_sync_body_step, in_sync_collections_from, in_sync_globals_from, in_sync_index_step,
    in_sync_indexes_from, in_sync_tables_step, in_system_tables_step, in_table_columns_step,
    in_table_exists_step, in_unless_column_step, in_user_tables_step, in_warn_default_step,
    in_warn_orphans_step, in_warned_of_tables,
};
use crate::names::{global_table_name, join_table_name, quoted};
use crate::ops::{
    FullReadView, find_by_id_full_step, full_row_step, may_overlay_step, overlay_step, row_step,
    serve_draft_step,
};
use crate::pool::{connect_step, write_step};
use crate::session::{
    Dialect, ReplyView, RequestView, SessionView, Step, answers_left, ask_count, ask_document,
    ask_documents, ask_done, ask_flag, ask_names, ask_shape, ask_text, ask_types, ask_version,
    batch_ddl_step, batch_step, ddl_step, execute_many_step, execute_step, extends, query_all_step,
    query_one_step, within,
};
use crate::text::join;
use crate::value::{DbRowView, DbValueView, ErrorView, texts_in_column, together};
use crate::migrate::join_tables::parent_index;
use crate::migrate::meta;
use crate::migrate::search_index;
use crate::pool;
use vstd::prelude::*;

verus! {

/// Whether `t` is a session at the same point as `s`, with the same answers on record
/// and maybe more, and nothing sent so far lacks its answer.
pub open spec fn further(s: SessionView, t: SessionView) -> bool {
    &&& s.dialect == t.dialect
    &&& s.sent == t.sent
    &&& s.warnings == t.warnings
    &&& s.errors == t.errors
    &&& s.notes == t.notes
    &&& s.replies.is_prefix_of(t.replies)
    &&& s.sent.len() <= s.replies.len()
}

/// Whether a run went past its answers: the host is to carry out the first request
/// that has none.
pub open spec fn stopped(s: SessionView) -> bool {
    s.sent.len() > s.replies.len()
}

/// Whether `a` stopped, and `b` sent the same requests up to the one `a` stopped at.
pub open spec fn same_until_stop(a: SessionView, b: SessionView) -> bool {
    &&& stopped(a)
    &&& b.sent.len() > a.replies.len()
    &&& forall|i: int| 0 <= i <= a.replies.len() ==> #[trigger] a.sent[i] == b.sent[i]
}

/// Whether `b` is what `a` comes to with more answers: the same, where `a` needed no
/// more, and else the same requests up to the one `a` stopped at.
pub open spec fn again<T>(a: Step<T>, b: Step<T>) -> bool {
    ||| further(a.0, b.0) && a.1 == b.1
    ||| same_until_stop(a.0, b.0)
}

/// Whether an operation only adds to a session, and more answers change nothing of
/// what it did before.
pub open spec fn steady<T>(operation: spec_fn(SessionView) -> Step<T>) -> bool {
    &&& forall|s: SessionView| extends(s, (#[trigger] operation(s)).0)
    &&& forall|s: SessionView, t: SessionView|
        further(s, t) ==> again(#[trigger] operation(s), #[trigger] operation(t))
}

/// A session with answers on record, before the first request.
pub open spec fn recorded(dialect: Dialect, answers: Seq<ReplyView>) -> SessionView {
    SessionView {
        dialect,
        replies: answers,
        sent: Seq::empty(),
        warnings: Seq::empty(),
        errors: Seq::empty(),
        notes: Seq::empty(),
    }
}

/// The host's loop comes to one run. Where each answer was recorded because the run
/// before it stopped, and the last run did not stop, the last run's requests are those
/// the host carried out: as many as there are answers, each the one its answer was
/// recorded for.
pub proof fn the_runs_come_to_one<T>(
    operation: spec_fn(SessionView) -> Step<T>,
    dialect: Dialect,
    answers: Seq<ReplyView>,
)
    requires
        steady(operation),
        forall|k: int|
            0 <= k < answers.len() ==> stopped(
                (#[trigger] operation(recorded(dialect, answers.take(k)))).0,
            ),
        !stopped(operation(recorded(dialect, answers)).0),
    ensures
        ({
            let sent = operation(recorded(dialect, answers)).0.sent;
            &&& sent.len() == answers.len()
            &&& forall|k: int|
                0 <= k < answers.len() ==> #[trigger] sent[k] == operation(
                    recorded(dialect, answers.take(k)),
                ).0.sent[k]
        }),
{
    let last = operation(recorded(dialect, answers));
    assert forall|k: int| 0 <= k < answers.len() implies last.0.sent.len() > k && #[trigger]
    last.0.sent[k] == operation(recorded(dialect, answers.take(k))).0.sent[k] by {
        let s = recorded(dialect, answers.take(k));
        let t = recorded(dialect, answers);
        assert(further(s, t));
        assert(again(operation(s), operation(t)));
        assert(stopped(operation(s).0));
    }
    if answers.len() > 0 {
        assert(last.0.sent[answers.len() - 1] == last.0.sent[answers.len() - 1]);
    }
}

broadcast proof fn stop_left(a: SessionView, b: SessionView, a2: SessionView)
    requires
        #[trigger] same_until_stop(a, b),
        #[trigger] extends(a, a2),
    ensures
        same_until_stop(a2, b),
{
    assert forall|i: int| 0 <= i <= a2.replies.len() implies #[trigger] a2.sent[i] == b.sent[i] by {
        assert(a.sent[i] == a2.sent[i]);
    }
}

broadcast proof fn stop_right(a: SessionView, b: SessionView, b2: SessionView)
    requires
        #[trigger] same_until_stop(a, b),
        #[trigger] extends(b, b2),
    ensures
        same_until_stop(a, b2),
{
    assert forall|i: int| 0 <= i <= a.replies.len() implies #[trigger] a.sent[i] == b2.sent[i] by {
        assert(b.sent[i] == b2.sent[i]);
    }
}

pub(crate) broadcast proof fn extends_on(a: SessionView, b: SessionView, c: SessionView)
    requires
        #[trigger] extends(a, b),
        #[trigger] extends(b, c),
    ensures
        extends(a, c),
{
    assert(a.sent =~= c.sent.take(a.sent.len() as int));
    assert(a.warnings =~= c.warnings.take(a.warnings.len() as int));
    assert(a.errors =~= c.errors.take(a.errors.len() as int));
    assert(a.notes =~= c.notes.take(a.notes.len() as int));
}

pub(crate) broadcast proof fn extends_itself(s: SessionView)
    ensures
        #[trigger] extends(s, s),
{
    assert(s.sent =~= s.sent.take(s.sent.len() as int));
    assert(s.warnings =~= s.warnings.take(s.warnings.len() as int));
    assert(s.errors =~= s.errors.take(s.errors.len() as int));
    assert(s.notes =~= s.notes.take(s.notes.len() as int));
}

pub(crate) broadcast proof fn on_warned(s: SessionView, message: Seq<char>)
    ensures
        extends(s, #[trigger] s.warned(message)),
{
    assert(s.sent =~= s.sent.take(s.sent.len() as int));
    assert(s.warnings =~= s.warned(message).warnings.take(s.warnings.len() as int));
}

broadcast proof fn again_warned(s: SessionView, t: SessionView, message: Seq<char>)
    requires
        further(s, t),
    ensures
        further(#[trigger] s.warned(message), #[trigger] t.warned(message)),
{
}

pub(crate) broadcast proof fn on_reported(s: SessionView, message: Seq<char>)
    ensures
        extends(s, #[trigger] s.reported(message)),
{
    assert(s.sent =~= s.sent.take(s.sent.len() as int));
    assert(s.warnings =~= s.warnings.take(s.warnings.len() as int));
    assert(s.errors =~= s.reported(message).errors.take(s.errors.len() as int));
    assert(s.notes =~= s.notes.take(s.notes.len() as int));
}

broadcast proof fn again_reported(s: SessionView, t: SessionView, message: Seq<char>)
    requires
        further(s, t),
    ensures
        further(#[trigger] s.reported(message), #[trigger] t.reported(message)),
{
}

pub(crate) broadcast proof fn on_noted(s: SessionView, message: Seq<char>)
    ensures
        extends(s, #[trigger] s.noted(message)),
{
    assert(s.sent =~= s.sent.take(s.sent.len() as int));
    assert(s.warnings =~= s.warnings.take(s.warnings.len() as int));
    assert(s.errors =~= s.errors.take(s.errors.len() as int));
    assert(s.notes =~= s.noted(message).notes.take(s.notes.len() as int));
}

broadcast proof fn again_noted(s: SessionView, t: SessionView, message: Seq<char>)
    requires
        further(s, t),
    ensures
        further(#[trigger] s.noted(message), #[trigger] t.noted(message)),
{
}

pub(crate) broadcast proof fn on_ask_done(s: SessionView, request: RequestView)
    ensures
        extends(s, (#[trigger] ask_done(s, request)).0),
{
    assert(s.sent =~= ask_done(s, request).0.sent.take(s.sent.len() as int));
    assert(s.warnings =~= s.warnings.take(s.warnings.len() as int));
}

broadcast proof fn again_ask_done(s: SessionView, t: SessionView, request: RequestView)
    requires
        further(s, t),
    ensures
        again(#[trigger] ask_done(s, request), #[trigger] ask_done(t, request)),
{
}

pub(crate) broadcast proof fn on_write_step(s: SessionView)
    ensures
        extends(s, (#[trigger] write_step(s)).0),
{
    broadcast use {extends_itself, extends_on, on_ask_done};
}

broadcast proof fn again_write_step(s: SessionView, t: SessionView)
    requires
        further(s, t),
    ensures
        again(#[trigger] write_step(s), #[trigger] write_step(t)),
{
    broadcast use {stop_left, stop_right, extends_on, on_ask_done, again_ask_done};
}

pub(crate) broadcast proof fn on_pool_get_step(s: SessionView)
    ensures
        extends(s, (#[trigger] pool::get_step(s)).0),
{
    broadcast use {extends_itself, extends_on, on_ask_done};
}

broadcast proof fn again_pool_get_step(s: SessionView, t: SessionView)
    requires
        further(s, t),
    ensures
        again(#[trigger] pool::get_step(s), #[trigger] pool::get_step(t)),
{
    broadcast use {stop_left, stop_right, extends_on, on_ask_done, again_ask_done};
}

pub(crate) broadcast proof fn on_connect_step(s: SessionView, write: bool)
    ensures
        extends(s, (#[trigger] connect_step(s, write)).0),
{
    broadcast use {extends_itself, extends_on, on_write_step, on_pool_get_step};
}

broadcast proof fn again_connect_step(s: SessionView, t: SessionView, write: bool)
    requires
        further(s, t),
    ensures
        again(#[trigger] connect_step(s, write), #[trigger] connect_step(t, write)),
{
    broadcast use {
        stop_left, stop_right, extends_on, on_write_step, on_pool_get_step, again_write_step,
        again_pool_get_step,
    };
}

pub(crate) broadcast proof fn on_ask_flag(s: SessionView, request: RequestView)
    ensures
        extends(s, (#[trigger] ask_flag(s, request)).0),
{
    assert(s.sent =~= ask_flag(s, request).0.sent.take(s.sent.len() as int));
    assert(s.warnings =~= s.warnings.take(s.warnings.len() as int));
}

broadcast proof fn again_ask_flag(s: SessionView, t: SessionView, request: RequestView)
    requires
        further(s, t),
    ensures
        again(#[trigger] ask_flag(s, request), #[trigger] ask_flag(t, request)),
{
}

broadcast proof fn again_query_one_step(
    s: SessionView, t: SessionView, sql: Seq<char>, params: Seq<DbValueView>,
)
    requires
        further(s, t),
    ensures
        again(#[trigger] query_one_step(s, sql, params), #[trigger] query_one_step(t, sql, params)),
{
}

broadcast proof fn again_table_exists_step(s: SessionView, t: SessionView, name: Seq<char>)
    requires
        further(s, t),
    ensures
        again(#[trigger] table_exists_step(s, name), #[trigger] table_exists_step(t, name)),
{
    broadcast use {
        stop_left, stop_right, extends_on, on_ask_flag, in_query_one_step, again_ask_flag,
        again_query_one_step,
    };
}

pub(crate) broadcast proof fn on_ask_names(s: SessionView, request: RequestView)
    ensures
        extends(s, (#[trigger] ask_names(s, request)).0),
{
    assert(s.sent =~= ask_names(s, request).0.sent.take(s.sent.len() as int));
    assert(s.warnings =~= s.warnings.take(s.warnings.len() as int));
}

broadcast proof fn again_ask_names(s: SessionView, t: SessionView, request: RequestView)
    requires
        further(s, t),
    ensures
        again(#[trigger] ask_names(s, request), #[trigger] ask_names(t, request)),
{
}

broadcast proof fn again_query_all_step(
    s: SessionView, t: SessionView, sql: Seq<char>, params: Seq<DbValueView>,
)
    requires
        further(s, t),
    ensures
        again(#[trigger] query_all_step(s, sql, params), #[trigger] query_all_step(t, sql, params)),
{
}

broadcast proof fn again_table_columns_step(s: SessionView, t: SessionView, table: Seq<char>)
    requires
        further(s, t),
    ensures
        again(#[trigger] table_columns_step(s, table), #[trigger] table_columns_step(t, table)),
{
    broadcast use {
        stop_left, stop_right, extends_on, on_ask_names, in_query_all_step, again_ask_names,
        again_query_all_step,
    };
}

pub(crate) broadcast proof fn on_rebuilds_from(
    s: SessionView, collections: Seq<CollectionDefinition>, i: int, done: Seq<Seq<char>>,
)
    ensures
        extends(s, (#[trigger] rebuilds_from(s, collections, i, done)).0),
    decreases collections.len() - i,
{
    broadcast use {
        extends_itself, extends_on, in_table_exists_step, in_table_columns_step, on_ask_flag,
    };

    if 0 <= i < collections.len() {
        let slug = collections[i].slug@;
        let (s1, exists) = table_exists_step(s, slug);
        match exists {
            Err(e) => {},
            Ok(false) => on_rebuilds_from(s1, collections, i + 1, done),
            Ok(true) => {
                let (s2, columns) = table_columns_step(s1, slug);
                match columns {
                    Err(e) => {},
                    Ok(columns) => {
                        let (s3, needs) = ask_flag(
                            s2,
                            RequestView::NeedsRebuild { slug, columns },
                        );
                        match needs {
                            Err(e) => {},
                            Ok(true) => on_rebuilds_from(s3, collections, i + 1, done.push(slug)),
                            Ok(false) => on_rebuilds_from(s3, collections, i + 1, done),
                        }
                    },
                }
            },
        }
    }
}

broadcast proof fn again_rebuilds_from(
    s: SessionView, t: SessionView, collections: Seq<CollectionDefinition>, i: int, done:
    Seq<Seq<char>>,
)
    requires
        further(s, t),
    ensures
        again(
            #[trigger] rebuilds_from(s, collections, i, done),
            #[trigger] rebuilds_from(t, collections, i, done),
        ),
    decreases collections.len() - i,
{
    broadcast use {
        stop_left, stop_right, extends_on, in_table_exists_step, in_table_columns_step, on_ask_flag,
        on_rebuilds_from, again_table_exists_step, again_table_columns_step, again_ask_flag,
    };

    if 0 <= i < collections.len() {
        let slug = collections[i].slug@;
        let (t1, exists) = table_exists_step(t, slug);
        match exists {
            Err(e) => {},
            Ok(false) => on_rebuilds_from(t1, collections, i + 1, done),
            Ok(true) => {
                let (t2, columns) = table_columns_step(t1, slug);
                match columns {
                    Err(e) => {},
                    Ok(columns) => {
                        let (t3, needs) = ask_flag(
                            t2,
                            RequestView::NeedsRebuild { slug, columns },
                        );
                        match needs {
                            Err(e) => {},
                            Ok(true) => on_rebuilds_from(t3, collections, i + 1, done.push(slug)),
                            Ok(false) => on_rebuilds_from(t3, collections, i + 1, done),
                        }
                    },
                }
            },
        }
    }

    if 0 <= i < collections.len() {
        let slug = collections[i].slug@;
        let (s1, exists) = table_exists_step(s, slug);
        let (t1, _) = table_exists_step(t, slug);
        match exists {
            Err(e) => {},
            Ok(false) => {
                on_rebuilds_from(s1, collections, i + 1, done);
                if further(s1, t1) {
                    again_rebuilds_from(s1, t1, collections, i + 1, done);
                }
            },
            Ok(true) => {
                let (s2, columns) = table_columns_step(s1, slug);
                let (t2, _) = table_columns_step(t1, slug);
                match columns {
                    Err(e) => {},
                    Ok(columns) => {
                        let (s3, needs) = ask_flag(
                            s2,
                            RequestView::NeedsRebuild { slug, columns },
                        );
                        let (t3, _) = ask_flag(
                            t2,
                            RequestView::NeedsRebuild { slug, columns },
                        );
                        match needs {
                            Err(e) => {},
                            Ok(true) => {
                                on_rebuilds_from(s3, collections, i + 1, done.push(slug));
                                if further(s3, t3) {
                                    again_rebuilds_from(s3, t3, collections, i + 1, done.push(slug));
                                }
                            },
                            Ok(false) => {
                                on_rebuilds_from(s3, collections, i + 1, done);
                                if further(s3, t3) {
                                    again_rebuilds_from(s3, t3, collections, i + 1, done);
                                }
                            },
                        }
                    },
                }
            },
        }
    }
}

pub(crate) broadcast proof fn on_pending_rebuilds_step(s: SessionView, registry: Registry)
    ensures
        extends(s, (#[trigger] pending_rebuilds_step(s, registry)).0),
{
    broadcast use {extends_itself, extends_on, on_rebuilds_from};
}

broadcast proof fn again_pending_rebuilds_step(s: SessionView, t: SessionView, registry: Registry)
    requires
        further(s, t),
    ensures
        again(
            #[trigger] pending_rebuilds_step(s, registry),
            #[trigger] pending_rebuilds_step(t, registry),
        ),
{
    broadcast use {stop_left, stop_right, extends_on, on_rebuilds_from, again_rebuilds_from};
}

pub(crate) broadcast proof fn on_begin_step(s: SessionView)
    ensures
        extends(s, (#[trigger] begin_step(s)).0),
{
    broadcast use {extends_itself, extends_on, on_ask_done};
}

broadcast proof fn again_begin_step(s: SessionView, t: SessionView)
    requires
        further(s, t),
    ensures
        again(#[trigger] begin_step(s), #[trigger] begin_step(t)),
{
    broadcast use {stop_left, stop_right, extends_on, on_ask_done, again_ask_done};
}

pub(crate) broadcast proof fn on_lock_step(s: SessionView)
    ensures
        extends(s, (#[trigger] lock_step(s)).0),
{
    broadcast use {extends_itself, extends_on, on_ask_done};
}

broadcast proof fn again_lock_step(s: SessionView, t: SessionView)
    requires
        further(s, t),
    ensures
        again(#[trigger] lock_step(s), #[trigger] lock_step(t)),
{
    broadcast use {stop_left, stop_right, extends_on, on_ask_done, again_ask_done};
}

broadcast proof fn again_batch_step(s: SessionView, t: SessionView, sql: Seq<char>)
    requires
        further(s, t),
    ensures
        again(#[trigger] batch_step(s, sql), #[trigger] batch_step(t, sql)),
{
    broadcast use {stop_left, stop_right, extends_on, on_ask_done, again_ask_done};
}

broadcast proof fn again_batch_ddl_step(s: SessionView, t: SessionView, sql: Seq<char>)
    requires
        further(s, t),
    ensures
        again(#[trigger] batch_ddl_step(s, sql), #[trigger] batch_ddl_step(t, sql)),
{
    broadcast use {stop_left, stop_right, extends_on, in_batch_step, again_batch_step};
}

broadcast proof fn again_plain_tables_step(s: SessionView, t: SessionView)
    requires
        further(s, t),
    ensures
        again(#[trigger] plain_tables_step(s), #[trigger] plain_tables_step(t)),
{
    broadcast use {stop_left, stop_right, extends_on, in_batch_ddl_step, again_batch_ddl_step};
}

broadcast proof fn again_unless_column_step(
    s: SessionView, t: SessionView, columns: Seq<Seq<char>>, column: Seq<char>, sql: Seq<char>,
)
    requires
        further(s, t),
    ensures
        again(
            #[trigger] unless_column_step(s, columns, column, sql),
            #[trigger] unless_column_step(t, columns, column, sql),
        ),
{
    broadcast use {stop_left, stop_right, extends_on, in_batch_ddl_step, again_batch_ddl_step};
}

broadcast proof fn again_later_job_columns_step(
    s: SessionView, t: SessionView, columns: Seq<Seq<char>>,
)
    requires
        further(s, t),
    ensures
        again(
            #[trigger] later_job_columns_step(s, columns),
            #[trigger] later_job_columns_step(t, columns),
        ),
{
    broadcast use {
        stop_left, stop_right, extends_on, in_unless_column_step, again_unless_column_step,
    };
}

broadcast proof fn again_create_jobs_step(
    s: SessionView, t: SessionView, stamp: Seq<char>, stamp_type: Seq<char>,
)
    requires
        further(s, t),
    ensures
        again(
            #[trigger] create_jobs_step(s, stamp, stamp_type),
            #[trigger] create_jobs_step(t, stamp, stamp_type),
        ),
{
    broadcast use {
        stop_left, stop_right, extends_on, in_batch_ddl_step, in_table_columns_step,
        in_later_job_columns_step, again_batch_ddl_step, again_table_columns_step,
        again_later_job_columns_step,
    };
}

broadcast proof fn again_enqueue_step(
    s: SessionView, t: SessionView, jobs: Seq<ImageConvertJobView>,
)
    requires
        further(s, t),
    ensures
        again(#[trigger] enqueue_step(s, jobs), #[trigger] enqueue_step(t, jobs)),
{
    broadcast use {stop_left, stop_right, extends_on, on_ask_done, again_ask_done};
}

pub(crate) broadcast proof fn on_drained(s: SessionView, n: nat)
    ensures
        extends(s, #[trigger] drained(s, n)),
{
    broadcast use {extends_itself, extends_on, on_noted};
}

broadcast proof fn again_drained(s: SessionView, t: SessionView, n: nat)
    requires
        further(s, t),
    ensures
        further(#[trigger] drained(s, n), #[trigger] drained(t, n)),
{
    broadcast use {stop_left, stop_right, extends_on, on_noted, again_noted};
}

broadcast proof fn again_drain_queue_step(s: SessionView, t: SessionView)
    requires
        further(s, t),
    ensures
        again(#[trigger] drain_queue_step(s), #[trigger] drain_queue_step(t)),
{
    broadcast use {
        stop_left, stop_right, extends_on, in_query_all_step, in_enqueue_step, in_batch_ddl_step,
        on_drained, again_query_all_step, again_enqueue_step, again_batch_ddl_step, again_drained,
    };
}

broadcast proof fn again_drain_step(s: SessionView, t: SessionView)
    requires
        further(s, t),
    ensures
        again(#[trigger] drain_step(s), #[trigger] drain_step(t)),
{
    broadcast use {
        stop_left, stop_right, extends_on, in_query_all_step, in_drain_queue_step,
        again_query_all_step, again_drain_queue_step,
    };
}

broadcast proof fn again_system_tables_step(s: SessionView, t: SessionView)
    requires
        further(s, t),
    ensures
        again(#[trigger] system_tables_step(s), #[trigger] system_tables_step(t)),
{
    broadcast use {
        stop_left, stop_right, extends_on, in_plain_tables_step, in_create_jobs_step, in_drain_step,
        again_plain_tables_step, again_create_jobs_step, again_drain_step,
    };
}

broadcast proof fn again_check_collections_from(
    s: SessionView, t: SessionView, collections: Seq<CollectionDefinition>, config: LocaleConfig, i:
    int,
)
    requires
        further(s, t),
    ensures
        again(
            #[trigger] check_collections_from(s, collections, config, i),
            #[trigger] check_collections_from(t, collections, config, i),
        ),
    decreases collections.len() - i,
{
    broadcast use {
        stop_left, stop_right, extends_on, on_ask_done, in_check_collections_from, again_ask_done,
    };

    if 0 <= i < collections.len() {
        let slug = collections[i].slug@;
        match identifier_checks(slug, collections[i].fields@, config) {
            Err(e) => {},
            Ok(_) => {
                let (t1, r) = ask_done(t, RequestView::CheckIndexNames { slug });
                match r {
                    Err(e) => {},
                    Ok(_) => in_check_collections_from(t1, collections, config, i + 1),
                }
            },
        }
    }

    if 0 <= i < collections.len() {
        let slug = collections[i].slug@;
        match identifier_checks(slug, collections[i].fields@, config) {
            Err(e) => {},
            Ok(_) => {
                let (s1, r) = ask_done(s, RequestView::CheckIndexNames { slug });
                let (t1, _) = ask_done(t, RequestView::CheckIndexNames { slug });
                match r {
                    Err(e) => {},
                    Ok(_) => {
                        in_check_collections_from(s1, collections, config, i + 1);
                        if further(s1, t1) {
                            again_check_collections_from(s1, t1, collections, config, i + 1);
                        }
                    },
                }
            },
        }
    }
}

broadcast proof fn again_check_all_step(
    s: SessionView, t: SessionView, registry: Registry, config: LocaleConfig,
)
    requires
        further(s, t),
    ensures
        again(
            #[trigger] check_all_step(s, registry, config),
            #[trigger] check_all_step(t, registry, config),
        ),
{
    broadcast use {
        stop_left, stop_right, extends_on, in_check_collections_from, on_ask_done,
        again_check_collections_from, again_ask_done,
    };
}

broadcast proof fn again_sync_collections_from(
    s: SessionView, t: SessionView, collections: Seq<CollectionDefinition>, i: int,
)
    requires
        further(s, t),
    ensures
        again(
            #[trigger] sync_collections_from(s, collections, i),
            #[trigger] sync_collections_from(t, collections, i),
        ),
    decreases collections.len() - i,
{
    broadcast use {
        stop_left, stop_right, extends_on, on_ask_done, in_sync_collections_from, again_ask_done,
    };

    if 0 <= i < collections.len() {
        let (t1, r) = ask_done(t, RequestView::SyncCollection { slug: collections[i].slug@ });
        match r {
            Err(e) => {},
            Ok(_) => in_sync_collections_from(t1, collections, i + 1),
        }
    }

    if 0 <= i < collections.len() {
        let (s1, r) = ask_done(s, RequestView::SyncCollection { slug: collections[i].slug@ });
        let (t1, _) = ask_done(t, RequestView::SyncCollection { slug: collections[i].slug@ });
        match r {
            Err(e) => {},
            Ok(_) => {
                in_sync_collections_from(s1, collections, i + 1);
                if further(s1, t1) {
                    again_sync_collections_from(s1, t1, collections, i + 1);
                }
            },
        }
    }
}

broadcast proof fn again_sync_globals_from(
    s: SessionView, t: SessionView, globals: Seq<GlobalDefinition>, i: int,
)
    requires
        further(s, t),
    ensures
        again(
            #[trigger] sync_globals_from(s, globals, i),
            #[trigger] sync_globals_from(t, globals, i),
        ),
    decreases globals.len() - i,
{
    broadcast use {
        stop_left, stop_right, extends_on, on_ask_done, in_sync_globals_from, again_ask_done,
    };

    if 0 <= i < globals.len() {
        let (t1, r) = ask_done(t, RequestView::SyncGlobal { slug: globals[i].slug@ });
        match r {
            Err(e) => {},
            Ok(_) => in_sync_globals_from(t1, globals, i + 1),
        }
    }

    if 0 <= i < globals.len() {
        let (s1, r) = ask_done(s, RequestView::SyncGlobal { slug: globals[i].slug@ });
        let (t1, _) = ask_done(t, RequestView::SyncGlobal { slug: globals[i].slug@ });
        match r {
            Err(e) => {},
            Ok(_) => {
                in_sync_globals_from(s1, globals, i + 1);
                if further(s1, t1) {
                    again_sync_globals_from(s1, t1, globals, i + 1);
                }
            },
        }
    }
}

broadcast proof fn again_sync_tables_step(s: SessionView, t: SessionView, registry: Registry)
    requires
        further(s, t),
    ensures
        again(#[trigger] sync_tables_step(s, registry), #[trigger] sync_tables_step(t, registry)),
{
    broadcast use {
        stop_left, stop_right, extends_on, on_ask_done, in_sync_collections_from,
        in_sync_globals_from, again_ask_done, again_sync_collections_from, again_sync_globals_from,
    };
}

pub(crate) broadcast proof fn on_ask_count(s: SessionView, request: RequestView)
    ensures
        extends(s, (#[trigger] ask_count(s, request)).0),
{
    assert(s.sent =~= ask_count(s, request).0.sent.take(s.sent.len() as int));
    assert(s.warnings =~= s.warnings.take(s.warnings.len() as int));
}

broadcast proof fn again_ask_count(s: SessionView, t: SessionView, request: RequestView)
    requires
        further(s, t),
    ensures
        again(#[trigger] ask_count(s, request), #[trigger] ask_count(t, request)),
{
}

broadcast proof fn again_execute_step(
    s: SessionView, t: SessionView, sql: Seq<char>, params: Seq<DbValueView>,
)
    requires
        further(s, t),
    ensures
        again(#[trigger] execute_step(s, sql, params), #[trigger] execute_step(t, sql, params)),
{
    broadcast use {stop_left, stop_right, extends_on, on_ask_count, again_ask_count};
}

broadcast proof fn again_meta_delete_step(s: SessionView, t: SessionView, key: Seq<char>)
    requires
        further(s, t),
    ensures
        again(#[trigger] meta::delete_step(s, key), #[trigger] meta::delete_step(t, key)),
{
    broadcast use {stop_left, stop_right, extends_on, in_execute_step, again_execute_step};
}

broadcast proof fn again_user_tables_step(s: SessionView, t: SessionView)
    requires
        further(s, t),
    ensures
        again(#[trigger] user_tables_step(s), #[trigger] user_tables_step(t)),
{
    broadcast use {
        stop_left, stop_right, extends_on, on_ask_names, in_query_all_step, again_ask_names,
        again_query_all_step,
    };
}

broadcast proof fn again_orphans_from(
    s: SessionView, t: SessionView, names: Seq<Seq<char>>, known: Seq<Seq<char>>, i: int, done:
    Seq<OrphanView>,
)
    requires
        further(s, t),
    ensures
        again(
            #[trigger] orphans_from(s, names, known, i, done),
            #[trigger] orphans_from(t, names, known, i, done),
        ),
    decreases names.len() - i,
{
    broadcast use {
        stop_left, stop_right, extends_on, in_table_columns_step, in_orphans_from,
        again_table_columns_step,
    };

    if i < 0 || i >= names.len() {
    } else if accounted_for(names[i], known) {
        in_orphans_from(t, names, known, i + 1, done)
    } else {
        let (t1, columns) = table_columns_step(t, names[i]);
        match columns {
            Err(e) => {},
            Ok(columns) => match classified(names[i], columns) {
                Some(kind) => in_orphans_from(
                    t1,
                    names,
                    known,
                    i + 1,
                    done.push(OrphanView { name: names[i], kind }),
                ),
                None => in_orphans_from(t1, names, known, i + 1, done),
            },
        }
    }

    if i < 0 || i >= names.len() {
    } else if accounted_for(names[i], known) {
        in_orphans_from(s, names, known, i + 1, done);
        if further(s, t) {
            again_orphans_from(s, t, names, known, i + 1, done);
        }
    } else {
        let (s1, columns) = table_columns_step(s, names[i]);
        let (t1, _) = table_columns_step(t, names[i]);
        match columns {
            Err(e) => {},
            Ok(columns) => match classified(names[i], columns) {
                Some(kind) => {
                    in_orphans_from(
                        s1,
                        names,
                        known,
                        i + 1,
                        done.push(OrphanView { name: names[i], kind }),
                    );
                    if further(s1, t1) {
                        again_orphans_from(
                            s1,
                            t1,
                            names,
                            known,
                            i + 1,
                            done.push(OrphanView { name: names[i], kind }),
                        );
                    }
                },
                None => {
                    in_orphans_from(s1, names, known, i + 1, done);
                    if further(s1, t1) {
                        again_orphans_from(s1, t1, names, known, i + 1, done);
                    }
                },
            },
        }
    }
}

broadcast proof fn again_find_orphans_step(s: SessionView, t: SessionView, registry: Registry)
    requires
        further(s, t),
    ensures
        again(#[trigger] find_orphans_step(s, registry), #[trigger] find_orphans_step(t, registry)),
{
    broadcast use {
        stop_left, stop_right, extends_on, in_user_tables_step, in_orphans_from,
        again_user_tables_step, again_orphans_from,
    };
}

broadcast proof fn again_warned_of_tables(
    s: SessionView, t: SessionView, orphans: Seq<OrphanView>, i: int,
)
    requires
        further(s, t),
    ensures
        further(
            #[trigger] warned_of_tables(s, orphans, i),
            #[trigger] warned_of_tables(t, orphans, i),
        ),
    decreases orphans.len() - i,
{
    broadcast use {stop_left, stop_right, extends_on, on_warned, in_warned_of_tables, again_warned};

    if i < 0 || i >= orphans.len() {
    } else {
        again_warned_of_tables(s.warned(orphan_warning(orphans[i])), t.warned(orphan_warning(orphans[i])), orphans, i + 1)
    }
}

broadcast proof fn again_warn_orphans_step(s: SessionView, t: SessionView, registry: Registry)
    requires
        further(s, t),
    ensures
        again(#[trigger] warn_orphans_step(s, registry), #[trigger] warn_orphans_step(t, registry)),
{
    broadcast use {
        stop_left, stop_right, extends_on, in_find_orphans_step, in_warned_of_tables,
        again_find_orphans_step, again_warned_of_tables,
    };
}

broadcast proof fn again_prepare_step(
    s: SessionView, t: SessionView, registry: Registry, config: LocaleConfig,
)
    requires
        further(s, t),
    ensures
        again(
            #[trigger] prepare_step(s, registry, config),
            #[trigger] prepare_step(t, registry, config),
        ),
{
    broadcast use {
        stop_left, stop_right, extends_on, in_system_tables_step, in_check_all_step,
        in_sync_tables_step, in_meta_delete_step, in_warn_orphans_step, again_system_tables_step,
        again_check_all_step, again_sync_tables_step, again_meta_delete_step,
        again_warn_orphans_step,
    };
}

broadcast proof fn again_meta_get_step(s: SessionView, t: SessionView, key: Seq<char>)
    requires
        further(s, t),
    ensures
        again(#[trigger] meta::get_step(s, key), #[trigger] meta::get_step(t, key)),
{
    broadcast use {stop_left, stop_right, extends_on, in_query_one_step, again_query_one_step};
}

broadcast proof fn again_meta_upsert_step(
    s: SessionView, t: SessionView, key: Seq<char>, value: Seq<char>,
)
    requires
        further(s, t),
    ensures
        again(
            #[trigger] meta::upsert_step(s, key, value),
            #[trigger] meta::upsert_step(t, key, value),
        ),
{
    broadcast use {
        stop_left, stop_right, extends_on, in_meta_delete_step, in_execute_step,
        again_meta_delete_step, again_execute_step,
    };
}

broadcast proof fn again_page_step(
    s: SessionView, t: SessionView, scan: ScanView, after: Option<Seq<char>>,
)
    requires
        further(s, t),
    ensures
        again(#[trigger] page_step(s, scan, after), #[trigger] page_step(t, scan, after)),
{
    broadcast use {stop_left, stop_right, extends_on, in_query_all_step, again_query_all_step};
}

broadcast proof fn again_first_page_step(s: SessionView, t: SessionView, scan: ScanView)
    requires
        further(s, t),
    ensures
        again(#[trigger] first_page_step(s, scan), #[trigger] first_page_step(t, scan)),
{
    broadcast use {
        stop_left, stop_right, extends_on, in_table_exists_step, in_page_step,
        again_table_exists_step, again_page_step,
    };
}

broadcast proof fn again_execute_many_step(
    s: SessionView, t: SessionView, sql: Seq<char>, params: Seq<Seq<DbValueView>>,
)
    requires
        further(s, t),
    ensures
        again(
            #[trigger] execute_many_step(s, sql, params),
            #[trigger] execute_many_step(t, sql, params),
        ),
{
    broadcast use {stop_left, stop_right, extends_on, on_ask_count, again_ask_count};
}

broadcast proof fn again_all_warned(s: SessionView, t: SessionView, warnings: Seq<Seq<char>>)
    requires
        further(s, t),
    ensures
        further(#[trigger] all_warned(s, warnings), #[trigger] all_warned(t, warnings)),
{
    broadcast use {stop_left, stop_right, extends_on};
}

broadcast proof fn again_copy_page_step(
    s: SessionView, t: SessionView, copy: CopyView, rows: Seq<DbRowView>,
)
    requires
        further(s, t),
    ensures
        again(#[trigger] copy_page_step(s, copy, rows), #[trigger] copy_page_step(t, copy, rows)),
{
    broadcast use {
        stop_left, stop_right, extends_on, in_execute_many_step, in_all_warned,
        again_execute_many_step, again_all_warned,
    };
}

broadcast proof fn again_copy_pages(
    s: SessionView, t: SessionView, copy: CopyView, page: PageView, n: nat,
)
    requires
        further(s, t),
    ensures
        again(#[trigger] copy_pages(s, copy, page, n), #[trigger] copy_pages(t, copy, page, n)),
    decreases answers_left(s),
{
    broadcast use {
        stop_left, stop_right, extends_on, in_copy_page_step, in_page_step, in_copy_pages,
        again_copy_page_step, again_page_step,
    };

    let (t1, r) = copy_page_step(t, copy, page.rows);
    match r {
        Err(e) => {},
        Ok(more) => match page.next {
            None => {},
            Some(after) => {
                let (t2, next) = page_step(t1, copy.scan(), Some(after));
                match next {
                    Err(e) => {},
                    Ok(next) => in_copy_pages(t2, copy, next, together(n, more)),
                }
            },
        },
    }

    let (s1, r) = copy_page_step(s, copy, page.rows);
    let (t1, _) = copy_page_step(t, copy, page.rows);
    match r {
        Err(e) => {},
        Ok(more) => match page.next {
            None => {},
            Some(after) => {
                let (s2, next) = page_step(s1, copy.scan(), Some(after));
                let (t2, _) = page_step(t1, copy.scan(), Some(after));
                match next {
                    Err(e) => {},
                    Ok(next) => {
                        in_copy_pages(s2, copy, next, together(n, more));
                        if further(s2, t2) {
                            again_copy_pages(s2, t2, copy, next, together(n, more));
                        }
                    },
                }
            },
        },
    }
}

broadcast proof fn again_copy_column_step(s: SessionView, t: SessionView, copy: CopyView)
    requires
        further(s, t),
    ensures
        again(#[trigger] copy_column_step(s, copy), #[trigger] copy_column_step(t, copy)),
{
    broadcast use {
        stop_left, stop_right, extends_on, in_first_page_step, in_copy_pages, again_first_page_step,
        again_copy_pages,
    };
}

broadcast proof fn again_copy_columns_from(
    s: SessionView, t: SessionView, table: Seq<char>, junction: Seq<char>, polymorphic: bool,
    columns: Seq<RefColumn>, i: int, n: nat,
)
    requires
        further(s, t),
    ensures
        again(
            #[trigger] copy_columns_from(s, table, junction, polymorphic, columns, i, n),
            #[trigger] copy_columns_from(t, table, junction, polymorphic, columns, i, n),
        ),
    decreases columns.len() - i,
{
    broadcast use {
        stop_left, stop_right, extends_on, in_copy_column_step, in_copy_columns_from,
        again_copy_column_step,
    };

    if 0 <= i < columns.len() {
        let (t1, r) = copy_column_step(
            t,
            CopyView {
                table,
                junction,
                column: columns[i].0,
                polymorphic,
                locale: columns[i].1,
            },
        );
        match r {
            Err(e) => {},
            Ok(more) => in_copy_columns_from(
                t1,
                table,
                junction,
                polymorphic,
                columns,
                i + 1,
                together(n, more),
            ),
        }
    }

    if 0 <= i < columns.len() {
        let (s1, r) = copy_column_step(
            s,
            CopyView {
                table,
                junction,
                column: columns[i].0,
                polymorphic,
                locale: columns[i].1,
            },
        );
        let (t1, _) = copy_column_step(
            t,
            CopyView {
                table,
                junction,
                column: columns[i].0,
                polymorphic,
                locale: columns[i].1,
            },
        );
        match r {
            Err(e) => {},
            Ok(more) => {
                in_copy_columns_from(
                    s1,
                    table,
                    junction,
                    polymorphic,
                    columns,
                    i + 1,
                    together(n, more),
                );
                if further(s1, t1) {
                    again_copy_columns_from(
                        s1,
                        t1,
                        table,
                        junction,
                        polymorphic,
                        columns,
                        i + 1,
                        together(n, more),
                    );
                }
            },
        }
    }
}

broadcast proof fn again_column_to_junction_step(
    s: SessionView, t: SessionView, table: Seq<char>, junction: Seq<char>, leaf: RefLeafView,
    columns: Seq<RefColumn>,
)
    requires
        further(s, t),
    ensures
        again(
            #[trigger] column_to_junction_step(s, table, junction, leaf, columns),
            #[trigger] column_to_junction_step(t, table, junction, leaf, columns),
        ),
{
    broadcast use {
        stop_left, stop_right, extends_on, in_execute_step, in_copy_columns_from, on_noted,
        again_execute_step, again_copy_columns_from, again_noted,
    };
}

broadcast proof fn again_refuse_multiple_step(
    s: SessionView, t: SessionView, table: Seq<char>, junction: Seq<char>, leaf: RefLeafView,
)
    requires
        further(s, t),
    ensures
        again(
            #[trigger] refuse_multiple_step(s, table, junction, leaf),
            #[trigger] refuse_multiple_step(t, table, junction, leaf),
        ),
{
    broadcast use {stop_left, stop_right, extends_on, in_query_all_step, again_query_all_step};
}

broadcast proof fn again_refill_from(
    s: SessionView, t: SessionView, table: Seq<char>, junction: Seq<char>, polymorphic: bool,
    columns: Seq<RefColumn>, i: int,
)
    requires
        further(s, t),
    ensures
        again(
            #[trigger] refill_from(s, table, junction, polymorphic, columns, i),
            #[trigger] refill_from(t, table, junction, polymorphic, columns, i),
        ),
    decreases columns.len() - i,
{
    broadcast use {
        stop_left, stop_right, extends_on, in_execute_step, in_refill_from, again_execute_step,
    };

    if 0 <= i < columns.len() {
        let (t1, r) = within(
            execute_step(
                t,
                refill_sql(
                    t.dialect,
                    table,
                    junction,
                    columns[i].0,
                    polymorphic,
                    columns[i].1 is Some,
                ),
                match columns[i].1 {
                    Some(locale) => seq![DbValueView::Text(locale)],
                    None => Seq::empty(),
                },
            ),
            "Failed to carry '"@ + junction + "' into '"@ + table + "."@ + columns[i].0 + "'"@,
        );
        match r {
            Err(e) => {},
            Ok(_) => in_refill_from(t1, table, junction, polymorphic, columns, i + 1),
        }
    }

    if 0 <= i < columns.len() {
        let (s1, r) = within(
            execute_step(
                s,
                refill_sql(
                    s.dialect,
                    table,
                    junction,
                    columns[i].0,
                    polymorphic,
                    columns[i].1 is Some,
                ),
                match columns[i].1 {
                    Some(locale) => seq![DbValueView::Text(locale)],
                    None => Seq::empty(),
                },
            ),
            "Failed to carry '"@ + junction + "' into '"@ + table + "."@ + columns[i].0 + "'"@,
        );
        let (t1, _) = within(
            execute_step(
                t,
                refill_sql(
                    s.dialect,
                    table,
                    junction,
                    columns[i].0,
                    polymorphic,
                    columns[i].1 is Some,
                ),
                match columns[i].1 {
                    Some(locale) => seq![DbValueView::Text(locale)],
                    None => Seq::empty(),
                },
            ),
            "Failed to carry '"@ + junction + "' into '"@ + table + "."@ + columns[i].0 + "'"@,
        );
        match r {
            Err(e) => {},
            Ok(_) => {
                in_refill_from(s1, table, junction, polymorphic, columns, i + 1);
                if further(s1, t1) {
                    again_refill_from(s1, t1, table, junction, polymorphic, columns, i + 1);
                }
            },
        }
    }
}

broadcast proof fn again_junction_to_column_step(
    s: SessionView, t: SessionView, table: Seq<char>, junction: Seq<char>, leaf: RefLeafView,
    columns: Seq<RefColumn>,
)
    requires
        further(s, t),
    ensures
        again(
            #[trigger] junction_to_column_step(s, table, junction, leaf, columns),
            #[trigger] junction_to_column_step(t, table, junction, leaf, columns),
        ),
{
    broadcast use {
        stop_left, stop_right, extends_on, in_refuse_multiple_step, in_refill_from, on_noted,
        again_refuse_multiple_step, again_refill_from, again_noted,
    };
}

broadcast proof fn again_carry_between_step(
    s: SessionView, t: SessionView, table: Seq<char>, junction: Seq<char>, leaf: RefLeafView,
    locales: Seq<Seq<char>>,
)
    requires
        further(s, t),
    ensures
        again(
            #[trigger] carry_between_step(s, table, junction, leaf, locales),
            #[trigger] carry_between_step(t, table, junction, leaf, locales),
        ),
{
    broadcast use {
        stop_left, stop_right, extends_on, in_table_columns_step, in_column_to_junction_step,
        in_junction_to_column_step, again_table_columns_step, again_column_to_junction_step,
        again_junction_to_column_step,
    };
}

broadcast proof fn again_carry_leaf_step(
    s: SessionView, t: SessionView, table: Seq<char>, leaf: RefLeafView, before: Shape, locales:
    Seq<Seq<char>>,
)
    requires
        further(s, t),
    ensures
        again(
            #[trigger] carry_leaf_step(s, table, leaf, before, locales),
            #[trigger] carry_leaf_step(t, table, leaf, before, locales),
        ),
{
    broadcast use {
        stop_left, stop_right, extends_on, in_table_exists_step, in_carry_between_step,
        again_table_exists_step, again_carry_between_step,
    };
}

broadcast proof fn again_carry_leaves_from(
    s: SessionView, t: SessionView, table: Seq<char>, refs: Seq<RefLeafView>, recorded:
    Seq<(Seq<char>, Shape)>, locales: Seq<Seq<char>>, i: int,
)
    requires
        further(s, t),
    ensures
        again(
            #[trigger] carry_leaves_from(s, table, refs, recorded, locales, i),
            #[trigger] carry_leaves_from(t, table, refs, recorded, locales, i),
        ),
    decreases refs.len() - i,
{
    broadcast use {
        stop_left, stop_right, extends_on, in_carry_leaf_step, in_carry_leaves_from,
        again_carry_leaf_step,
    };

    if 0 <= i < refs.len() {
        match shape_under(recorded, refs[i].path) {
            None => in_carry_leaves_from(t, table, refs, recorded, locales, i + 1),
            Some(before) => {
                let (t1, r) = carry_leaf_step(t, table, refs[i], before, locales);
                match r {
                    Err(e) => {},
                    Ok(_) => in_carry_leaves_from(t1, table, refs, recorded, locales, i + 1),
                }
            },
        }
    }

    if 0 <= i < refs.len() {
        match shape_under(recorded, refs[i].path) {
            None => {
                in_carry_leaves_from(s, table, refs, recorded, locales, i + 1);
                if further(s, t) {
                    again_carry_leaves_from(s, t, table, refs, recorded, locales, i + 1);
                }
            },
            Some(before) => {
                let (s1, r) = carry_leaf_step(s, table, refs[i], before, locales);
                let (t1, _) = carry_leaf_step(t, table, refs[i], before, locales);
                match r {
                    Err(e) => {},
                    Ok(_) => {
                        in_carry_leaves_from(s1, table, refs, recorded, locales, i + 1);
                        if further(s1, t1) {
                            again_carry_leaves_from(s1, t1, table, refs, recorded, locales, i + 1);
                        }
                    },
                }
            },
        }
    }
}

broadcast proof fn again_carry_owner_step(
    s: SessionView, t: SessionView, table: Seq<char>, fields: Seq<FieldDefinition>, config:
    LocaleConfig,
)
    requires
        further(s, t),
    ensures
        again(
            #[trigger] carry_owner_step(s, table, fields, config),
            #[trigger] carry_owner_step(t, table, fields, config),
        ),
{
    broadcast use {
        stop_left, stop_right, extends_on, in_meta_get_step, in_meta_upsert_step,
        in_carry_leaves_from, again_meta_get_step, again_meta_upsert_step, again_carry_leaves_from,
    };
}

broadcast proof fn again_carry_collections_from(
    s: SessionView, t: SessionView, collections: Seq<CollectionDefinition>, config: LocaleConfig, i:
    int,
)
    requires
        further(s, t),
    ensures
        again(
            #[trigger] carry_collections_from(s, collections, config, i),
            #[trigger] carry_collections_from(t, collections, config, i),
        ),
    decreases collections.len() - i,
{
    broadcast use {
        stop_left, stop_right, extends_on, in_carry_owner_step, in_carry_collections_from,
        again_carry_owner_step,
    };

    if 0 <= i < collections.len() {
        let (t1, r) = carry_owner_step(
            t,
            collections[i].slug@,
            collections[i].fields@,
            config,
        );
        match r {
            Err(e) => {},
            Ok(_) => in_carry_collections_from(t1, collections, config, i + 1),
        }
    }

    if 0 <= i < collections.len() {
        let (s1, r) = carry_owner_step(
            s,
            collections[i].slug@,
            collections[i].fields@,
            config,
        );
        let (t1, _) = carry_owner_step(
            t,
            collections[i].slug@,
            collections[i].fields@,
            config,
        );
        match r {
            Err(e) => {},
            Ok(_) => {
                in_carry_collections_from(s1, collections, config, i + 1);
                if further(s1, t1) {
                    again_carry_collections_from(s1, t1, collections, config, i + 1);
                }
            },
        }
    }
}

broadcast proof fn again_carry_globals_from(
    s: SessionView, t: SessionView, globals: Seq<GlobalDefinition>, config: LocaleConfig, i: int,
)
    requires
        further(s, t),
    ensures
        again(
            #[trigger] carry_globals_from(s, globals, config, i),
            #[trigger] carry_globals_from(t, globals, config, i),
        ),
    decreases globals.len() - i,
{
    broadcast use {
        stop_left, stop_right, extends_on, in_carry_owner_step, in_carry_globals_from,
        again_carry_owner_step,
    };

    if 0 <= i < globals.len() {
        let (t1, r) = carry_owner_step(
            t,
            global_table_name(globals[i].slug@),
            globals[i].fields@,
            config,
        );
        match r {
            Err(e) => {},
            Ok(_) => in_carry_globals_from(t1, globals, config, i + 1),
        }
    }

    if 0 <= i < globals.len() {
        let (s1, r) = carry_owner_step(
            s,
            global_table_name(globals[i].slug@),
            globals[i].fields@,
            config,
        );
        let (t1, _) = carry_owner_step(
            t,
            global_table_name(globals[i].slug@),
            globals[i].fields@,
            config,
        );
        match r {
            Err(e) => {},
            Ok(_) => {
                in_carry_globals_from(s1, globals, config, i + 1);
                if further(s1, t1) {
                    again_carry_globals_from(s1, t1, globals, config, i + 1);
                }
            },
        }
    }
}

broadcast proof fn again_carry_step(
    s: SessionView, t: SessionView, registry: Registry, config: LocaleConfig,
)
    requires
        further(s, t),
    ensures
        again(
            #[trigger] carry_step(s, registry, config),
            #[trigger] carry_step(t, registry, config),
        ),
{
    broadcast use {
        stop_left, stop_right, extends_on, in_carry_collections_from, in_carry_globals_from,
        again_carry_collections_from, again_carry_globals_from,
    };
}

broadcast proof fn again_rewrite_from(
    s: SessionView, t: SessionView, table: Seq<char>, existing: Seq<Seq<char>>, columns:
    Seq<Seq<char>>, i: int,
)
    requires
        further(s, t),
    ensures
        again(
            #[trigger] rewrite_from(s, table, existing, columns, i),
            #[trigger] rewrite_from(t, table, existing, columns, i),
        ),
    decreases columns.len() - i,
{
    broadcast use {
        stop_left, stop_right, extends_on, in_execute_step, in_rewrite_from, again_execute_step,
    };

    if i < 0 || i >= columns.len() {
    } else if !existing.contains(columns[i]) {
        in_rewrite_from(t, table, existing, columns, i + 1)
    } else {
        let (t1, r) = within(
            execute_step(t, rewrite_sql(table, columns[i]), Seq::empty()),
            "Failed to normalize legacy timestamps in "@ + table + "."@ + columns[i],
        );
        match r {
            Err(e) => {},
            Ok(_) => in_rewrite_from(t1, table, existing, columns, i + 1),
        }
    }

    if i < 0 || i >= columns.len() {
    } else if !existing.contains(columns[i]) {
        in_rewrite_from(s, table, existing, columns, i + 1);
        if further(s, t) {
            again_rewrite_from(s, t, table, existing, columns, i + 1);
        }
    } else {
        let (s1, r) = within(
            execute_step(s, rewrite_sql(table, columns[i]), Seq::empty()),
            "Failed to normalize legacy timestamps in "@ + table + "."@ + columns[i],
        );
        let (t1, _) = within(
            execute_step(t, rewrite_sql(table, columns[i]), Seq::empty()),
            "Failed to normalize legacy timestamps in "@ + table + "."@ + columns[i],
        );
        match r {
            Err(e) => {},
            Ok(_) => {
                in_rewrite_from(s1, table, existing, columns, i + 1);
                if further(s1, t1) {
                    again_rewrite_from(s1, t1, table, existing, columns, i + 1);
                }
            },
        }
    }
}

broadcast proof fn again_normalize_table_step(s: SessionView, t: SessionView, table: Seq<char>)
    requires
        further(s, t),
    ensures
        again(#[trigger] normalize_table_step(s, table), #[trigger] normalize_table_step(t, table)),
{
    broadcast use {
        stop_left, stop_right, extends_on, in_table_exists_step, in_table_columns_step,
        in_rewrite_from, again_table_exists_step, again_table_columns_step, again_rewrite_from,
    };
}

broadcast proof fn again_normalize_pair_step(s: SessionView, t: SessionView, table: Seq<char>)
    requires
        further(s, t),
    ensures
        again(#[trigger] normalize_pair_step(s, table), #[trigger] normalize_pair_step(t, table)),
{
    broadcast use {
        stop_left, stop_right, extends_on, in_normalize_table_step, again_normalize_table_step,
    };
}

broadcast proof fn again_normalize_target_step(
    s: SessionView, t: SessionView, table: Seq<char>, versioned: bool,
)
    requires
        further(s, t),
    ensures
        again(
            #[trigger] normalize_target_step(s, table, versioned),
            #[trigger] normalize_target_step(t, table, versioned),
        ),
{
    broadcast use {
        stop_left, stop_right, extends_on, in_meta_get_step, in_normalize_pair_step,
        in_normalize_table_step, in_meta_upsert_step, again_meta_get_step,
        again_normalize_pair_step, again_normalize_table_step, again_meta_upsert_step,
    };
}

broadcast proof fn again_normalize_from(
    s: SessionView, t: SessionView, tables: Seq<Seq<char>>, i: int,
)
    requires
        further(s, t),
    ensures
        again(#[trigger] normalize_from(s, tables, i), #[trigger] normalize_from(t, tables, i)),
    decreases tables.len() - i,
{
    broadcast use {
        stop_left, stop_right, extends_on, in_normalize_target_step, in_normalize_from,
        again_normalize_target_step,
    };

    if 0 <= i < tables.len() {
        let (t1, r) = normalize_target_step(t, tables[i], true);
        match r {
            Err(e) => {},
            Ok(_) => in_normalize_from(t1, tables, i + 1),
        }
    }

    if 0 <= i < tables.len() {
        let (s1, r) = normalize_target_step(s, tables[i], true);
        let (t1, _) = normalize_target_step(t, tables[i], true);
        match r {
            Err(e) => {},
            Ok(_) => {
                in_normalize_from(s1, tables, i + 1);
                if further(s1, t1) {
                    again_normalize_from(s1, t1, tables, i + 1);
                }
            },
        }
    }
}

broadcast proof fn again_normalize_step(s: SessionView, t: SessionView, registry: Registry)
    requires
        further(s, t),
    ensures
        again(#[trigger] normalize_step(s, registry), #[trigger] normalize_step(t, registry)),
{
    broadcast use {
        stop_left, stop_right, extends_on, in_meta_delete_step, in_normalize_target_step,
        in_normalize_from, again_meta_delete_step, again_normalize_target_step,
        again_normalize_from,
    };
}

broadcast proof fn again_convert_candidates_step(
    s: SessionView, t: SessionView, conversion: Conversion, table: Seq<char>, update: Seq<char>,
    failed: Seq<char>, fields: Seq<FieldView>, blocks: Seq<BlockView>, candidates:
    Seq<CandidateView>,
)
    requires
        further(s, t),
    ensures
        again(
            #[trigger] convert_candidates_step(s, conversion, table, update, failed, fields, blocks, candidates),
            #[trigger] convert_candidates_step(t, conversion, table, update, failed, fields, blocks, candidates),
        ),
{
    broadcast use {
        stop_left, stop_right, extends_on, on_ask_names, in_execute_many_step, again_ask_names,
        again_execute_many_step,
    };
}

broadcast proof fn again_convert_pages(
    s: SessionView, t: SessionView, table: Seq<char>, kind: RowsView, page: PageView, n: nat,
)
    requires
        further(s, t),
    ensures
        again(
            #[trigger] convert_pages(s, table, kind, page, n),
            #[trigger] convert_pages(t, table, kind, page, n),
        ),
    decreases answers_left(s),
{
    broadcast use {
        stop_left, stop_right, extends_on, in_convert_candidates_step, in_page_step,
        in_convert_pages, again_convert_candidates_step, again_page_step,
    };

    let (t1, r) = convert_candidates_step(
        t,
        Conversion::Typed,
        table,
        update_sql(t.dialect, table, kind.column()),
        kind.failed(table),
        kind.fields(),
        kind.blocks(),
        kind.candidates(page.rows),
    );
    match r {
        Err(e) => {},
        Ok(more) => match page.next {
            None => {},
            Some(after) => {
                let (t2, next) = page_step(t1, kind.scan(table), Some(after));
                match next {
                    Err(e) => {},
                    Ok(next) => in_convert_pages(t2, table, kind, next, together(n, more)),
                }
            },
        },
    }

    let (s1, r) = convert_candidates_step(
        s,
        Conversion::Typed,
        table,
        update_sql(s.dialect, table, kind.column()),
        kind.failed(table),
        kind.fields(),
        kind.blocks(),
        kind.candidates(page.rows),
    );
    let (t1, _) = convert_candidates_step(
        t,
        Conversion::Typed,
        table,
        update_sql(s.dialect, table, kind.column()),
        kind.failed(table),
        kind.fields(),
        kind.blocks(),
        kind.candidates(page.rows),
    );
    match r {
        Err(e) => {},
        Ok(more) => match page.next {
            None => {},
            Some(after) => {
                let (s2, next) = page_step(s1, kind.scan(table), Some(after));
                let (t2, _) = page_step(t1, kind.scan(table), Some(after));
                match next {
                    Err(e) => {},
                    Ok(next) => {
                        in_convert_pages(s2, table, kind, next, together(n, more));
                        if further(s2, t2) {
                            again_convert_pages(s2, t2, table, kind, next, together(n, more));
                        }
                    },
                }
            },
        },
    }
}

broadcast proof fn again_convert_rows_step(
    s: SessionView, t: SessionView, table: Seq<char>, kind: RowsView,
)
    requires
        further(s, t),
    ensures
        again(
            #[trigger] convert_rows_step(s, table, kind),
            #[trigger] convert_rows_step(t, table, kind),
        ),
{
    broadcast use {
        stop_left, stop_right, extends_on, in_first_page_step, in_convert_pages,
        again_first_page_step, again_convert_pages,
    };
}

broadcast proof fn again_convert_columns_from(
    s: SessionView, t: SessionView, table: Seq<char>, sub: Seq<FieldDefinition>, names:
    Seq<Seq<char>>, i: int, n: nat,
)
    requires
        further(s, t),
    ensures
        again(
            #[trigger] convert_columns_from(s, table, sub, names, i, n),
            #[trigger] convert_columns_from(t, table, sub, names, i, n),
        ),
    decreases names.len() - i,
{
    broadcast use {
        stop_left, stop_right, extends_on, in_convert_rows_step, in_convert_columns_from,
        again_convert_rows_step,
    };

    if 0 <= i < names.len() {
        let (t1, r) = convert_rows_step(t, table, RowsView::Column(names[i], sub));
        match r {
            Err(e) => {},
            Ok(more) => in_convert_columns_from(t1, table, sub, names, i + 1, together(n, more)),
        }
    }

    if 0 <= i < names.len() {
        let (s1, r) = convert_rows_step(s, table, RowsView::Column(names[i], sub));
        let (t1, _) = convert_rows_step(t, table, RowsView::Column(names[i], sub));
        match r {
            Err(e) => {},
            Ok(more) => {
                in_convert_columns_from(s1, table, sub, names, i + 1, together(n, more));
                if further(s1, t1) {
                    again_convert_columns_from(s1, t1, table, sub, names, i + 1, together(n, more));
                }
            },
        }
    }
}

broadcast proof fn again_convert_array_step(
    s: SessionView, t: SessionView, table: Seq<char>, sub: Seq<FieldDefinition>,
)
    requires
        further(s, t),
    ensures
        again(
            #[trigger] convert_array_step(s, table, sub),
            #[trigger] convert_array_step(t, table, sub),
        ),
{
    broadcast use {
        stop_left, stop_right, extends_on, in_table_exists_step, in_convert_columns_from,
        again_table_exists_step, again_convert_columns_from,
    };
}

broadcast proof fn again_convert_blocks_step(
    s: SessionView, t: SessionView, table: Seq<char>, blocks: Seq<BlockDefinition>,
)
    requires
        further(s, t),
    ensures
        again(
            #[trigger] convert_blocks_step(s, table, blocks),
            #[trigger] convert_blocks_step(t, table, blocks),
        ),
{
    broadcast use {
        stop_left, stop_right, extends_on, in_table_exists_step, in_convert_rows_step,
        again_table_exists_step, again_convert_rows_step,
    };
}

broadcast proof fn again_convert_leaves_from(
    s: SessionView, t: SessionView, table: Seq<char>, found: Seq<LeafView>, i: int, n: nat,
)
    requires
        further(s, t),
    ensures
        again(
            #[trigger] convert_leaves_from(s, table, found, i, n),
            #[trigger] convert_leaves_from(t, table, found, i, n),
        ),
    decreases found.len() - i,
{
    broadcast use {
        stop_left, stop_right, extends_on, in_convert_array_step, in_convert_blocks_step,
        in_convert_leaves_from, again_convert_array_step, again_convert_blocks_step,
    };

    if 0 <= i < found.len() {
        let join = join_table_name(table, found[i].path());
        let (t1, r) = match found[i].field.field_type {
            FieldType::Array => convert_array_step(t, join, found[i].field.fields@),
            FieldType::Blocks => convert_blocks_step(t, join, found[i].field.blocks@),
            _ => (t, Ok(0)),
        };
        match r {
            Err(e) => {},
            Ok(more) => in_convert_leaves_from(t1, table, found, i + 1, together(n, more)),
        }
    }

    if 0 <= i < found.len() {
        let join = join_table_name(table, found[i].path());
        let (s1, r) = match found[i].field.field_type {
            FieldType::Array => convert_array_step(s, join, found[i].field.fields@),
            FieldType::Blocks => convert_blocks_step(s, join, found[i].field.blocks@),
            _ => (s, Ok(0)),
        };
        let (t1, _) = match found[i].field.field_type {
            FieldType::Array => convert_array_step(t, join, found[i].field.fields@),
            FieldType::Blocks => convert_blocks_step(t, join, found[i].field.blocks@),
            _ => (t, Ok(0)),
        };
        match r {
            Err(e) => {},
            Ok(more) => {
                in_convert_leaves_from(s1, table, found, i + 1, together(n, more));
                if further(s1, t1) {
                    again_convert_leaves_from(s1, t1, table, found, i + 1, together(n, more));
                }
            },
        }
    }
}

pub(crate) broadcast proof fn on_convert_join_tables_step(
    s: SessionView, table: Seq<char>, fields: Seq<FieldDefinition>,
)
    ensures
        extends(s, (#[trigger] convert_join_tables_step(s, table, fields)).0),
{
    broadcast use {extends_itself, extends_on, in_convert_leaves_from};
}

broadcast proof fn again_convert_join_tables_step(
    s: SessionView, t: SessionView, table: Seq<char>, fields: Seq<FieldDefinition>,
)
    requires
        further(s, t),
    ensures
        again(
            #[trigger] convert_join_tables_step(s, table, fields),
            #[trigger] convert_join_tables_step(t, table, fields),
        ),
{
    broadcast use {
        stop_left, stop_right, extends_on, in_convert_leaves_from, again_convert_leaves_from,
    };
}

pub(crate) broadcast proof fn on_stored_typed(s: SessionView, slug: Seq<char>, n: nat)
    ensures
        extends(s, #[trigger] stored_typed(s, slug, n)),
{
    broadcast use {extends_itself, extends_on, on_noted};
}

broadcast proof fn again_stored_typed(s: SessionView, t: SessionView, slug: Seq<char>, n: nat)
    requires
        further(s, t),
    ensures
        further(#[trigger] stored_typed(s, slug, n), #[trigger] stored_typed(t, slug, n)),
{
    broadcast use {stop_left, stop_right, extends_on, on_noted, again_noted};
}

broadcast proof fn again_convert_one_step(
    s: SessionView, t: SessionView, slug: Seq<char>, table: Seq<char>, fields: Seq<FieldDefinition>,
)
    requires
        further(s, t),
    ensures
        again(
            #[trigger] convert_one_step(s, slug, table, fields),
            #[trigger] convert_one_step(t, slug, table, fields),
        ),
{
    broadcast use {
        stop_left, stop_right, extends_on, in_meta_delete_step, in_meta_get_step,
        on_convert_join_tables_step, in_meta_upsert_step, on_stored_typed, again_meta_delete_step,
        again_meta_get_step, again_convert_join_tables_step, again_meta_upsert_step,
        again_stored_typed,
    };
}

broadcast proof fn again_convert_collections_from(
    s: SessionView, t: SessionView, collections: Seq<CollectionDefinition>, i: int,
)
    requires
        further(s, t),
    ensures
        again(
            #[trigger] convert_collections_from(s, collections, i),
            #[trigger] convert_collections_from(t, collections, i),
        ),
    decreases collections.len() - i,
{
    broadcast use {
        stop_left, stop_right, extends_on, in_convert_one_step, in_convert_collections_from,
        again_convert_one_step,
    };

    if 0 <= i < collections.len() {
        let (t1, r) = convert_one_step(
            t,
            collections[i].slug@,
            collections[i].slug@,
            collections[i].fields@,
        );
        match r {
            Err(e) => {},
            Ok(_) => in_convert_collections_from(t1, collections, i + 1),
        }
    }

    if 0 <= i < collections.len() {
        let (s1, r) = convert_one_step(
            s,
            collections[i].slug@,
            collections[i].slug@,
            collections[i].fields@,
        );
        let (t1, _) = convert_one_step(
            t,
            collections[i].slug@,
            collections[i].slug@,
            collections[i].fields@,
        );
        match r {
            Err(e) => {},
            Ok(_) => {
                in_convert_collections_from(s1, collections, i + 1);
                if further(s1, t1) {
                    again_convert_collections_from(s1, t1, collections, i + 1);
                }
            },
        }
    }
}

broadcast proof fn again_convert_globals_from(
    s: SessionView, t: SessionView, globals: Seq<GlobalDefinition>, i: int,
)
    requires
        further(s, t),
    ensures
        again(
            #[trigger] convert_globals_from(s, globals, i),
            #[trigger] convert_globals_from(t, globals, i),
        ),
    decreases globals.len() - i,
{
    broadcast use {
        stop_left, stop_right, extends_on, in_convert_one_step, in_convert_globals_from,
        again_convert_one_step,
    };

    if 0 <= i < globals.len() {
        let (t1, r) = convert_one_step(
            t,
            globals[i].slug@,
            global_table_name(globals[i].slug@),
            globals[i].fields@,
        );
        match r {
            Err(e) => {},
            Ok(_) => in_convert_globals_from(t1, globals, i + 1),
        }
    }

    if 0 <= i < globals.len() {
        let (s1, r) = convert_one_step(
            s,
            globals[i].slug@,
            global_table_name(globals[i].slug@),
            globals[i].fields@,
        );
        let (t1, _) = convert_one_step(
            t,
            globals[i].slug@,
            global_table_name(globals[i].slug@),
            globals[i].fields@,
        );
        match r {
            Err(e) => {},
            Ok(_) => {
                in_convert_globals_from(s1, globals, i + 1);
                if further(s1, t1) {
                    again_convert_globals_from(s1, t1, globals, i + 1);
                }
            },
        }
    }
}

broadcast proof fn again_convert_step(s: SessionView, t: SessionView, registry: Registry)
    requires
        further(s, t),
    ensures
        again(#[trigger] convert_step(s, registry), #[trigger] convert_step(t, registry)),
{
    broadcast use {
        stop_left, stop_right, extends_on, in_convert_collections_from, in_convert_globals_from,
        again_convert_collections_from, again_convert_globals_from,
    };
}

broadcast proof fn again_content_from(
    s: SessionView, t: SessionView, tables: Seq<Seq<char>>, i: int,
)
    requires
        further(s, t),
    ensures
        again(#[trigger] content_from(s, tables, i), #[trigger] content_from(t, tables, i)),
    decreases tables.len() - i,
{
    broadcast use {
        stop_left, stop_right, extends_on, in_table_exists_step, in_query_one_step, in_content_from,
        again_table_exists_step, again_query_one_step,
    };

    if 0 <= i < tables.len() {
        let (t1, exists) = table_exists_step(t, tables[i]);
        match exists {
            Err(e) => {},
            Ok(false) => in_content_from(t1, tables, i + 1),
            Ok(true) => {
                let (t2, row) = query_one_step(
                    t1,
                    "SELECT 1 FROM "@ + quoted(tables[i]) + " LIMIT 1"@,
                    Seq::empty(),
                );
                match row {
                    Err(e) => {},
                    Ok(Some(_)) => {},
                    Ok(None) => in_content_from(t2, tables, i + 1),
                }
            },
        }
    }

    if 0 <= i < tables.len() {
        let (s1, exists) = table_exists_step(s, tables[i]);
        let (t1, _) = table_exists_step(t, tables[i]);
        match exists {
            Err(e) => {},
            Ok(false) => {
                in_content_from(s1, tables, i + 1);
                if further(s1, t1) {
                    again_content_from(s1, t1, tables, i + 1);
                }
            },
            Ok(true) => {
                let (s2, row) = query_one_step(
                    s1,
                    "SELECT 1 FROM "@ + quoted(tables[i]) + " LIMIT 1"@,
                    Seq::empty(),
                );
                let (t2, _) = query_one_step(
                    t1,
                    "SELECT 1 FROM "@ + quoted(tables[i]) + " LIMIT 1"@,
                    Seq::empty(),
                );
                match row {
                    Err(e) => {},
                    Ok(Some(_)) => {},
                    Ok(None) => {
                        in_content_from(s2, tables, i + 1);
                        if further(s2, t2) {
                            again_content_from(s2, t2, tables, i + 1);
                        }
                    },
                }
            },
        }
    }
}

broadcast proof fn again_warn_default_step(
    s: SessionView, t: SessionView, registry: Registry, previous: Option<Seq<char>>, now: Seq<char>,
)
    requires
        further(s, t),
    ensures
        again(
            #[trigger] warn_default_step(s, registry, previous, now),
            #[trigger] warn_default_step(t, registry, previous, now),
        ),
{
    broadcast use {
        stop_left, stop_right, extends_on, in_content_from, on_warned, again_content_from,
        again_warned,
    };
}

broadcast proof fn again_default_locale_step(
    s: SessionView, t: SessionView, registry: Registry, config: LocaleConfig,
)
    requires
        further(s, t),
    ensures
        again(
            #[trigger] default_locale_step(s, registry, config),
            #[trigger] default_locale_step(t, registry, config),
        ),
{
    broadcast use {
        stop_left, stop_right, extends_on, in_meta_get_step, in_warn_default_step,
        in_meta_upsert_step, again_meta_get_step, again_warn_default_step, again_meta_upsert_step,
    };
}

broadcast proof fn again_later_conversions_step(
    s: SessionView, t: SessionView, registry: Registry, config: LocaleConfig,
)
    requires
        further(s, t),
    ensures
        again(
            #[trigger] later_conversions_step(s, registry, config),
            #[trigger] later_conversions_step(t, registry, config),
        ),
{
    broadcast use {
        stop_left, stop_right, extends_on, on_ask_done, in_normalize_step, in_convert_step,
        in_default_locale_step, again_ask_done, again_normalize_step, again_convert_step,
        again_default_locale_step,
    };
}

broadcast proof fn again_conversions_step(
    s: SessionView, t: SessionView, registry: Registry, config: LocaleConfig,
)
    requires
        further(s, t),
    ensures
        again(
            #[trigger] conversions_step(s, registry, config),
            #[trigger] conversions_step(t, registry, config),
        ),
{
    broadcast use {
        stop_left, stop_right, extends_on, in_carry_step, in_later_conversions_step,
        again_carry_step, again_later_conversions_step,
    };
}

pub(crate) broadcast proof fn on_ask_shape(s: SessionView, request: RequestView)
    ensures
        extends(s, (#[trigger] ask_shape(s, request)).0),
{
    assert(s.sent =~= ask_shape(s, request).0.sent.take(s.sent.len() as int));
    assert(s.warnings =~= s.warnings.take(s.warnings.len() as int));
}

broadcast proof fn again_ask_shape(s: SessionView, t: SessionView, request: RequestView)
    requires
        further(s, t),
    ensures
        again(#[trigger] ask_shape(s, request), #[trigger] ask_shape(t, request)),
{
}

broadcast proof fn again_build_index_step(
    s: SessionView, t: SessionView, slug: Seq<char>, fingerprint: Seq<char>,
)
    requires
        further(s, t),
    ensures
        again(
            #[trigger] build_index_step(s, slug, fingerprint),
            #[trigger] build_index_step(t, slug, fingerprint),
        ),
{
    broadcast use {
        stop_left, stop_right, extends_on, on_ask_done, in_meta_upsert_step, again_ask_done,
        again_meta_upsert_step,
    };
}

broadcast proof fn again_search_index_sync_index_step(
    s: SessionView, t: SessionView, slug: Seq<char>,
)
    requires
        further(s, t),
    ensures
        again(
            #[trigger] search_index::sync_index_step(s, slug),
            #[trigger] search_index::sync_index_step(t, slug),
        ),
{
    broadcast use {
        stop_left, stop_right, extends_on, on_ask_shape, in_meta_get_step, in_build_index_step,
        on_ask_flag, again_ask_shape, again_meta_get_step, again_build_index_step, again_ask_flag,
    };
}

broadcast proof fn again_sync_indexes_from(
    s: SessionView, t: SessionView, collections: Seq<CollectionDefinition>, i: int,
)
    requires
        further(s, t),
    ensures
        again(
            #[trigger] sync_indexes_from(s, collections, i),
            #[trigger] sync_indexes_from(t, collections, i),
        ),
    decreases collections.len() - i,
{
    broadcast use {
        stop_left, stop_right, extends_on, in_sync_index_step, in_sync_indexes_from,
        again_search_index_sync_index_step,
    };

    if 0 <= i < collections.len() {
        let (t1, r) = search_index::sync_index_step(t, collections[i].slug@);
        match r {
            Err(e) => {},
            Ok(_) => in_sync_indexes_from(t1, collections, i + 1),
        }
    }

    if 0 <= i < collections.len() {
        let (s1, r) = search_index::sync_index_step(s, collections[i].slug@);
        let (t1, _) = search_index::sync_index_step(t, collections[i].slug@);
        match r {
            Err(e) => {},
            Ok(_) => {
                in_sync_indexes_from(s1, collections, i + 1);
                if further(s1, t1) {
                    again_sync_indexes_from(s1, t1, collections, i + 1);
                }
            },
        }
    }
}

broadcast proof fn again_no_dangling_step(s: SessionView, t: SessionView, rebuilt: Seq<Seq<char>>)
    requires
        further(s, t),
    ensures
        again(#[trigger] no_dangling_step(s, rebuilt), #[trigger] no_dangling_step(t, rebuilt)),
{
    broadcast use {stop_left, stop_right, extends_on, in_query_all_step, again_query_all_step};
}

broadcast proof fn again_finish_step(
    s: SessionView, t: SessionView, registry: Registry, config: LocaleConfig, rebuilt:
    Seq<Seq<char>>,
)
    requires
        further(s, t),
    ensures
        again(
            #[trigger] finish_step(s, registry, config, rebuilt),
            #[trigger] finish_step(t, registry, config, rebuilt),
        ),
{
    broadcast use {
        stop_left, stop_right, extends_on, in_conversions_step, in_sync_indexes_from,
        in_no_dangling_step, again_conversions_step, again_sync_indexes_from,
        again_no_dangling_step,
    };
}

broadcast proof fn again_sync_body_step(
    s: SessionView, t: SessionView, registry: Registry, config: LocaleConfig, rebuilt:
    Seq<Seq<char>>,
)
    requires
        further(s, t),
    ensures
        again(
            #[trigger] sync_body_step(s, registry, config, rebuilt),
            #[trigger] sync_body_step(t, registry, config, rebuilt),
        ),
{
    broadcast use {
        stop_left, stop_right, extends_on, in_prepare_step, in_finish_step, again_prepare_step,
        again_finish_step,
    };
}

pub(crate) broadcast proof fn on_locked_sync_step(
    s: SessionView, registry: Registry, config: LocaleConfig, rebuilt: Seq<Seq<char>>,
)
    ensures
        extends(s, (#[trigger] locked_sync_step(s, registry, config, rebuilt)).0),
{
    broadcast use {extends_itself, extends_on, on_lock_step, in_sync_body_step};
}

broadcast proof fn again_locked_sync_step(
    s: SessionView, t: SessionView, registry: Registry, config: LocaleConfig, rebuilt:
    Seq<Seq<char>>,
)
    requires
        further(s, t),
    ensures
        again(
            #[trigger] locked_sync_step(s, registry, config, rebuilt),
            #[trigger] locked_sync_step(t, registry, config, rebuilt),
        ),
{
    broadcast use {
        stop_left, stop_right, extends_on, on_lock_step, in_sync_body_step, again_lock_step,
        again_sync_body_step,
    };
}

pub(crate) broadcast proof fn on_close_step(s: SessionView, result: Result<(), ErrorView>, failed: Seq<char>)
    ensures
        extends(s, (#[trigger] close_step(s, result, failed)).0),
{
    broadcast use {extends_itself, extends_on, on_ask_done};
}

broadcast proof fn again_close_step(
    s: SessionView, t: SessionView, result: Result<(), ErrorView>, failed: Seq<char>,
)
    requires
        further(s, t),
    ensures
        again(#[trigger] close_step(s, result, failed), #[trigger] close_step(t, result, failed)),
{
    broadcast use {stop_left, stop_right, extends_on, on_ask_done, again_ask_done};
}

pub(crate) broadcast proof fn on_run_sync_step(
    s: SessionView, registry: Registry, config: LocaleConfig, rebuilt: Seq<Seq<char>>,
)
    ensures
        extends(s, (#[trigger] run_sync_step(s, registry, config, rebuilt)).0),
{
    broadcast use {extends_itself, extends_on, on_begin_step, on_locked_sync_step, on_close_step};
}

broadcast proof fn again_run_sync_step(
    s: SessionView, t: SessionView, registry: Registry, config: LocaleConfig, rebuilt:
    Seq<Seq<char>>,
)
    requires
        further(s, t),
    ensures
        again(
            #[trigger] run_sync_step(s, registry, config, rebuilt),
            #[trigger] run_sync_step(t, registry, config, rebuilt),
        ),
{
    broadcast use {
        stop_left, stop_right, extends_on, on_begin_step, on_locked_sync_step, on_close_step,
        again_begin_step, again_locked_sync_step, again_close_step,
    };
}

pub(crate) broadcast proof fn on_foreign_keys_step(s: SessionView, on: bool)
    ensures
        extends(s, (#[trigger] foreign_keys_step(s, on)).0),
{
    broadcast use {extends_itself, extends_on, in_batch_step};
}

broadcast proof fn again_foreign_keys_step(s: SessionView, t: SessionView, on: bool)
    requires
        further(s, t),
    ensures
        again(#[trigger] foreign_keys_step(s, on), #[trigger] foreign_keys_step(t, on)),
{
    broadcast use {stop_left, stop_right, extends_on, in_batch_step, again_batch_step};
}

pub(crate) broadcast proof fn on_restore_step(s: SessionView, result: Result<(), ErrorView>)
    ensures
        extends(s, (#[trigger] restore_step(s, result)).0),
{
    broadcast use {extends_itself, extends_on, on_foreign_keys_step, on_reported};
}

broadcast proof fn again_restore_step(s: SessionView, t: SessionView, result: Result<(), ErrorView>)
    requires
        further(s, t),
    ensures
        again(#[trigger] restore_step(s, result), #[trigger] restore_step(t, result)),
{
    broadcast use {
        stop_left, stop_right, extends_on, on_foreign_keys_step, on_reported,
        again_foreign_keys_step, again_reported,
    };
}

pub(crate) broadcast proof fn on_sync_with_rebuilds_step(
    s: SessionView, registry: Registry, config: LocaleConfig, rebuilt: Seq<Seq<char>>,
)
    ensures
        extends(s, (#[trigger] sync_with_rebuilds_step(s, registry, config, rebuilt)).0),
{
    broadcast use {
        extends_itself, extends_on, on_foreign_keys_step, on_run_sync_step, on_restore_step,
    };
}

broadcast proof fn again_sync_with_rebuilds_step(
    s: SessionView, t: SessionView, registry: Registry, config: LocaleConfig, rebuilt:
    Seq<Seq<char>>,
)
    requires
        further(s, t),
    ensures
        again(
            #[trigger] sync_with_rebuilds_step(s, registry, config, rebuilt),
            #[trigger] sync_with_rebuilds_step(t, registry, config, rebuilt),
        ),
{
    broadcast use {
        stop_left, stop_right, extends_on, on_foreign_keys_step, on_run_sync_step, on_restore_step,
        again_foreign_keys_step, again_run_sync_step, again_restore_step,
    };
}

pub(crate) broadcast proof fn on_sync_all_step(s: SessionView, registry: Registry, config: LocaleConfig)
    ensures
        extends(s, (#[trigger] sync_all_step(s, registry, config)).0),
{
    broadcast use {
        extends_itself, extends_on, on_connect_step, on_pending_rebuilds_step, on_run_sync_step,
        on_sync_with_rebuilds_step,
    };
}

broadcast proof fn again_sync_all_step(
    s: SessionView, t: SessionView, registry: Registry, config: LocaleConfig,
)
    requires
        further(s, t),
    ensures
        again(
            #[trigger] sync_all_step(s, registry, config),
            #[trigger] sync_all_step(t, registry, config),
        ),
{
    broadcast use {
        stop_left, stop_right, extends_on, on_connect_step, on_pending_rebuilds_step,
        on_run_sync_step, on_sync_with_rebuilds_step, again_connect_step,
        again_pending_rebuilds_step, again_run_sync_step, again_sync_with_rebuilds_step,
    };
}

broadcast proof fn again_drop_tables_from(
    s: SessionView, t: SessionView, tables: Seq<Seq<char>>, i: int,
)
    requires
        further(s, t),
    ensures
        again(#[trigger] drop_tables_from(s, tables, i), #[trigger] drop_tables_from(t, tables, i)),
    decreases tables.len() - i,
{
    broadcast use {
        stop_left, stop_right, extends_on, in_execute_step, on_noted, in_drop_tables_from,
        again_execute_step, again_noted,
    };

    if 0 <= i < tables.len() {
        let (t1, r) = within(
            execute_step(t, "DROP TABLE IF EXISTS \""@ + tables[i] + "\""@, Seq::empty()),
            "Failed to drop table "@ + tables[i],
        );
        match r {
            Err(e) => {},
            Ok(_) => in_drop_tables_from(t1.noted("Dropped table: "@ + tables[i]), tables, i + 1),
        }
    }

    if 0 <= i < tables.len() {
        let (s1, r) = within(
            execute_step(s, "DROP TABLE IF EXISTS \""@ + tables[i] + "\""@, Seq::empty()),
            "Failed to drop table "@ + tables[i],
        );
        let (t1, _) = within(
            execute_step(t, "DROP TABLE IF EXISTS \""@ + tables[i] + "\""@, Seq::empty()),
            "Failed to drop table "@ + tables[i],
        );
        match r {
            Err(e) => {},
            Ok(_) => {
                in_drop_tables_from(s1.noted("Dropped table: "@ + tables[i]), tables, i + 1);
                if further(s1.noted("Dropped table: "@ + tables[i]), t1.noted("Dropped table: "@ + tables[i])) {
                    again_drop_tables_from(s1.noted("Dropped table: "@ + tables[i]), t1.noted("Dropped table: "@ + tables[i]), tables, i + 1);
                }
            },
        }
    }
}

broadcast proof fn again_drop_tables_step(s: SessionView, t: SessionView)
    requires
        further(s, t),
    ensures
        again(#[trigger] drop_tables_step(s), #[trigger] drop_tables_step(t)),
{
    broadcast use {
        stop_left, stop_right, extends_on, in_user_tables_step, in_drop_tables_from,
        again_user_tables_step, again_drop_tables_from,
    };
}

broadcast proof fn again_locked_recreate_step(
    s: SessionView, t: SessionView, registry: Registry, config: LocaleConfig,
)
    requires
        further(s, t),
    ensures
        again(
            #[trigger] locked_recreate_step(s, registry, config),
            #[trigger] locked_recreate_step(t, registry, config),
        ),
{
    broadcast use {
        stop_left, stop_right, extends_on, on_lock_step, in_drop_tables_step, in_sync_body_step,
        again_lock_step, again_drop_tables_step, again_sync_body_step,
    };
}

pub(crate) broadcast proof fn on_recreate_all_step(s: SessionView, registry: Registry, config: LocaleConfig)
    ensures
        extends(s, (#[trigger] recreate_all_step(s, registry, config)).0),
{
    broadcast use {
        extends_itself, extends_on, on_connect_step, on_begin_step, in_locked_recreate_step,
        on_close_step,
    };
}

broadcast proof fn again_recreate_all_step(
    s: SessionView, t: SessionView, registry: Registry, config: LocaleConfig,
)
    requires
        further(s, t),
    ensures
        again(
            #[trigger] recreate_all_step(s, registry, config),
            #[trigger] recreate_all_step(t, registry, config),
        ),
{
    broadcast use {
        stop_left, stop_right, extends_on, on_connect_step, on_begin_step, in_locked_recreate_step,
        on_close_step, again_connect_step, again_begin_step, again_locked_recreate_step,
        again_close_step,
    };
}

pub(crate) broadcast proof fn on_may_overlay_step(s: SessionView, p: FullReadView)
    ensures
        extends(s, (#[trigger] may_overlay_step(s, p)).0),
{
    broadcast use {extends_itself, extends_on, on_ask_flag};
}

broadcast proof fn again_may_overlay_step(s: SessionView, t: SessionView, p: FullReadView)
    requires
        further(s, t),
    ensures
        again(#[trigger] may_overlay_step(s, p), #[trigger] may_overlay_step(t, p)),
{
    broadcast use {stop_left, stop_right, extends_on, on_ask_flag, again_ask_flag};
}

pub(crate) broadcast proof fn on_ask_version(s: SessionView, request: RequestView)
    ensures
        extends(s, (#[trigger] ask_version(s, request)).0),
{
    assert(s.sent =~= ask_version(s, request).0.sent.take(s.sent.len() as int));
    assert(s.warnings =~= s.warnings.take(s.warnings.len() as int));
}

broadcast proof fn again_ask_version(s: SessionView, t: SessionView, request: RequestView)
    requires
        further(s, t),
    ensures
        again(#[trigger] ask_version(s, request), #[trigger] ask_version(t, request)),
{
}

pub(crate) broadcast proof fn on_ask_text(s: SessionView, request: RequestView)
    ensures
        extends(s, (#[trigger] ask_text(s, request)).0),
{
    assert(s.sent =~= ask_text(s, request).0.sent.take(s.sent.len() as int));
    assert(s.warnings =~= s.warnings.take(s.warnings.len() as int));
}

broadcast proof fn again_ask_text(s: SessionView, t: SessionView, request: RequestView)
    requires
        further(s, t),
    ensures
        again(#[trigger] ask_text(s, request), #[trigger] ask_text(t, request)),
{
}

pub(crate) broadcast proof fn on_serve_draft_step(s: SessionView, doc: DocumentView, p: FullReadView)
    ensures
        extends(s, (#[trigger] serve_draft_step(s, doc, p)).0),
{
    broadcast use {extends_itself, extends_on, on_ask_flag, on_ask_text};
}

broadcast proof fn again_serve_draft_step(
    s: SessionView, t: SessionView, doc: DocumentView, p: FullReadView,
)
    requires
        further(s, t),
    ensures
        again(#[trigger] serve_draft_step(s, doc, p), #[trigger] serve_draft_step(t, doc, p)),
{
    broadcast use {
        stop_left, stop_right, extends_on, on_ask_flag, on_ask_text, again_ask_flag, again_ask_text,
    };
}

pub(crate) broadcast proof fn on_overlay_step(s: SessionView, p: FullReadView)
    ensures
        extends(s, (#[trigger] overlay_step(s, p)).0),
{
    broadcast use {
        extends_itself, extends_on, on_may_overlay_step, on_ask_version, on_serve_draft_step,
    };
}

broadcast proof fn again_overlay_step(s: SessionView, t: SessionView, p: FullReadView)
    requires
        further(s, t),
    ensures
        again(#[trigger] overlay_step(s, p), #[trigger] overlay_step(t, p)),
{
    broadcast use {
        stop_left, stop_right, extends_on, on_may_overlay_step, on_ask_version, on_serve_draft_step,
        again_may_overlay_step, again_ask_version, again_serve_draft_step,
    };
}

pub(crate) broadcast proof fn on_ask_document(s: SessionView, request: RequestView)
    ensures
        extends(s, (#[trigger] ask_document(s, request)).0),
{
    assert(s.sent =~= ask_document(s, request).0.sent.take(s.sent.len() as int));
    assert(s.warnings =~= s.warnings.take(s.warnings.len() as int));
}

broadcast proof fn again_ask_document(s: SessionView, t: SessionView, request: RequestView)
    requires
        further(s, t),
    ensures
        again(#[trigger] ask_document(s, request), #[trigger] ask_document(t, request)),
{
}

pub(crate) broadcast proof fn on_ask_documents(s: SessionView, request: RequestView)
    ensures
        extends(s, (#[trigger] ask_documents(s, request)).0),
{
    assert(s.sent =~= ask_documents(s, request).0.sent.take(s.sent.len() as int));
    assert(s.warnings =~= s.warnings.take(s.warnings.len() as int));
}

broadcast proof fn again_ask_documents(s: SessionView, t: SessionView, request: RequestView)
    requires
        further(s, t),
    ensures
        again(#[trigger] ask_documents(s, request), #[trigger] ask_documents(t, request)),
{
}

pub(crate) broadcast proof fn on_row_step(s: SessionView, p: FullReadView)
    ensures
        extends(s, (#[trigger] row_step(s, p)).0),
{
    broadcast use {extends_itself, extends_on, on_ask_document, on_ask_documents};
}

broadcast proof fn again_row_step(s: SessionView, t: SessionView, p: FullReadView)
    requires
        further(s, t),
    ensures
        again(#[trigger] row_step(s, p), #[trigger] row_step(t, p)),
{
    broadcast use {
        stop_left, stop_right, extends_on, on_ask_document, on_ask_documents, again_ask_document,
        again_ask_documents,
    };
}

pub(crate) broadcast proof fn on_full_row_step(s: SessionView, p: FullReadView)
    ensures
        extends(s, (#[trigger] full_row_step(s, p)).0),
{
    broadcast use {extends_itself, extends_on, on_row_step, on_ask_document};
}

broadcast proof fn again_full_row_step(s: SessionView, t: SessionView, p: FullReadView)
    requires
        further(s, t),
    ensures
        again(#[trigger] full_row_step(s, p), #[trigger] full_row_step(t, p)),
{
    broadcast use {
        stop_left, stop_right, extends_on, on_row_step, on_ask_document, again_row_step,
        again_ask_document,
    };
}

pub(crate) broadcast proof fn on_find_by_id_full_step(s: SessionView, p: FullReadView)
    ensures
        extends(s, (#[trigger] find_by_id_full_step(s, p)).0),
{
    broadcast use {extends_itself, extends_on, on_overlay_step, on_full_row_step};
}

broadcast proof fn again_find_by_id_full_step(s: SessionView, t: SessionView, p: FullReadView)
    requires
        further(s, t),
    ensures
        again(#[trigger] find_by_id_full_step(s, p), #[trigger] find_by_id_full_step(t, p)),
{
    broadcast use {
        stop_left, stop_right, extends_on, on_overlay_step, on_full_row_step, again_overlay_step,
        again_full_row_step,
    };
}

pub(crate) broadcast proof fn on_recorded_step(s: SessionView, table: Seq<char>)
    ensures
        extends(s, (#[trigger] recorded_step(s, table)).0),
{
    broadcast use {extends_itself, extends_on, in_meta_get_step};
}

broadcast proof fn again_recorded_step(s: SessionView, t: SessionView, table: Seq<char>)
    requires
        further(s, t),
    ensures
        again(#[trigger] recorded_step(s, table), #[trigger] recorded_step(t, table)),
{
    broadcast use {stop_left, stop_right, extends_on, in_meta_get_step, again_meta_get_step};
}

pub(crate) broadcast proof fn on_was_per_locale_step(s: SessionView, table: Seq<char>, recorded: Option<bool>)
    ensures
        extends(s, (#[trigger] was_per_locale_step(s, table, recorded)).0),
{
    broadcast use {extends_itself, extends_on, in_table_exists_step, in_table_columns_step};
}

broadcast proof fn again_was_per_locale_step(
    s: SessionView, t: SessionView, table: Seq<char>, recorded: Option<bool>,
)
    requires
        further(s, t),
    ensures
        again(
            #[trigger] was_per_locale_step(s, table, recorded),
            #[trigger] was_per_locale_step(t, table, recorded),
        ),
{
    broadcast use {
        stop_left, stop_right, extends_on, in_table_exists_step, in_table_columns_step,
        again_table_exists_step, again_table_columns_step,
    };
}

pub(crate) broadcast proof fn on_keep_default_step(s: SessionView, table: Seq<char>, default_locale: Seq<char>)
    ensures
        extends(s, (#[trigger] keep_default_step(s, table, default_locale)).0),
{
    broadcast use {extends_itself, extends_on, on_ask_names, on_ask_count, on_noted};
}

broadcast proof fn again_keep_default_step(
    s: SessionView, t: SessionView, table: Seq<char>, default_locale: Seq<char>,
)
    requires
        further(s, t),
    ensures
        again(
            #[trigger] keep_default_step(s, table, default_locale),
            #[trigger] keep_default_step(t, table, default_locale),
        ),
{
    broadcast use {
        stop_left, stop_right, extends_on, on_ask_names, on_ask_count, on_noted, again_ask_names,
        again_ask_count, again_noted,
    };
}

pub(crate) broadcast proof fn on_narrow_step(
    s: SessionView, table: Seq<char>, recorded: Option<bool>, default_locale: Seq<char>,
)
    ensures
        extends(s, (#[trigger] narrow_step(s, table, recorded, default_locale)).0),
{
    broadcast use {
        extends_itself, extends_on, on_was_per_locale_step, on_keep_default_step, on_ask_done,
    };
}

broadcast proof fn again_narrow_step(
    s: SessionView, t: SessionView, table: Seq<char>, recorded: Option<bool>, default_locale:
    Seq<char>,
)
    requires
        further(s, t),
    ensures
        again(
            #[trigger] narrow_step(s, table, recorded, default_locale),
            #[trigger] narrow_step(t, table, recorded, default_locale),
        ),
{
    broadcast use {
        stop_left, stop_right, extends_on, on_was_per_locale_step, on_keep_default_step,
        on_ask_done, again_was_per_locale_step, again_keep_default_step, again_ask_done,
    };
}

pub(crate) broadcast proof fn on_sync_locale_rows_step(
    s: SessionView, table: Seq<char>, per_locale: bool, default_locale: Seq<char>,
)
    ensures
        extends(s, (#[trigger] sync_locale_rows_step(s, table, per_locale, default_locale)).0),
{
    broadcast use {
        extends_itself, extends_on, on_recorded_step, on_narrow_step, in_meta_upsert_step,
    };
}

broadcast proof fn again_sync_locale_rows_step(
    s: SessionView, t: SessionView, table: Seq<char>, per_locale: bool, default_locale: Seq<char>,
)
    requires
        further(s, t),
    ensures
        again(
            #[trigger] sync_locale_rows_step(s, table, per_locale, default_locale),
            #[trigger] sync_locale_rows_step(t, table, per_locale, default_locale),
        ),
{
    broadcast use {
        stop_left, stop_right, extends_on, on_recorded_step, on_narrow_step, in_meta_upsert_step,
        again_recorded_step, again_narrow_step, again_meta_upsert_step,
    };
}

pub(crate) broadcast proof fn on_pg_constraints_step(s: SessionView, table: Seq<char>, kind: ConstraintKind)
    ensures
        extends(s, (#[trigger] pg_constraints_step(s, table, kind)).0),
{
    broadcast use {extends_itself, extends_on, in_query_all_step};
}

broadcast proof fn again_pg_constraints_step(
    s: SessionView, t: SessionView, table: Seq<char>, kind: ConstraintKind,
)
    requires
        further(s, t),
    ensures
        again(
            #[trigger] pg_constraints_step(s, table, kind),
            #[trigger] pg_constraints_step(t, table, kind),
        ),
{
    broadcast use {stop_left, stop_right, extends_on, in_query_all_step, again_query_all_step};
}

pub(crate) broadcast proof fn on_sqlite_primary_key_step(s: SessionView, table: Seq<char>)
    ensures
        extends(s, (#[trigger] sqlite_primary_key_step(s, table)).0),
{
    broadcast use {extends_itself, extends_on, in_query_all_step};
}

broadcast proof fn again_sqlite_primary_key_step(s: SessionView, t: SessionView, table: Seq<char>)
    requires
        further(s, t),
    ensures
        again(
            #[trigger] sqlite_primary_key_step(s, table),
            #[trigger] sqlite_primary_key_step(t, table),
        ),
{
    broadcast use {stop_left, stop_right, extends_on, in_query_all_step, again_query_all_step};
}

pub(crate) broadcast proof fn on_index_columns_from(
    s: SessionView, names: Seq<Seq<char>>, i: int, done: Seq<ConstraintView>,
)
    ensures
        extends(s, (#[trigger] index_columns_from(s, names, i, done)).0),
    decreases names.len() - i,
{
    broadcast use {extends_itself, extends_on, in_query_all_step};

    if 0 <= i < names.len() {
        let (s1, rows) = query_all_step(
            s,
            "SELECT name FROM pragma_index_info(?1) ORDER BY seqno"@,
            seq![DbValueView::Text(names[i])],
        );
        match rows {
            Err(e) => {},
            Ok(rows) => on_index_columns_from(
                s1,
                names,
                i + 1,
                done.push(ConstraintView { name: names[i], columns: texts_in_column(rows, 0) }),
            ),
        }
    }
}

broadcast proof fn again_index_columns_from(
    s: SessionView, t: SessionView, names: Seq<Seq<char>>, i: int, done: Seq<ConstraintView>,
)
    requires
        further(s, t),
    ensures
        again(
            #[trigger] index_columns_from(s, names, i, done),
            #[trigger] index_columns_from(t, names, i, done),
        ),
    decreases names.len() - i,
{
    broadcast use {
        stop_left, stop_right, extends_on, in_query_all_step, on_index_columns_from,
        again_query_all_step,
    };

    if 0 <= i < names.len() {
        let (t1, rows) = query_all_step(
            t,
            "SELECT name FROM pragma_index_info(?1) ORDER BY seqno"@,
            seq![DbValueView::Text(names[i])],
        );
        match rows {
            Err(e) => {},
            Ok(rows) => on_index_columns_from(
                t1,
                names,
                i + 1,
                done.push(ConstraintView { name: names[i], columns: texts_in_column(rows, 0) }),
            ),
        }
    }

    if 0 <= i < names.len() {
        let (s1, rows) = query_all_step(
            s,
            "SELECT name FROM pragma_index_info(?1) ORDER BY seqno"@,
            seq![DbValueView::Text(names[i])],
        );
        let (t1, _) = query_all_step(
            t,
            "SELECT name FROM pragma_index_info(?1) ORDER BY seqno"@,
            seq![DbValueView::Text(names[i])],
        );
        match rows {
            Err(e) => {},
            Ok(rows) => {
                on_index_columns_from(
                    s1,
                    names,
                    i + 1,
                    done.push(ConstraintView { name: names[i], columns: texts_in_column(rows, 0) }),
                );
                if further(s1, t1) {
                    again_index_columns_from(
                        s1,
                        t1,
                        names,
                        i + 1,
                        done.push(ConstraintView { name: names[i], columns: texts_in_column(rows, 0) }),
                    );
                }
            },
        }
    }
}

pub(crate) broadcast proof fn on_sqlite_inline_unique_step(s: SessionView, table: Seq<char>)
    ensures
        extends(s, (#[trigger] sqlite_inline_unique_step(s, table)).0),
{
    broadcast use {extends_itself, extends_on, in_query_all_step, on_index_columns_from};
}

broadcast proof fn again_sqlite_inline_unique_step(s: SessionView, t: SessionView, table: Seq<char>)
    requires
        further(s, t),
    ensures
        again(
            #[trigger] sqlite_inline_unique_step(s, table),
            #[trigger] sqlite_inline_unique_step(t, table),
        ),
{
    broadcast use {
        stop_left, stop_right, extends_on, in_query_all_step, on_index_columns_from,
        again_query_all_step, again_index_columns_from,
    };
}

pub(crate) broadcast proof fn on_table_constraints_step(s: SessionView, table: Seq<char>, kind: ConstraintKind)
    ensures
        extends(s, (#[trigger] table_constraints_step(s, table, kind)).0),
{
    broadcast use {
        extends_itself, extends_on, on_pg_constraints_step, on_sqlite_primary_key_step,
        on_sqlite_inline_unique_step,
    };
}

broadcast proof fn again_table_constraints_step(
    s: SessionView, t: SessionView, table: Seq<char>, kind: ConstraintKind,
)
    requires
        further(s, t),
    ensures
        again(
            #[trigger] table_constraints_step(s, table, kind),
            #[trigger] table_constraints_step(t, table, kind),
        ),
{
    broadcast use {
        stop_left, stop_right, extends_on, on_pg_constraints_step, on_sqlite_primary_key_step,
        on_sqlite_inline_unique_step, again_pg_constraints_step, again_sqlite_primary_key_step,
        again_sqlite_inline_unique_step,
    };
}

pub(crate) broadcast proof fn on_ddl_step(s: SessionView, sql: Seq<char>)
    ensures
        extends(s, (#[trigger] ddl_step(s, sql)).0),
{
    broadcast use {extends_itself, extends_on, in_execute_step};
}

broadcast proof fn again_ddl_step(s: SessionView, t: SessionView, sql: Seq<char>)
    requires
        further(s, t),
    ensures
        again(#[trigger] ddl_step(s, sql), #[trigger] ddl_step(t, sql)),
{
    broadcast use {stop_left, stop_right, extends_on, in_execute_step, again_execute_step};
}

pub(crate) broadcast proof fn on_add_target_column_step(
    s: SessionView, table: Seq<char>, shape: JunctionShapeView,
)
    ensures
        extends(s, (#[trigger] add_target_column_step(s, table, shape)).0),
{
    broadcast use {extends_itself, extends_on, in_table_columns_step, on_ddl_step};
}

broadcast proof fn again_add_target_column_step(
    s: SessionView, t: SessionView, table: Seq<char>, shape: JunctionShapeView,
)
    requires
        further(s, t),
    ensures
        again(
            #[trigger] add_target_column_step(s, table, shape),
            #[trigger] add_target_column_step(t, table, shape),
        ),
{
    broadcast use {
        stop_left, stop_right, extends_on, in_table_columns_step, on_ddl_step,
        again_table_columns_step, again_ddl_step,
    };
}

pub(crate) broadcast proof fn on_ensure_locale_column_step(
    s: SessionView, table: Seq<char>, default_locale: Seq<char>,
)
    ensures
        extends(s, (#[trigger] ensure_locale_column_step(s, table, default_locale)).0),
{
    broadcast use {extends_itself, extends_on, in_table_columns_step, on_ddl_step, on_noted};
}

broadcast proof fn again_ensure_locale_column_step(
    s: SessionView, t: SessionView, table: Seq<char>, default_locale: Seq<char>,
)
    requires
        further(s, t),
    ensures
        again(
            #[trigger] ensure_locale_column_step(s, table, default_locale),
            #[trigger] ensure_locale_column_step(t, table, default_locale),
        ),
{
    broadcast use {
        stop_left, stop_right, extends_on, in_table_columns_step, on_ddl_step, on_noted,
        again_table_columns_step, again_ddl_step, again_noted,
    };
}

pub(crate) broadcast proof fn on_add_locale_column_step(
    s: SessionView, table: Seq<char>, shape: JunctionShapeView,
)
    ensures
        extends(s, (#[trigger] add_locale_column_step(s, table, shape)).0),
{
    broadcast use {extends_itself, extends_on, on_ensure_locale_column_step};
}

broadcast proof fn again_add_locale_column_step(
    s: SessionView, t: SessionView, table: Seq<char>, shape: JunctionShapeView,
)
    requires
        further(s, t),
    ensures
        again(
            #[trigger] add_locale_column_step(s, table, shape),
            #[trigger] add_locale_column_step(t, table, shape),
        ),
{
    broadcast use {
        stop_left, stop_right, extends_on, on_ensure_locale_column_step,
        again_ensure_locale_column_step,
    };
}

pub(crate) broadcast proof fn on_drop_constraints_from(
    s: SessionView, table: Seq<char>, keys: Seq<ConstraintView>, i: int,
)
    ensures
        extends(s, (#[trigger] drop_constraints_from(s, table, keys, i)).0),
    decreases keys.len() - i,
{
    broadcast use {extends_itself, extends_on, on_ddl_step};

    if 0 <= i < keys.len() {
        let (s1, r) = ddl_step(
            s,
            "ALTER TABLE "@ + quoted(table) + " DROP CONSTRAINT "@ + quoted(keys[i].name),
        );
        match r {
            Err(e) => {},
            Ok(_) => on_drop_constraints_from(s1, table, keys, i + 1),
        }
    }
}

broadcast proof fn again_drop_constraints_from(
    s: SessionView, t: SessionView, table: Seq<char>, keys: Seq<ConstraintView>, i: int,
)
    requires
        further(s, t),
    ensures
        again(
            #[trigger] drop_constraints_from(s, table, keys, i),
            #[trigger] drop_constraints_from(t, table, keys, i),
        ),
    decreases keys.len() - i,
{
    broadcast use {
        stop_left, stop_right, extends_on, on_ddl_step, on_drop_constraints_from, again_ddl_step,
    };

    if 0 <= i < keys.len() {
        let (t1, r) = ddl_step(
            t,
            "ALTER TABLE "@ + quoted(table) + " DROP CONSTRAINT "@ + quoted(keys[i].name),
        );
        match r {
            Err(e) => {},
            Ok(_) => on_drop_constraints_from(t1, table, keys, i + 1),
        }
    }

    if 0 <= i < keys.len() {
        let (s1, r) = ddl_step(
            s,
            "ALTER TABLE "@ + quoted(table) + " DROP CONSTRAINT "@ + quoted(keys[i].name),
        );
        let (t1, _) = ddl_step(
            t,
            "ALTER TABLE "@ + quoted(table) + " DROP CONSTRAINT "@ + quoted(keys[i].name),
        );
        match r {
            Err(e) => {},
            Ok(_) => {
                on_drop_constraints_from(s1, table, keys, i + 1);
                if further(s1, t1) {
                    again_drop_constraints_from(s1, t1, table, keys, i + 1);
                }
            },
        }
    }
}

pub(crate) broadcast proof fn on_replace_key_step(s: SessionView, table: Seq<char>, shape: JunctionShapeView)
    ensures
        extends(s, (#[trigger] replace_key_step(s, table, shape)).0),
{
    broadcast use {
        extends_itself, extends_on, on_table_constraints_step, on_drop_constraints_from,
        on_ddl_step,
    };
}

broadcast proof fn again_replace_key_step(
    s: SessionView, t: SessionView, table: Seq<char>, shape: JunctionShapeView,
)
    requires
        further(s, t),
    ensures
        again(
            #[trigger] replace_key_step(s, table, shape),
            #[trigger] replace_key_step(t, table, shape),
        ),
{
    broadcast use {
        stop_left, stop_right, extends_on, on_table_constraints_step, on_drop_constraints_from,
        on_ddl_step, again_table_constraints_step, again_drop_constraints_from, again_ddl_step,
    };
}

pub(crate) broadcast proof fn on_rekey_step(s: SessionView, table: Seq<char>, shape: JunctionShapeView)
    ensures
        extends(s, (#[trigger] rekey_step(s, table, shape)).0),
{
    broadcast use {
        extends_itself, extends_on, on_add_target_column_step, on_add_locale_column_step,
        on_replace_key_step,
    };
}

broadcast proof fn again_rekey_step(
    s: SessionView, t: SessionView, table: Seq<char>, shape: JunctionShapeView,
)
    requires
        further(s, t),
    ensures
        again(#[trigger] rekey_step(s, table, shape), #[trigger] rekey_step(t, table, shape)),
{
    broadcast use {
        stop_left, stop_right, extends_on, on_add_target_column_step, on_add_locale_column_step,
        on_replace_key_step, again_add_target_column_step, again_add_locale_column_step,
        again_replace_key_step,
    };
}

pub(crate) broadcast proof fn on_rebuild_step(
    s: SessionView, table: Seq<char>, collection: Seq<char>, shape: JunctionShapeView,
)
    ensures
        extends(s, (#[trigger] rebuild_step(s, table, collection, shape)).0),
{
    broadcast use {
        extends_itself, extends_on, in_table_columns_step, in_batch_ddl_step, in_batch_step,
    };
}

broadcast proof fn again_rebuild_step(
    s: SessionView, t: SessionView, table: Seq<char>, collection: Seq<char>, shape:
    JunctionShapeView,
)
    requires
        further(s, t),
    ensures
        again(
            #[trigger] rebuild_step(s, table, collection, shape),
            #[trigger] rebuild_step(t, table, collection, shape),
        ),
{
    broadcast use {
        stop_left, stop_right, extends_on, in_table_columns_step, in_batch_ddl_step, in_batch_step,
        again_table_columns_step, again_batch_ddl_step, again_batch_step,
    };
}

pub(crate) broadcast proof fn on_reconcile_step(
    s: SessionView, table: Seq<char>, collection: Seq<char>, shape: JunctionShapeView,
)
    ensures
        extends(s, (#[trigger] reconcile_step(s, table, collection, shape)).0),
{
    broadcast use {
        extends_itself, extends_on, on_table_constraints_step, on_rekey_step, on_rebuild_step,
        on_noted,
    };
}

broadcast proof fn again_reconcile_step(
    s: SessionView, t: SessionView, table: Seq<char>, collection: Seq<char>, shape:
    JunctionShapeView,
)
    requires
        further(s, t),
    ensures
        again(
            #[trigger] reconcile_step(s, table, collection, shape),
            #[trigger] reconcile_step(t, table, collection, shape),
        ),
{
    broadcast use {
        stop_left, stop_right, extends_on, on_table_constraints_step, on_rekey_step,
        on_rebuild_step, on_noted, again_table_constraints_step, again_rekey_step,
        again_rebuild_step, again_noted,
    };
}

pub(crate) broadcast proof fn on_create_junction_step(
    s: SessionView, table: Seq<char>, collection: Seq<char>, shape: JunctionShapeView,
)
    ensures
        extends(s, (#[trigger] create_junction_step(s, table, collection, shape)).0),
{
    broadcast use {extends_itself, extends_on, on_ddl_step, on_noted};
}

broadcast proof fn again_create_junction_step(
    s: SessionView, t: SessionView, table: Seq<char>, collection: Seq<char>, shape:
    JunctionShapeView,
)
    requires
        further(s, t),
    ensures
        again(
            #[trigger] create_junction_step(s, table, collection, shape),
            #[trigger] create_junction_step(t, table, collection, shape),
        ),
{
    broadcast use {
        stop_left, stop_right, extends_on, on_ddl_step, on_noted, again_ddl_step, again_noted,
    };
}

pub(crate) broadcast proof fn on_junction_ddl_step(
    s: SessionView, table: Seq<char>, collection: Seq<char>, shape: JunctionShapeView,
)
    ensures
        extends(s, (#[trigger] junction_ddl_step(s, table, collection, shape)).0),
{
    broadcast use {
        extends_itself, extends_on, in_table_exists_step, on_reconcile_step,
        on_create_junction_step,
    };
}

broadcast proof fn again_junction_ddl_step(
    s: SessionView, t: SessionView, table: Seq<char>, collection: Seq<char>, shape:
    JunctionShapeView,
)
    requires
        further(s, t),
    ensures
        again(
            #[trigger] junction_ddl_step(s, table, collection, shape),
            #[trigger] junction_ddl_step(t, table, collection, shape),
        ),
{
    broadcast use {
        stop_left, stop_right, extends_on, in_table_exists_step, on_reconcile_step,
        on_create_junction_step, again_table_exists_step, again_reconcile_step,
        again_create_junction_step,
    };
}

pub(crate) broadcast proof fn on_row_count_step(s: SessionView, table: Seq<char>)
    ensures
        extends(s, (#[trigger] row_count_step(s, table)).0),
{
    broadcast use {extends_itself, extends_on, in_query_one_step};
}

broadcast proof fn again_row_count_step(s: SessionView, t: SessionView, table: Seq<char>)
    requires
        further(s, t),
    ensures
        again(#[trigger] row_count_step(s, table), #[trigger] row_count_step(t, table)),
{
    broadcast use {stop_left, stop_right, extends_on, in_query_one_step, again_query_one_step};
}

pub(crate) broadcast proof fn on_warn_repointed_step(
    s: SessionView, table: Seq<char>, previous: Seq<char>, now: Seq<char>,
)
    ensures
        extends(s, (#[trigger] warn_repointed_step(s, table, previous, now)).0),
{
    broadcast use {extends_itself, extends_on, on_row_count_step, on_warned};
}

broadcast proof fn again_warn_repointed_step(
    s: SessionView, t: SessionView, table: Seq<char>, previous: Seq<char>, now: Seq<char>,
)
    requires
        further(s, t),
    ensures
        again(
            #[trigger] warn_repointed_step(s, table, previous, now),
            #[trigger] warn_repointed_step(t, table, previous, now),
        ),
{
    broadcast use {
        stop_left, stop_right, extends_on, on_row_count_step, on_warned, again_row_count_step,
        again_warned,
    };
}

pub(crate) broadcast proof fn on_track_target_step(s: SessionView, table: Seq<char>, rc: RelationshipConfig)
    ensures
        extends(s, (#[trigger] track_target_step(s, table, rc)).0),
{
    broadcast use {
        extends_itself, extends_on, in_meta_get_step, in_meta_upsert_step, on_warn_repointed_step,
    };
}

broadcast proof fn again_track_target_step(
    s: SessionView, t: SessionView, table: Seq<char>, rc: RelationshipConfig,
)
    requires
        further(s, t),
    ensures
        again(
            #[trigger] track_target_step(s, table, rc),
            #[trigger] track_target_step(t, table, rc),
        ),
{
    broadcast use {
        stop_left, stop_right, extends_on, in_meta_get_step, in_meta_upsert_step,
        on_warn_repointed_step, again_meta_get_step, again_meta_upsert_step,
        again_warn_repointed_step,
    };
}

pub(crate) broadcast proof fn on_sync_relationship_step(
    s: SessionView, collection: Seq<char>, relationship: Option<RelationshipConfig>, full_name:
    Seq<char>, has_locale_col: bool, config: LocaleConfig,
)
    ensures
        extends(
            s,
            (#[trigger] sync_relationship_step(s, collection, relationship, full_name, has_locale_col, config)).0,
        ),
{
    broadcast use {extends_itself, extends_on, on_junction_ddl_step, on_track_target_step};
}

broadcast proof fn again_sync_relationship_step(
    s: SessionView, t: SessionView, collection: Seq<char>, relationship: Option<RelationshipConfig>,
    full_name: Seq<char>, has_locale_col: bool, config: LocaleConfig,
)
    requires
        further(s, t),
    ensures
        again(
            #[trigger] sync_relationship_step(s, collection, relationship, full_name, has_locale_col, config),
            #[trigger] sync_relationship_step(t, collection, relationship, full_name, has_locale_col, config),
        ),
{
    broadcast use {
        stop_left, stop_right, extends_on, on_junction_ddl_step, on_track_target_step,
        again_junction_ddl_step, again_track_target_step,
    };
}

pub(crate) broadcast proof fn on_ask_types(s: SessionView, request: RequestView)
    ensures
        extends(s, (#[trigger] ask_types(s, request)).0),
{
    assert(s.sent =~= ask_types(s, request).0.sent.take(s.sent.len() as int));
    assert(s.warnings =~= s.warnings.take(s.warnings.len() as int));
}

broadcast proof fn again_ask_types(s: SessionView, t: SessionView, request: RequestView)
    requires
        further(s, t),
    ensures
        again(#[trigger] ask_types(s, request), #[trigger] ask_types(t, request)),
{
}

pub(crate) broadcast proof fn on_table_column_types_step(s: SessionView, table: Seq<char>)
    ensures
        extends(s, (#[trigger] table_column_types_step(s, table)).0),
{
    broadcast use {extends_itself, extends_on, on_ask_types, in_query_all_step};
}

broadcast proof fn again_table_column_types_step(s: SessionView, t: SessionView, table: Seq<char>)
    requires
        further(s, t),
    ensures
        again(
            #[trigger] table_column_types_step(s, table),
            #[trigger] table_column_types_step(t, table),
        ),
{
    broadcast use {
        stop_left, stop_right, extends_on, on_ask_types, in_query_all_step, again_ask_types,
        again_query_all_step,
    };
}

pub(crate) broadcast proof fn on_reconcile_scalar_list_step(
    s: SessionView, table: Seq<char>, col_name: Seq<char>, types: Seq<(Seq<char>, Seq<char>)>,
)
    ensures
        extends(s, (#[trigger] reconcile_scalar_list_step(s, table, col_name, types)).0),
{
    broadcast use {extends_itself, extends_on, on_ddl_step, on_noted};
}

broadcast proof fn again_reconcile_scalar_list_step(
    s: SessionView, t: SessionView, table: Seq<char>, col_name: Seq<char>, types: Seq<(Seq<char>,
    Seq<char>)>,
)
    requires
        further(s, t),
    ensures
        again(
            #[trigger] reconcile_scalar_list_step(s, table, col_name, types),
            #[trigger] reconcile_scalar_list_step(t, table, col_name, types),
        ),
{
    broadcast use {
        stop_left, stop_right, extends_on, on_ddl_step, on_noted, again_ddl_step, again_noted,
    };
}

pub(crate) broadcast proof fn on_reconcile_sub_step(
    s: SessionView, table: Seq<char>, field: FieldDefinition, existing: Seq<Seq<char>>, types:
    Seq<(Seq<char>, Seq<char>)>,
)
    ensures
        extends(s, (#[trigger] reconcile_sub_step(s, table, field, existing, types)).0),
{
    broadcast use {extends_itself, extends_on, on_reconcile_scalar_list_step};
}

broadcast proof fn again_reconcile_sub_step(
    s: SessionView, t: SessionView, table: Seq<char>, field: FieldDefinition, existing:
    Seq<Seq<char>>, types: Seq<(Seq<char>, Seq<char>)>,
)
    requires
        further(s, t),
    ensures
        again(
            #[trigger] reconcile_sub_step(s, table, field, existing, types),
            #[trigger] reconcile_sub_step(t, table, field, existing, types),
        ),
{
    broadcast use {
        stop_left, stop_right, extends_on, on_reconcile_scalar_list_step,
        again_reconcile_scalar_list_step,
    };
}

pub(crate) broadcast proof fn on_add_column_step(
    s: SessionView, table: Seq<char>, col_name: Seq<char>, col_def: Seq<char>, existing:
    Seq<Seq<char>>,
)
    ensures
        extends(s, (#[trigger] add_column_step(s, table, col_name, col_def, existing)).0),
{
    broadcast use {extends_itself, extends_on, on_ddl_step, on_noted};
}

broadcast proof fn again_add_column_step(
    s: SessionView, t: SessionView, table: Seq<char>, col_name: Seq<char>, col_def: Seq<char>,
    existing: Seq<Seq<char>>,
)
    requires
        further(s, t),
    ensures
        again(
            #[trigger] add_column_step(s, table, col_name, col_def, existing),
            #[trigger] add_column_step(t, table, col_name, col_def, existing),
        ),
{
    broadcast use {
        stop_left, stop_right, extends_on, on_ddl_step, on_noted, again_ddl_step, again_noted,
    };
}

pub(crate) broadcast proof fn on_add_companions_from(
    s: SessionView, table: Seq<char>, companions: Seq<Seq<char>>, existing: Seq<Seq<char>>, i: int,
)
    ensures
        extends(s, (#[trigger] add_companions_from(s, table, companions, existing, i)).0),
    decreases companions.len() - i,
{
    broadcast use {extends_itself, extends_on, on_add_column_step};

    if 0 <= i < companions.len() {
        let (s1, r) = add_column_step(
            s,
            table,
            companions[i],
            companion_def(companions[i]),
            existing,
        );
        match r {
            Err(e) => {},
            Ok(_) => on_add_companions_from(s1, table, companions, existing, i + 1),
        }
    }
}

broadcast proof fn again_add_companions_from(
    s: SessionView, t: SessionView, table: Seq<char>, companions: Seq<Seq<char>>, existing:
    Seq<Seq<char>>, i: int,
)
    requires
        further(s, t),
    ensures
        again(
            #[trigger] add_companions_from(s, table, companions, existing, i),
            #[trigger] add_companions_from(t, table, companions, existing, i),
        ),
    decreases companions.len() - i,
{
    broadcast use {
        stop_left, stop_right, extends_on, on_add_column_step, on_add_companions_from,
        again_add_column_step,
    };

    if 0 <= i < companions.len() {
        let (t1, r) = add_column_step(
            t,
            table,
            companions[i],
            companion_def(companions[i]),
            existing,
        );
        match r {
            Err(e) => {},
            Ok(_) => on_add_companions_from(t1, table, companions, existing, i + 1),
        }
    }

    if 0 <= i < companions.len() {
        let (s1, r) = add_column_step(
            s,
            table,
            companions[i],
            companion_def(companions[i]),
            existing,
        );
        let (t1, _) = add_column_step(
            t,
            table,
            companions[i],
            companion_def(companions[i]),
            existing,
        );
        match r {
            Err(e) => {},
            Ok(_) => {
                on_add_companions_from(s1, table, companions, existing, i + 1);
                if further(s1, t1) {
                    again_add_companions_from(s1, t1, table, companions, existing, i + 1);
                }
            },
        }
    }
}

pub(crate) broadcast proof fn on_alter_sub_step(
    s: SessionView, table: Seq<char>, field: FieldDefinition, existing: Seq<Seq<char>>, types:
    Seq<(Seq<char>, Seq<char>)>,
)
    ensures
        extends(s, (#[trigger] alter_sub_step(s, table, field, existing, types)).0),
{
    broadcast use {
        extends_itself, extends_on, on_reconcile_sub_step, on_add_column_step,
        on_add_companions_from,
    };
}

broadcast proof fn again_alter_sub_step(
    s: SessionView, t: SessionView, table: Seq<char>, field: FieldDefinition, existing:
    Seq<Seq<char>>, types: Seq<(Seq<char>, Seq<char>)>,
)
    requires
        further(s, t),
    ensures
        again(
            #[trigger] alter_sub_step(s, table, field, existing, types),
            #[trigger] alter_sub_step(t, table, field, existing, types),
        ),
{
    broadcast use {
        stop_left, stop_right, extends_on, on_reconcile_sub_step, on_add_column_step,
        on_add_companions_from, again_reconcile_sub_step, again_add_column_step,
        again_add_companions_from,
    };
}

pub(crate) broadcast proof fn on_alter_subs_from(
    s: SessionView, table: Seq<char>, subs: Seq<FieldDefinition>, existing: Seq<Seq<char>>, types:
    Seq<(Seq<char>, Seq<char>)>, i: int,
)
    ensures
        extends(s, (#[trigger] alter_subs_from(s, table, subs, existing, types, i)).0),
    decreases subs.len() - i,
{
    broadcast use {extends_itself, extends_on, on_alter_sub_step};

    if 0 <= i < subs.len() {
        let (s1, r) = alter_sub_step(s, table, subs[i], existing, types);
        match r {
            Err(e) => {},
            Ok(_) => on_alter_subs_from(s1, table, subs, existing, types, i + 1),
        }
    }
}

broadcast proof fn again_alter_subs_from(
    s: SessionView, t: SessionView, table: Seq<char>, subs: Seq<FieldDefinition>, existing:
    Seq<Seq<char>>, types: Seq<(Seq<char>, Seq<char>)>, i: int,
)
    requires
        further(s, t),
    ensures
        again(
            #[trigger] alter_subs_from(s, table, subs, existing, types, i),
            #[trigger] alter_subs_from(t, table, subs, existing, types, i),
        ),
    decreases subs.len() - i,
{
    broadcast use {
        stop_left, stop_right, extends_on, on_alter_sub_step, on_alter_subs_from,
        again_alter_sub_step,
    };

    if 0 <= i < subs.len() {
        let (t1, r) = alter_sub_step(t, table, subs[i], existing, types);
        match r {
            Err(e) => {},
            Ok(_) => on_alter_subs_from(t1, table, subs, existing, types, i + 1),
        }
    }

    if 0 <= i < subs.len() {
        let (s1, r) = alter_sub_step(s, table, subs[i], existing, types);
        let (t1, _) = alter_sub_step(t, table, subs[i], existing, types);
        match r {
            Err(e) => {},
            Ok(_) => {
                on_alter_subs_from(s1, table, subs, existing, types, i + 1);
                if further(s1, t1) {
                    again_alter_subs_from(s1, t1, table, subs, existing, types, i + 1);
                }
            },
        }
    }
}

pub(crate) broadcast proof fn on_alter_array_step(s: SessionView, table: Seq<char>, subs: Seq<FieldDefinition>)
    ensures
        extends(s, (#[trigger] alter_array_step(s, table, subs)).0),
{
    broadcast use {
        extends_itself, extends_on, in_table_columns_step, on_table_column_types_step,
        on_alter_subs_from,
    };
}

broadcast proof fn again_alter_array_step(
    s: SessionView, t: SessionView, table: Seq<char>, subs: Seq<FieldDefinition>,
)
    requires
        further(s, t),
    ensures
        again(
            #[trigger] alter_array_step(s, table, subs),
            #[trigger] alter_array_step(t, table, subs),
        ),
{
    broadcast use {
        stop_left, stop_right, extends_on, in_table_columns_step, on_table_column_types_step,
        on_alter_subs_from, again_table_columns_step, again_table_column_types_step,
        again_alter_subs_from,
    };
}

pub(crate) broadcast proof fn on_update_array_step(
    s: SessionView, table: Seq<char>, subs: Seq<FieldDefinition>, locale: Option<Seq<char>>,
)
    ensures
        extends(s, (#[trigger] update_array_step(s, table, subs, locale)).0),
{
    broadcast use {extends_itself, extends_on, on_alter_array_step, on_ensure_locale_column_step};
}

broadcast proof fn again_update_array_step(
    s: SessionView, t: SessionView, table: Seq<char>, subs: Seq<FieldDefinition>, locale:
    Option<Seq<char>>,
)
    requires
        further(s, t),
    ensures
        again(
            #[trigger] update_array_step(s, table, subs, locale),
            #[trigger] update_array_step(t, table, subs, locale),
        ),
{
    broadcast use {
        stop_left, stop_right, extends_on, on_alter_array_step, on_ensure_locale_column_step,
        again_alter_array_step, again_ensure_locale_column_step,
    };
}

pub(crate) broadcast proof fn on_create_array_step(
    s: SessionView, table: Seq<char>, collection: Seq<char>, subs: Seq<FieldDefinition>, locale:
    Option<Seq<char>>,
)
    ensures
        extends(s, (#[trigger] create_array_step(s, table, collection, subs, locale)).0),
{
    broadcast use {extends_itself, extends_on, on_ddl_step, on_noted};
}

broadcast proof fn again_create_array_step(
    s: SessionView, t: SessionView, table: Seq<char>, collection: Seq<char>, subs:
    Seq<FieldDefinition>, locale: Option<Seq<char>>,
)
    requires
        further(s, t),
    ensures
        again(
            #[trigger] create_array_step(s, table, collection, subs, locale),
            #[trigger] create_array_step(t, table, collection, subs, locale),
        ),
{
    broadcast use {
        stop_left, stop_right, extends_on, on_ddl_step, on_noted, again_ddl_step, again_noted,
    };
}

pub(crate) broadcast proof fn on_array_ddl_step(
    s: SessionView, table: Seq<char>, collection: Seq<char>, subs: Seq<FieldDefinition>, locale:
    Option<Seq<char>>,
)
    ensures
        extends(s, (#[trigger] array_ddl_step(s, table, collection, subs, locale)).0),
{
    broadcast use {
        extends_itself, extends_on, in_table_exists_step, on_update_array_step,
        on_create_array_step,
    };
}

broadcast proof fn again_array_ddl_step(
    s: SessionView, t: SessionView, table: Seq<char>, collection: Seq<char>, subs:
    Seq<FieldDefinition>, locale: Option<Seq<char>>,
)
    requires
        further(s, t),
    ensures
        again(
            #[trigger] array_ddl_step(s, table, collection, subs, locale),
            #[trigger] array_ddl_step(t, table, collection, subs, locale),
        ),
{
    broadcast use {
        stop_left, stop_right, extends_on, in_table_exists_step, on_update_array_step,
        on_create_array_step, again_table_exists_step, again_update_array_step,
        again_create_array_step,
    };
}

pub(crate) broadcast proof fn on_index_names_step(s: SessionView, table: Seq<char>, prefix: Seq<char>)
    ensures
        extends(s, (#[trigger] index_names_step(s, table, prefix)).0),
{
    broadcast use {extends_itself, extends_on, on_ask_names, in_query_all_step};
}

broadcast proof fn again_index_names_step(
    s: SessionView, t: SessionView, table: Seq<char>, prefix: Seq<char>,
)
    requires
        further(s, t),
    ensures
        again(
            #[trigger] index_names_step(s, table, prefix),
            #[trigger] index_names_step(t, table, prefix),
        ),
{
    broadcast use {
        stop_left, stop_right, extends_on, on_ask_names, in_query_all_step, again_ask_names,
        again_query_all_step,
    };
}

pub(crate) broadcast proof fn on_drop_indexes_from(
    s: SessionView, names: Seq<Seq<char>>, keep: Seq<char>, i: int,
)
    ensures
        extends(s, (#[trigger] drop_indexes_from(s, names, keep, i)).0),
    decreases names.len() - i,
{
    broadcast use {extends_itself, extends_on, on_ddl_step};

    if i < 0 || i >= names.len() {
    } else if names[i] == keep {
        on_drop_indexes_from(s, names, keep, i + 1)
    } else {
        let (s1, r) = within(
            ddl_step(s, "DROP INDEX IF EXISTS "@ + quoted(names[i])),
            "Failed to drop index "@ + names[i],
        );
        match r {
            Err(e) => {},
            Ok(_) => on_drop_indexes_from(s1, names, keep, i + 1),
        }
    }
}

broadcast proof fn again_drop_indexes_from(
    s: SessionView, t: SessionView, names: Seq<Seq<char>>, keep: Seq<char>, i: int,
)
    requires
        further(s, t),
    ensures
        again(
            #[trigger] drop_indexes_from(s, names, keep, i),
            #[trigger] drop_indexes_from(t, names, keep, i),
        ),
    decreases names.len() - i,
{
    broadcast use {
        stop_left, stop_right, extends_on, on_ddl_step, on_drop_indexes_from, again_ddl_step,
    };

    if i < 0 || i >= names.len() {
    } else if names[i] == keep {
        on_drop_indexes_from(t, names, keep, i + 1)
    } else {
        let (t1, r) = within(
            ddl_step(t, "DROP INDEX IF EXISTS "@ + quoted(names[i])),
            "Failed to drop index "@ + names[i],
        );
        match r {
            Err(e) => {},
            Ok(_) => on_drop_indexes_from(t1, names, keep, i + 1),
        }
    }

    if i < 0 || i >= names.len() {
    } else if names[i] == keep {
        on_drop_indexes_from(s, names, keep, i + 1);
        if further(s, t) {
            again_drop_indexes_from(s, t, names, keep, i + 1);
        }
    } else {
        let (s1, r) = within(
            ddl_step(s, "DROP INDEX IF EXISTS "@ + quoted(names[i])),
            "Failed to drop index "@ + names[i],
        );
        let (t1, _) = within(
            ddl_step(t, "DROP INDEX IF EXISTS "@ + quoted(names[i])),
            "Failed to drop index "@ + names[i],
        );
        match r {
            Err(e) => {},
            Ok(_) => {
                on_drop_indexes_from(s1, names, keep, i + 1);
                if further(s1, t1) {
                    again_drop_indexes_from(s1, t1, names, keep, i + 1);
                }
            },
        }
    }
}

pub(crate) broadcast proof fn on_drop_prefixed_step(
    s: SessionView, table: Seq<char>, prefix: Seq<char>, keep: Seq<char>,
)
    ensures
        extends(s, (#[trigger] drop_prefixed_step(s, table, prefix, keep)).0),
{
    broadcast use {extends_itself, extends_on, on_index_names_step, on_drop_indexes_from};
}

broadcast proof fn again_drop_prefixed_step(
    s: SessionView, t: SessionView, table: Seq<char>, prefix: Seq<char>, keep: Seq<char>,
)
    requires
        further(s, t),
    ensures
        again(
            #[trigger] drop_prefixed_step(s, table, prefix, keep),
            #[trigger] drop_prefixed_step(t, table, prefix, keep),
        ),
{
    broadcast use {
        stop_left, stop_right, extends_on, on_index_names_step, on_drop_indexes_from,
        again_index_names_step, again_drop_indexes_from,
    };
}

pub(crate) broadcast proof fn on_drop_other_step(s: SessionView, table: Seq<char>, keep: Seq<char>)
    ensures
        extends(s, (#[trigger] drop_other_step(s, table, keep)).0),
{
    broadcast use {extends_itself, extends_on, on_drop_prefixed_step};
}

broadcast proof fn again_drop_other_step(
    s: SessionView, t: SessionView, table: Seq<char>, keep: Seq<char>,
)
    requires
        further(s, t),
    ensures
        again(
            #[trigger] drop_other_step(s, table, keep),
            #[trigger] drop_other_step(t, table, keep),
        ),
{
    broadcast use {
        stop_left, stop_right, extends_on, on_drop_prefixed_step, again_drop_prefixed_step,
    };
}

pub(crate) broadcast proof fn on_parent_index_sync_index_step(
    s: SessionView, table: Seq<char>, localized: bool, name: Seq<char>,
)
    ensures
        extends(s, (#[trigger] parent_index::sync_index_step(s, table, localized, name)).0),
{
    broadcast use {extends_itself, extends_on, on_drop_other_step, on_ddl_step};
}

broadcast proof fn again_parent_index_sync_index_step(
    s: SessionView, t: SessionView, table: Seq<char>, localized: bool, name: Seq<char>,
)
    requires
        further(s, t),
    ensures
        again(
            #[trigger] parent_index::sync_index_step(s, table, localized, name),
            #[trigger] parent_index::sync_index_step(t, table, localized, name),
        ),
{
    broadcast use {
        stop_left, stop_right, extends_on, on_drop_other_step, on_ddl_step, again_drop_other_step,
        again_ddl_step,
    };
}

pub(crate) broadcast proof fn on_sync_array_step(
    s: SessionView, collection: Seq<char>, field: FieldDefinition, full_name: Seq<char>,
    has_locale_col: bool, config: LocaleConfig,
)
    ensures
        extends(
            s,
            (#[trigger] sync_array_step(s, collection, field, full_name, has_locale_col, config)).0,
        ),
{
    broadcast use {extends_itself, extends_on, on_array_ddl_step, on_parent_index_sync_index_step};
}

broadcast proof fn again_sync_array_step(
    s: SessionView, t: SessionView, collection: Seq<char>, field: FieldDefinition, full_name:
    Seq<char>, has_locale_col: bool, config: LocaleConfig,
)
    requires
        further(s, t),
    ensures
        again(
            #[trigger] sync_array_step(s, collection, field, full_name, has_locale_col, config),
            #[trigger] sync_array_step(t, collection, field, full_name, has_locale_col, config),
        ),
{
    broadcast use {
        stop_left, stop_right, extends_on, on_array_ddl_step, on_parent_index_sync_index_step,
        again_array_ddl_step, again_parent_index_sync_index_step,
    };
}

pub(crate) broadcast proof fn on_blocks_ddl_step(
    s: SessionView, table: Seq<char>, collection: Seq<char>, locale: Option<Seq<char>>,
)
    ensures
        extends(s, (#[trigger] blocks_ddl_step(s, table, collection, locale)).0),
{
    broadcast use {
        extends_itself, extends_on, in_table_exists_step, on_ddl_step, on_ensure_locale_column_step,
        on_noted,
    };
}

broadcast proof fn again_blocks_ddl_step(
    s: SessionView, t: SessionView, table: Seq<char>, collection: Seq<char>, locale:
    Option<Seq<char>>,
)
    requires
        further(s, t),
    ensures
        again(
            #[trigger] blocks_ddl_step(s, table, collection, locale),
            #[trigger] blocks_ddl_step(t, table, collection, locale),
        ),
{
    broadcast use {
        stop_left, stop_right, extends_on, in_table_exists_step, on_ddl_step,
        on_ensure_locale_column_step, on_noted, again_table_exists_step, again_ddl_step,
        again_ensure_locale_column_step, again_noted,
    };
}

pub(crate) broadcast proof fn on_sync_blocks_step(
    s: SessionView, collection: Seq<char>, full_name: Seq<char>, has_locale_col: bool, config:
    LocaleConfig,
)
    ensures
        extends(
            s,
            (#[trigger] sync_blocks_step(s, collection, full_name, has_locale_col, config)).0,
        ),
{
    broadcast use {extends_itself, extends_on, on_blocks_ddl_step, on_parent_index_sync_index_step};
}

broadcast proof fn again_sync_blocks_step(
    s: SessionView, t: SessionView, collection: Seq<char>, full_name: Seq<char>, has_locale_col:
    bool, config: LocaleConfig,
)
    requires
        further(s, t),
    ensures
        again(
            #[trigger] sync_blocks_step(s, collection, full_name, has_locale_col, config),
            #[trigger] sync_blocks_step(t, collection, full_name, has_locale_col, config),
        ),
{
    broadcast use {
        stop_left, stop_right, extends_on, on_blocks_ddl_step, on_parent_index_sync_index_step,
        again_blocks_ddl_step, again_parent_index_sync_index_step,
    };
}

pub(crate) broadcast proof fn on_plan_ddl_step(
    s: SessionView, collection: Seq<char>, plan: PlanView, config: LocaleConfig,
)
    ensures
        extends(s, (#[trigger] plan_ddl_step(s, collection, plan, config)).0),
{
    broadcast use {
        extends_itself, extends_on, on_sync_relationship_step, on_sync_array_step,
        on_sync_blocks_step,
    };
}

broadcast proof fn again_plan_ddl_step(
    s: SessionView, t: SessionView, collection: Seq<char>, plan: PlanView, config: LocaleConfig,
)
    requires
        further(s, t),
    ensures
        again(
            #[trigger] plan_ddl_step(s, collection, plan, config),
            #[trigger] plan_ddl_step(t, collection, plan, config),
        ),
{
    broadcast use {
        stop_left, stop_right, extends_on, on_sync_relationship_step, on_sync_array_step,
        on_sync_blocks_step, again_sync_relationship_step, again_sync_array_step,
        again_sync_blocks_step,
    };
}

pub(crate) broadcast proof fn on_plan_step(
    s: SessionView, collection: Seq<char>, plan: PlanView, config: LocaleConfig,
)
    ensures
        extends(s, (#[trigger] plan_step(s, collection, plan, config)).0),
{
    broadcast use {extends_itself, extends_on, on_sync_locale_rows_step, on_plan_ddl_step};
}

broadcast proof fn again_plan_step(
    s: SessionView, t: SessionView, collection: Seq<char>, plan: PlanView, config: LocaleConfig,
)
    requires
        further(s, t),
    ensures
        again(
            #[trigger] plan_step(s, collection, plan, config),
            #[trigger] plan_step(t, collection, plan, config),
        ),
{
    broadcast use {
        stop_left, stop_right, extends_on, on_sync_locale_rows_step, on_plan_ddl_step,
        again_sync_locale_rows_step, again_plan_ddl_step,
    };
}

pub(crate) broadcast proof fn on_plans_from(
    s: SessionView, collection: Seq<char>, plans: Seq<PlanView>, config: LocaleConfig, i: int,
)
    ensures
        extends(s, (#[trigger] plans_from(s, collection, plans, config, i)).0),
    decreases plans.len() - i,
{
    broadcast use {extends_itself, extends_on, on_plan_step};

    if 0 <= i < plans.len() {
        let (s1, r) = plan_step(s, collection, plans[i], config);
        match r {
            Err(e) => {},
            Ok(_) => on_plans_from(s1, collection, plans, config, i + 1),
        }
    }
}

broadcast proof fn again_plans_from(
    s: SessionView, t: SessionView, collection: Seq<char>, plans: Seq<PlanView>, config:
    LocaleConfig, i: int,
)
    requires
        further(s, t),
    ensures
        again(
            #[trigger] plans_from(s, collection, plans, config, i),
            #[trigger] plans_from(t, collection, plans, config, i),
        ),
    decreases plans.len() - i,
{
    broadcast use {stop_left, stop_right, extends_on, on_plan_step, on_plans_from, again_plan_step};

    if 0 <= i < plans.len() {
        let (t1, r) = plan_step(t, collection, plans[i], config);
        match r {
            Err(e) => {},
            Ok(_) => on_plans_from(t1, collection, plans, config, i + 1),
        }
    }

    if 0 <= i < plans.len() {
        let (s1, r) = plan_step(s, collection, plans[i], config);
        let (t1, _) = plan_step(t, collection, plans[i], config);
        match r {
            Err(e) => {},
            Ok(_) => {
                on_plans_from(s1, collection, plans, config, i + 1);
                if further(s1, t1) {
                    again_plans_from(s1, t1, collection, plans, config, i + 1);
                }
            },
        }
    }
}

pub(crate) broadcast proof fn on_sync_join_tables_step(
    s: SessionView, collection: Seq<char>, fields: Seq<FieldDefinition>, config: LocaleConfig,
)
    ensures
        extends(s, (#[trigger] sync_join_tables_step(s, collection, fields, config)).0),
{
    broadcast use {extends_itself, extends_on, on_plans_from};
}

broadcast proof fn again_sync_join_tables_step(
    s: SessionView, t: SessionView, collection: Seq<char>, fields: Seq<FieldDefinition>, config:
    LocaleConfig,
)
    requires
        further(s, t),
    ensures
        again(
            #[trigger] sync_join_tables_step(s, collection, fields, config),
            #[trigger] sync_join_tables_step(t, collection, fields, config),
        ),
{
    broadcast use {stop_left, stop_right, extends_on, on_plans_from, again_plans_from};
}

/// A sync may be run again and again.
pub proof fn a_sync_is_steady(registry: Registry, config: LocaleConfig)
    ensures
        steady(|s: SessionView| sync_all_step(s, registry, config)),
{
    let operation = |s: SessionView| sync_all_step(s, registry, config);
    assert forall|s: SessionView| extends(s, (#[trigger] operation(s)).0) by {
        on_sync_all_step(s, registry, config);
    }
    assert forall|s: SessionView, t: SessionView| further(s, t) implies again(
        #[trigger] operation(s),
        #[trigger] operation(t),
    ) by {
        again_sync_all_step(s, t, registry, config);
    }
}

/// So may a recreation.
pub proof fn a_recreation_is_steady(registry: Registry, config: LocaleConfig)
    ensures
        steady(|s: SessionView| recreate_all_step(s, registry, config)),
{
    let operation = |s: SessionView| recreate_all_step(s, registry, config);
    assert forall|s: SessionView| extends(s, (#[trigger] operation(s)).0) by {
        on_recreate_all_step(s, registry, config);
    }
    assert forall|s: SessionView, t: SessionView| further(s, t) implies again(
        #[trigger] operation(s),
        #[trigger] operation(t),
    ) by {
        again_recreate_all_step(s, t, registry, config);
    }
}

/// So may a read of a document.
pub proof fn a_read_is_steady(p: FullReadView)
    ensures
        steady(|s: SessionView| find_by_id_full_step(s, p)),
{
    let operation = |s: SessionView| find_by_id_full_step(s, p);
    assert forall|s: SessionView| extends(s, (#[trigger] operation(s)).0) by {
        on_find_by_id_full_step(s, p);
    }
    assert forall|s: SessionView, t: SessionView| further(s, t) implies again(
        #[trigger] operation(s),
        #[trigger] operation(t),
    ) by {
        again_find_by_id_full_step(s, t, p);
    }
}

/// So may a sync of the tables of rows.
pub proof fn a_sync_of_rows_is_steady(
    collection: Seq<char>,
    fields: Seq<FieldDefinition>,
    config: LocaleConfig,
)
    ensures
        steady(|s: SessionView| sync_join_tables_step(s, collection, fields, config)),
{
    let operation = |s: SessionView| sync_join_tables_step(s, collection, fields, config);
    assert forall|s: SessionView| extends(s, (#[trigger] operation(s)).0) by {
        on_sync_join_tables_step(s, collection, fields, config);
    }
    assert forall|s: SessionView, t: SessionView| further(s, t) implies again(
        #[trigger] operation(s),
        #[trigger] operation(t),
    ) by {
        again_sync_join_tables_step(s, t, collection, fields, config);
    }
}

} // verus!
