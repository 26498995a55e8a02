//! A sync, as a whole: what it does to every definition, in which order, and inside what.
use crate::definition::{CollectionDefinition, GlobalDefinition, LocaleConfig, Registry};
use crate::migrate::meta;
use crate::migrate::helpers::introspection::{
    table_columns_step, table_exists_step, user_tables_step,
};
use crate::migrate::identifier_check::identifier_checks;
use crate::migrate::legacy_timestamps::normalize_step;
use crate::migrate::locale_change::{default_locale_step, warn_default_step};
use crate::migrate::nested_values::convert_step;
use crate::migrate::orphan_tables::{find_orphans_step, known, warn_orphans_step};
use crate::migrate::reference_cardinality::carry_step;
use crate::migrate::search_index::sync_indexes_from;
use crate::migrate::sync::{
    check_all_step, check_collections_from, conversions_step, dangling, finish_step,
    foreign_keys_sql, foreign_keys_step, global_checks_from, locked_sync_step, no_dangling_step,
    pending_rebuilds_step, prepare_step, rebuilds_from, restore_step, run_sync_step, sync_all_step,
    sync_body_step, sync_collections_from, sync_globals_from,
};
use crate::migrate::system_tables::system_tables_step;
use crate::migrate::transaction::{
    in_carry_step, in_check_collections_from, in_conversions_step, in_convert_step,
    in_default_locale_step, in_finish_step, in_meta_get_step, in_meta_upsert_step,
    in_no_dangling_step, in_normalize_step, in_orphans_from, in_prepare_step, in_sync_body_step,
    in_sync_collections_from, in_sync_globals_from, in_sync_indexes_from, in_system_tables_step,
    in_warn_default_step, in_warn_orphans_step, in_warned_of_tables,
};
use crate::order::{deduped, deduped_holds_the_same, sorted, sorted_holds_the_same};
use crate::pool::connect_step;
use crate::promises::{
    answered, between, between_asked, between_wider, on_record, on_record_wider,
    parameters_are_counted_from_one, record_removed,
};
use crate::promises::conversions::{
    every_old_timestamp_is_rewritten, timestamps_kept, timestamps_kept_wider,
};
use crate::promises::lookups::{a_table_is_looked_for, asks_for_tables, told_missing, told_there};
use crate::promises::nested::{all_nested_kept, all_nested_kept_wider, every_nested_value_is_typed};
use crate::promises::records::{what_is_read_is_on_record, what_is_stored_is_on_record};
use crate::promises::references::{
    all_references_kept, all_references_kept_wider, every_reference_is_kept,
};
use crate::promises::search::{every_index_is_kept, index_kept, index_kept_wider};
use crate::promises::system::{system_made, system_made_wider, the_library_has_its_tables};
use crate::replay::{
    extends_itself, extends_on, on_ask_done, on_pending_rebuilds_step, on_rebuilds_from,
};
use crate::session::{Dialect, ReplyView, RequestView, SessionView, extends};
use crate::text::join;
use crate::value::{DbRowView, ErrorView};
use vstd::prelude::*;

verus! {

/// The stages of a sync, from the `i`-th request on and before the `j`-th, and what is
/// done in each: the library's own tables; the check of every collection's index names,
/// and of those of all together (`names`); the columns of checkboxes (`columns`) and the
/// tables of every collection and of every global; a retired record removed (`retired`)
/// and the tables listed; the references carried; the reference counts (`counts`); the
/// timestamps; the lists
/// (`lists`); the values in rows; the texts (`texts`); the locales recorded; and the
/// search index of every collection.
pub open spec fn stages(
    s: SessionView,
    i: int,
    j: int,
    registry: Registry,
    config: LocaleConfig,
    names: int,
    columns: int,
    retired: int,
    counts: int,
    lists: int,
    texts: int,
) -> bool {
    &&& 0 <= i <= names < columns < retired < counts < lists < texts < j <= s.sent.len()
    &&& system_made(s, i, names)
    &&& forall|c: int|
        0 <= c < registry.collections@.len() ==> between(
            s,
            i,
            names,
            RequestView::CheckIndexNames { slug: (#[trigger] registry.collections@[c]).slug@ },
        )
    &&& s.sent[names] == RequestView::CheckIndexNameCollisions
    &&& s.sent[columns] == RequestView::MigrateCheckboxColumns
    &&& forall|c: int|
        0 <= c < registry.collections@.len() ==> between(
            s,
            columns,
            retired,
            RequestView::SyncCollection { slug: (#[trigger] registry.collections@[c]).slug@ },
        )
    &&& forall|g: int|
        0 <= g < registry.globals@.len() ==> between(
            s,
            columns,
            retired,
            RequestView::SyncGlobal { slug: (#[trigger] registry.globals@[g]).slug@ },
        )
    &&& s.sent[retired] == record_removed(s.dialect, "ref_count_backfilled"@)
    &&& between(s, retired, counts, asks_for_tables(s.dialect))
    &&& all_references_kept(s, retired, counts, registry, config)
    &&& s.sent[counts] == RequestView::BackfillRefCounts
    &&& s.dialect == Dialect::Sqlite ==> timestamps_kept(s, counts, lists, registry)
    &&& s.sent[lists] == RequestView::NormalizeLists
    &&& all_nested_kept(s, lists, texts, registry)
    &&& s.sent[texts] == RequestView::CanonicalizeText
    &&& on_record(
        s,
        texts,
        j,
        "locale_config"@,
        config.default_locale@ + ";"@ + join(config.locales.deep_view(), ","@),
    )
    &&& forall|c: int|
        0 <= c < registry.collections@.len() ==> index_kept(
            s,
            texts,
            j,
            (#[trigger] registry.collections@[c]).slug@,
        )
}

/// Whether every stage of a sync was gone through, in order.
#[verifier::opaque]
pub open spec fn synced(
    s: SessionView,
    i: int,
    j: int,
    registry: Registry,
    config: LocaleConfig,
) -> bool {
    exists|names: int, columns: int, retired: int, counts: int, lists: int, texts: int|
        #[trigger] stages(
            s,
            i,
            j,
            registry,
            config,
            names,
            columns,
            retired,
            counts,
            lists,
            texts,
        )
}

proof fn index_names_are_checked(
    s: SessionView,
    collections: Seq<CollectionDefinition>,
    config: LocaleConfig,
    i: int,
    k: int,
)
    requires
        0 <= i <= k < collections.len(),
    ensures
        ({
            let (end, r) = check_collections_from(s, collections, config, i);
            r is Ok ==> between(
                end,
                s.sent.len() as int,
                end.sent.len() as int,
                RequestView::CheckIndexNames { slug: collections[k].slug@ },
            )
        }),
    decreases collections.len() - i,
{
    broadcast use {in_check_collections_from, on_ask_done};

    let (end, r) = check_collections_from(s, collections, config, i);
    if r is Ok {
        let request = RequestView::CheckIndexNames { slug: collections[i].slug@ };
        let s1 = s.asked(request);
        assert(end == check_collections_from(s1, collections, config, i + 1).0);
        assert(extends(s1, end));
        if i == k {
            between_asked(s, end, s.sent.len() as int, end.sent.len() as int, request);
        } else {
            index_names_are_checked(s1, collections, config, i + 1, k);
            between_wider(
                end,
                end,
                s1.sent.len() as int,
                end.sent.len() as int,
                s.sent.len() as int,
                end.sent.len() as int,
                RequestView::CheckIndexNames { slug: collections[k].slug@ },
            );
        }
    }
}

proof fn collections_are_synced(
    s: SessionView,
    collections: Seq<CollectionDefinition>,
    i: int,
    k: int,
)
    requires
        0 <= i <= k < collections.len(),
    ensures
        ({
            let (end, r) = sync_collections_from(s, collections, i);
            r is Ok ==> between(
                end,
                s.sent.len() as int,
                end.sent.len() as int,
                RequestView::SyncCollection { slug: collections[k].slug@ },
            )
        }),
    decreases collections.len() - i,
{
    broadcast use {in_sync_collections_from, on_ask_done};

    let (end, r) = sync_collections_from(s, collections, i);
    if r is Ok {
        let request = RequestView::SyncCollection { slug: collections[i].slug@ };
        let s1 = s.asked(request);
        assert(end == sync_collections_from(s1, collections, i + 1).0);
        assert(extends(s1, end));
        if i == k {
            between_asked(s, end, s.sent.len() as int, end.sent.len() as int, request);
        } else {
            collections_are_synced(s1, collections, i + 1, k);
            between_wider(
                end,
                end,
                s1.sent.len() as int,
                end.sent.len() as int,
                s.sent.len() as int,
                end.sent.len() as int,
                RequestView::SyncCollection { slug: collections[k].slug@ },
            );
        }
    }
}

proof fn globals_are_synced(s: SessionView, globals: Seq<GlobalDefinition>, i: int, k: int)
    requires
        0 <= i <= k < globals.len(),
    ensures
        ({
            let (end, r) = sync_globals_from(s, globals, i);
            r is Ok ==> between(
                end,
                s.sent.len() as int,
                end.sent.len() as int,
                RequestView::SyncGlobal { slug: globals[k].slug@ },
            )
        }),
    decreases globals.len() - i,
{
    broadcast use {in_sync_globals_from, on_ask_done};

    let (end, r) = sync_globals_from(s, globals, i);
    if r is Ok {
        let request = RequestView::SyncGlobal { slug: globals[i].slug@ };
        let s1 = s.asked(request);
        assert(end == sync_globals_from(s1, globals, i + 1).0);
        assert(extends(s1, end));
        if i == k {
            between_asked(s, end, s.sent.len() as int, end.sent.len() as int, request);
        } else {
            globals_are_synced(s1, globals, i + 1, k);
            between_wider(
                end,
                end,
                s1.sent.len() as int,
                end.sent.len() as int,
                s.sent.len() as int,
                end.sent.len() as int,
                RequestView::SyncGlobal { slug: globals[k].slug@ },
            );
        }
    }
}

/// The locales that the content is stored under are on record afterwards.
pub proof fn the_locales_are_recorded(s: SessionView, registry: Registry, config: LocaleConfig)
    ensures
        ({
            let (end, r) = default_locale_step(s, registry, config);
            r is Ok ==> on_record(
                end,
                s.sent.len() as int,
                end.sent.len() as int,
                "locale_config"@,
                config.default_locale@ + ";"@ + join(config.locales.deep_view(), ","@),
            )
        }),
{
    broadcast use {in_meta_get_step, in_meta_upsert_step, in_warn_default_step};

    let (end, r) = default_locale_step(s, registry, config);
    let value = config.default_locale@ + ";"@ + join(config.locales.deep_view(), ","@);
    let key = "locale_config"@;
    if r is Ok {
        let (s1, stored) = meta::get_step(s, key);
        what_is_read_is_on_record(s, key);
        if stored != Ok::<Option<Seq<char>>, ErrorView>(Some(value)) {
            let previous = match stored {
                Ok(Some(fingerprint)) => LocaleConfig::default_of(fingerprint),
                _ => None,
            };
            let s2 = warn_default_step(s1, registry, previous, config.default_locale@).0;
            assert(end == meta::upsert_step(s2, key, value).0);
            assert(extends(s1, s2));
            what_is_stored_is_on_record(s2, key, value);
            on_record_wider(
                end,
                end,
                s2.sent.len() as int,
                end.sent.len() as int,
                s.sent.len() as int,
                end.sent.len() as int,
                key,
                value,
            );
        }
    }
}

/// The earlier stages of a sync.
spec fn early_stages(
    s: SessionView,
    i: int,
    j: int,
    registry: Registry,
    names: int,
    columns: int,
    retired: int,
) -> bool {
    &&& 0 <= i <= names < columns < retired < j <= s.sent.len()
    &&& system_made(s, i, names)
    &&& forall|c: int|
        0 <= c < registry.collections@.len() ==> between(
            s,
            i,
            names,
            RequestView::CheckIndexNames { slug: (#[trigger] registry.collections@[c]).slug@ },
        )
    &&& s.sent[names] == RequestView::CheckIndexNameCollisions
    &&& s.sent[columns] == RequestView::MigrateCheckboxColumns
    &&& forall|c: int|
        0 <= c < registry.collections@.len() ==> between(
            s,
            columns,
            retired,
            RequestView::SyncCollection { slug: (#[trigger] registry.collections@[c]).slug@ },
        )
    &&& forall|g: int|
        0 <= g < registry.globals@.len() ==> between(
            s,
            columns,
            retired,
            RequestView::SyncGlobal { slug: (#[trigger] registry.globals@[g]).slug@ },
        )
    &&& s.sent[retired] == record_removed(s.dialect, "ref_count_backfilled"@)
    &&& between(s, retired, j, asks_for_tables(s.dialect))
}

/// The tables are listed, to tell of those that no definition accounts for.
pub proof fn leftovers_are_looked_for(s: SessionView, registry: Registry)
    ensures
        ({
            let (end, r) = warn_orphans_step(s, registry);
            r is Ok ==> between(
                end,
                s.sent.len() as int,
                end.sent.len() as int,
                asks_for_tables(s.dialect),
            )
        }),
{
    let (end, r) = warn_orphans_step(s, registry);
    if r is Ok {
        let asked = asks_for_tables(s.dialect);
        let (s1, names) = user_tables_step(s);
        assert(s1 == s.asked(asked));
        let (s2, orphans) = find_orphans_step(s, registry);
        in_orphans_from(s1, sorted(names->Ok_0), known(registry), 0, Seq::empty());
        in_warned_of_tables(s2, orphans->Ok_0, 0);
        extends_on(s1, s2, end);
        extends_itself(end);
        between_asked(s, end, s.sent.len() as int, end.sent.len() as int, asked);
    }
}

proof fn early_stages_are_gone_through(
    s: SessionView,
    registry: Registry,
    config: LocaleConfig,
) -> (at: (int, int, int))
    requires
        prepare_step(s, registry, config).1 is Ok,
    ensures
        ({
            let end = prepare_step(s, registry, config).0;
            early_stages(
                end,
                s.sent.len() as int,
                end.sent.len() as int,
                registry,
                at.0,
                at.1,
                at.2,
            )
        }),
{
    broadcast use {
        in_system_tables_step, in_check_collections_from, in_sync_collections_from,
        in_sync_globals_from, in_warn_orphans_step, extends_on, on_ask_done,
    };

    parameters_are_counted_from_one(s.dialect);
    let collections = registry.collections@;
    let globals = registry.globals@;
    let end = prepare_step(s, registry, config).0;
    let first = s.sent.len() as int;
    let s1 = system_tables_step(s).0;
    let s2 = check_collections_from(s1, collections, config, 0).0;
    let s3 = s2.asked(RequestView::CheckIndexNameCollisions);
    let s4 = s3.asked(RequestView::MigrateCheckboxColumns);
    let s5 = sync_collections_from(s4, collections, 0).0;
    let s6 = sync_globals_from(s5, globals, 0).0;
    let gone = record_removed(s.dialect, "ref_count_backfilled"@);
    let s7 = s6.asked(gone);
    assert(end == warn_orphans_step(s7, registry).0);
    leftovers_are_looked_for(s7, registry);
    assert(extends(s2, s3)) by {
        on_ask_done(s2, RequestView::CheckIndexNameCollisions);
    }
    assert(extends(s3, s4)) by {
        on_ask_done(s3, RequestView::MigrateCheckboxColumns);
    }
    assert(extends(s6, s7)) by {
        on_ask_done(s6, gone);
    }
    assert(extends(s7, end));
    assert(extends(s6, end));
    assert(extends(s5, s6));
    assert(extends(s5, end));
    assert(extends(s4, s5));
    assert(extends(s4, end));
    assert(extends(s3, end));
    assert(extends(s2, end));
    assert(extends(s1, s2));
    assert(extends(s1, end));
    let names = s2.sent.len() as int;
    let columns = s3.sent.len() as int;
    let retired = s6.sent.len() as int;
    between_asked(s2, end, 0, names + 1, RequestView::CheckIndexNameCollisions);
    between_asked(s3, end, 0, columns + 1, RequestView::MigrateCheckboxColumns);
    between_asked(s6, end, 0, retired + 1, gone);
    between_wider(
        end,
        end,
        s7.sent.len() as int,
        end.sent.len() as int,
        retired,
        end.sent.len() as int,
        asks_for_tables(s.dialect),
    );
    the_library_has_its_tables(s);
    system_made_wider(s1, end, first, s1.sent.len() as int, first, names);
    assert forall|c: int| 0 <= c < collections.len() implies between(
        end,
        first,
        names,
        RequestView::CheckIndexNames { slug: (#[trigger] collections[c]).slug@ },
    ) by {
        index_names_are_checked(s1, collections, config, 0, c);
        between_wider(
            s2,
            end,
            s1.sent.len() as int,
            names,
            first,
            names,
            RequestView::CheckIndexNames { slug: collections[c].slug@ },
        );
    }
    assert forall|c: int| 0 <= c < collections.len() implies between(
        end,
        columns,
        retired,
        RequestView::SyncCollection { slug: (#[trigger] collections[c]).slug@ },
    ) by {
        collections_are_synced(s4, collections, 0, c);
        between_wider(
            s5,
            end,
            s4.sent.len() as int,
            s5.sent.len() as int,
            columns,
            retired,
            RequestView::SyncCollection { slug: collections[c].slug@ },
        );
    }
    assert forall|g: int| 0 <= g < globals.len() implies between(
        end,
        columns,
        retired,
        RequestView::SyncGlobal { slug: (#[trigger] globals[g]).slug@ },
    ) by {
        globals_are_synced(s5, globals, 0, g);
        between_wider(
            s6,
            end,
            s5.sent.len() as int,
            retired,
            columns,
            retired,
            RequestView::SyncGlobal { slug: globals[g].slug@ },
        );
    }
    (names, columns, retired)
}

/// The later stages of a sync.
spec fn late_stages(
    s: SessionView,
    i: int,
    j: int,
    registry: Registry,
    config: LocaleConfig,
    counts: int,
    lists: int,
    texts: int,
) -> bool {
    &&& 0 <= i <= counts < lists < texts < j <= s.sent.len()
    &&& all_references_kept(s, i, counts, registry, config)
    &&& s.sent[counts] == RequestView::BackfillRefCounts
    &&& s.dialect == Dialect::Sqlite ==> timestamps_kept(s, counts, lists, registry)
    &&& s.sent[lists] == RequestView::NormalizeLists
    &&& all_nested_kept(s, lists, texts, registry)
    &&& s.sent[texts] == RequestView::CanonicalizeText
    &&& on_record(
        s,
        texts,
        j,
        "locale_config"@,
        config.default_locale@ + ";"@ + join(config.locales.deep_view(), ","@),
    )
    &&& forall|c: int|
        0 <= c < registry.collections@.len() ==> index_kept(
            s,
            texts,
            j,
            (#[trigger] registry.collections@[c]).slug@,
        )
}

proof fn late_stages_are_gone_through(
    s: SessionView,
    registry: Registry,
    config: LocaleConfig,
    rebuilt: Seq<Seq<char>>,
) -> (at: (int, int, int))
    requires
        finish_step(s, registry, config, rebuilt).1 is Ok,
    ensures
        ({
            let end = finish_step(s, registry, config, rebuilt).0;
            late_stages(
                end,
                s.sent.len() as int,
                end.sent.len() as int,
                registry,
                config,
                at.0,
                at.1,
                at.2,
            )
        }),
{
    broadcast use {
        in_carry_step, in_normalize_step, in_convert_step, in_default_locale_step,
        in_sync_indexes_from, in_no_dangling_step, extends_on, extends_itself,
    };

    let collections = registry.collections@;
    let end = finish_step(s, registry, config, rebuilt).0;
    let first = s.sent.len() as int;
    let last = end.sent.len() as int;
    let s1 = carry_step(s, registry, config).0;
    let s2 = s1.asked(RequestView::BackfillRefCounts);
    let s3 = normalize_step(s2, registry).0;
    let s4 = s3.asked(RequestView::NormalizeLists);
    let s5 = convert_step(s4, registry).0;
    let s6 = s5.asked(RequestView::CanonicalizeText);
    let s7 = default_locale_step(s6, registry, config).0;
    assert(s7 == conversions_step(s, registry, config).0);
    let s8 = sync_indexes_from(s7, collections, 0).0;
    assert(extends(s, s1));
    assert(extends(s1, s2)) by {
        on_ask_done(s1, RequestView::BackfillRefCounts);
    }
    assert(extends(s2, s3));
    assert(extends(s3, s4)) by {
        on_ask_done(s3, RequestView::NormalizeLists);
    }
    assert(extends(s4, s5));
    assert(extends(s5, s6)) by {
        on_ask_done(s5, RequestView::CanonicalizeText);
    }
    assert(extends(s6, s7));
    assert(extends(s7, s8));
    assert(extends(s8, end)) by {
        if rebuilt.len() > 0 {
            assert(end == no_dangling_step(s8, rebuilt).0);
        }
    }
    assert(extends(s7, end));
    assert(extends(s6, end));
    assert(extends(s5, end));
    assert(extends(s4, end));
    assert(extends(s3, end));
    assert(extends(s2, end));
    assert(extends(s1, end));
    let counts = s1.sent.len() as int;
    let lists = s3.sent.len() as int;
    let texts = s5.sent.len() as int;
    between_asked(s1, end, 0, counts + 1, RequestView::BackfillRefCounts);
    between_asked(s3, end, 0, lists + 1, RequestView::NormalizeLists);
    between_asked(s5, end, 0, texts + 1, RequestView::CanonicalizeText);
    every_reference_is_kept(s, registry, config);
    all_references_kept_wider(s1, end, first, counts, first, counts, registry, config);
    if s.dialect == Dialect::Sqlite {
        every_old_timestamp_is_rewritten(s2, registry);
        timestamps_kept_wider(s3, end, s2.sent.len() as int, lists, counts, lists, registry);
    }
    every_nested_value_is_typed(s4, registry);
    all_nested_kept_wider(s5, end, s4.sent.len() as int, texts, lists, texts, registry);
    the_locales_are_recorded(s6, registry, config);
    on_record_wider(
        s7,
        end,
        s6.sent.len() as int,
        s7.sent.len() as int,
        texts,
        last,
        "locale_config"@,
        config.default_locale@ + ";"@ + join(config.locales.deep_view(), ","@),
    );
    assert forall|c: int| 0 <= c < collections.len() implies index_kept(
        end,
        texts,
        last,
        (#[trigger] collections[c]).slug@,
    ) by {
        every_index_is_kept(s7, collections, 0, c);
        index_kept_wider(
            s8,
            end,
            s7.sent.len() as int,
            s8.sent.len() as int,
            texts,
            last,
            collections[c].slug@,
        );
    }
    (counts, lists, texts)
}

/// What a sync does inside its transaction goes through every stage.
pub proof fn every_stage_is_gone_through(
    s: SessionView,
    registry: Registry,
    config: LocaleConfig,
    rebuilt: Seq<Seq<char>>,
)
    ensures
        ({
            let (end, r) = sync_body_step(s, registry, config, rebuilt);
            r is Ok ==> synced(
                end,
                s.sent.len() as int,
                end.sent.len() as int,
                registry,
                config,
            )
        }),
{
    broadcast use {in_prepare_step, in_finish_step};

    reveal(synced);
    let (end, r) = sync_body_step(s, registry, config, rebuilt);
    if r is Ok {
        let collections = registry.collections@;
        let globals = registry.globals@;
        let first = s.sent.len() as int;
        let last = end.sent.len() as int;
        let s1 = prepare_step(s, registry, config).0;
        assert(end == finish_step(s1, registry, config, rebuilt).0);
        assert(extends(s1, end));
        let (names, columns, retired) = early_stages_are_gone_through(s, registry, config);
        let (counts, lists, texts) = late_stages_are_gone_through(s1, registry, config, rebuilt);
        system_made_wider(s1, end, first, names, first, names);
        assert forall|c: int| 0 <= c < collections.len() implies between(
            end,
            first,
            names,
            RequestView::CheckIndexNames { slug: (#[trigger] collections[c]).slug@ },
        ) by {
            between_wider(
                s1,
                end,
                first,
                names,
                first,
                names,
                RequestView::CheckIndexNames { slug: collections[c].slug@ },
            );
        }
        assert forall|c: int| 0 <= c < collections.len() implies between(
            end,
            columns,
            retired,
            RequestView::SyncCollection { slug: (#[trigger] collections[c]).slug@ },
        ) by {
            between_wider(
                s1,
                end,
                columns,
                retired,
                columns,
                retired,
                RequestView::SyncCollection { slug: collections[c].slug@ },
            );
        }
        assert forall|g: int| 0 <= g < globals.len() implies between(
            end,
            columns,
            retired,
            RequestView::SyncGlobal { slug: (#[trigger] globals[g]).slug@ },
        ) by {
            between_wider(
                s1,
                end,
                columns,
                retired,
                columns,
                retired,
                RequestView::SyncGlobal { slug: globals[g].slug@ },
            );
        }
        all_references_kept_wider(
            end,
            end,
            s1.sent.len() as int,
            counts,
            retired,
            counts,
            registry,
            config,
        );
        between_wider(
            s1,
            end,
            retired,
            s1.sent.len() as int,
            retired,
            counts,
            asks_for_tables(s.dialect),
        );
        assert(end.sent[names] == s1.sent[names]);
        assert(end.sent[columns] == s1.sent[columns]);
        assert(end.sent[retired] == s1.sent[retired]);
        assert(stages(
            end,
            first,
            last,
            registry,
            config,
            names,
            columns,
            retired,
            counts,
            lists,
            texts,
        ));
    }
}

pub(crate) proof fn synced_on(
    b: SessionView,
    d: SessionView,
    i: int,
    j: int,
    registry: Registry,
    config: LocaleConfig,
)
    requires
        extends(b, d),
        synced(b, i, j, registry, config),
    ensures
        synced(d, i, j, registry, config),
{
    reveal(synced);
    let collections = registry.collections@;
    let globals = registry.globals@;
    let (names, columns, retired, counts, lists, texts) = choose|
        names: int,
        columns: int,
        retired: int,
        counts: int,
        lists: int,
        texts: int,
    | #[trigger]
        stages(b, i, j, registry, config, names, columns, retired, counts, lists, texts);
    system_made_wider(b, d, i, names, i, names);
    assert forall|c: int| 0 <= c < collections.len() implies between(
        d,
        i,
        names,
        RequestView::CheckIndexNames { slug: (#[trigger] collections[c]).slug@ },
    ) by {
        between_wider(
            b,
            d,
            i,
            names,
            i,
            names,
            RequestView::CheckIndexNames { slug: collections[c].slug@ },
        );
    }
    assert forall|c: int| 0 <= c < collections.len() implies between(
        d,
        columns,
        retired,
        RequestView::SyncCollection { slug: (#[trigger] collections[c]).slug@ },
    ) by {
        between_wider(
            b,
            d,
            columns,
            retired,
            columns,
            retired,
            RequestView::SyncCollection { slug: collections[c].slug@ },
        );
    }
    assert forall|g: int| 0 <= g < globals.len() implies between(
        d,
        columns,
        retired,
        RequestView::SyncGlobal { slug: (#[trigger] globals[g]).slug@ },
    ) by {
        between_wider(
            b,
            d,
            columns,
            retired,
            columns,
            retired,
            RequestView::SyncGlobal { slug: globals[g].slug@ },
        );
    }
    all_references_kept_wider(b, d, retired, counts, retired, counts, registry, config);
    between_wider(b, d, retired, counts, retired, counts, asks_for_tables(b.dialect));
    if b.dialect == Dialect::Sqlite {
        timestamps_kept_wider(b, d, counts, lists, counts, lists, registry);
    }
    all_nested_kept_wider(b, d, lists, texts, lists, texts, registry);
    on_record_wider(
        b,
        d,
        texts,
        j,
        texts,
        j,
        "locale_config"@,
        config.default_locale@ + ";"@ + join(config.locales.deep_view(), ","@),
    );
    assert forall|c: int| 0 <= c < collections.len() implies index_kept(
        d,
        texts,
        j,
        (#[trigger] collections[c]).slug@,
    ) by {
        index_kept_wider(b, d, texts, j, texts, j, collections[c].slug@);
    }
    assert(d.sent[names] == b.sent[names]);
    assert(d.sent[columns] == b.sent[columns]);
    assert(d.sent[retired] == b.sent[retired]);
    assert(d.sent[counts] == b.sent[counts]);
    assert(d.sent[lists] == b.sent[lists]);
    assert(d.sent[texts] == b.sent[texts]);
    assert(stages(d, i, j, registry, config, names, columns, retired, counts, lists, texts));
}

/// Whether, from the `i`-th request on and before the `j`-th, it was looked up whether a
/// collection's table has to be made anew; `anew` says so where the answer did.
pub open spec fn rebuild_looked_up(
    s: SessionView,
    i: int,
    j: int,
    slug: Seq<char>,
    anew: bool,
) -> bool {
    exists|k: int|
        0 <= i <= k < j && k < s.sent.len() && #[trigger] s.sent[k] == (RequestView::TableExists {
            table: slug,
        }) && {
            ||| told_missing(s, k)
            ||| {
                &&& told_there(s, k)
                &&& k + 2 < j && k + 2 < s.sent.len() && k + 2 < s.replies.len()
                &&& s.sent[k + 1] == RequestView::TableColumns { table: slug }
                &&& s.replies[k + 1] matches ReplyView::Names(columns) && s.sent[k + 2] == (
                RequestView::NeedsRebuild { slug, columns })
                &&& s.replies[k + 2] == ReplyView::Flag(true) ==> anew
            }
        }
}

proof fn rebuild_looked_up_wider(
    b: SessionView,
    d: SessionView,
    i: int,
    j: int,
    k: int,
    l: int,
    slug: Seq<char>,
    anew: bool,
)
    requires
        extends(b, d),
        rebuild_looked_up(b, i, j, slug, anew),
        0 <= k <= i,
        j <= l,
    ensures
        rebuild_looked_up(d, k, l, slug, anew),
{
    let at = choose|at: int|
        0 <= i <= at < j && at < b.sent.len() && #[trigger] b.sent[at]
            == (RequestView::TableExists { table: slug }) && {
            ||| told_missing(b, at)
            ||| {
                &&& told_there(b, at)
                &&& at + 2 < j && at + 2 < b.sent.len() && at + 2 < b.replies.len()
                &&& b.sent[at + 1] == RequestView::TableColumns { table: slug }
                &&& b.replies[at + 1] matches ReplyView::Names(columns) && b.sent[at + 2] == (
                RequestView::NeedsRebuild { slug, columns })
                &&& b.replies[at + 2] == ReplyView::Flag(true) ==> anew
            }
        };
    assert(d.sent[at] == b.sent[at]);
    if !told_missing(b, at) {
        assert(d.sent[at + 1] == b.sent[at + 1]);
        assert(d.sent[at + 2] == b.sent[at + 2]);
    }
}

proof fn rebuilds_add_up(
    s: SessionView,
    collections: Seq<CollectionDefinition>,
    i: int,
    done: Seq<Seq<char>>,
)
    ensures
        rebuilds_from(s, collections, i, done).1 matches Ok(all) ==> all.len() >= done.len(),
    decreases collections.len() - i,
{
    if 0 <= i < collections.len() {
        let slug = collections[i].slug@;
        let s1 = s.asked(RequestView::TableExists { table: slug });
        rebuilds_add_up(table_exists_step(s, slug).0, collections, i + 1, done);
        let (s2, columns) = table_columns_step(table_exists_step(s, slug).0, slug);
        match columns {
            Ok(columns) => {
                let s3 = s2.asked(RequestView::NeedsRebuild { slug, columns });
                rebuilds_add_up(s3, collections, i + 1, done);
                rebuilds_add_up(s3, collections, i + 1, done.push(slug));
            },
            _ => {},
        }
    }
}

proof fn rebuilds_are_looked_up(
    s: SessionView,
    collections: Seq<CollectionDefinition>,
    i: int,
    done: Seq<Seq<char>>,
    k: int,
)
    requires
        s.dialect == Dialect::Sqlite,
        0 <= i <= k < collections.len(),
        rebuilds_from(s, collections, i, done).1 is Ok,
    ensures
        ({
            let (end, r) = rebuilds_from(s, collections, i, done);
            rebuild_looked_up(
                end,
                s.sent.len() as int,
                end.sent.len() as int,
                collections[k].slug@,
                r->Ok_0.len() > 0,
            )
        }),
    decreases collections.len() - i,
{
    broadcast use on_rebuilds_from;

    let (end, r) = rebuilds_from(s, collections, i, done);
    let anew = r->Ok_0.len() > 0;
    let slug = collections[i].slug@;
    let at = s.sent.len() as int;
    let asked = RequestView::TableExists { table: slug };
    let s1 = s.asked(asked);
    a_table_is_looked_for(s, slug, Seq::empty());
    assert(table_exists_step(s, slug).0 == s1);
    assert(s1.sent[at] == asked);
    let last = end.sent.len() as int;
    let (next, sofar) = if told_there(s, at) {
        let listed = RequestView::TableColumns { table: slug };
        let s2 = s1.asked(listed);
        assert(table_columns_step(s1, slug).0 == s2);
        let columns = s.replies[at + 1]->Names_0;
        let wanted = RequestView::NeedsRebuild { slug, columns };
        let s3 = s2.asked(wanted);
        assert(s3.sent[at] == asked && s3.sent[at + 1] == listed && s3.sent[at + 2] == wanted);
        let more = if s.replies[at + 2] == ReplyView::Flag(true) {
            done.push(slug)
        } else {
            done
        };
        assert(end == rebuilds_from(s3, collections, i + 1, more).0);
        assert(r == rebuilds_from(s3, collections, i + 1, more).1);
        rebuilds_add_up(s3, collections, i + 1, more);
        assert(extends(s3, end));
        assert(end.sent[at] == asked && end.sent[at + 1] == listed && end.sent[at + 2] == wanted);
        (s3, more)
    } else {
        assert(end == rebuilds_from(s1, collections, i + 1, done).0);
        assert(r == rebuilds_from(s1, collections, i + 1, done).1);
        assert(extends(s1, end));
        assert(end.sent[at] == asked);
        (s1, done)
    };
    if i < k {
        rebuilds_are_looked_up(next, collections, i + 1, sofar, k);
        rebuild_looked_up_wider(
            end,
            end,
            next.sent.len() as int,
            last,
            at,
            last,
            collections[k].slug@,
            anew,
        );
    }
}

/// Whether a run of requests is a sync from the `i`-th on: over a connection for writing,
/// in one transaction that holds the lock, and committed. Where a table has to be made
/// anew, foreign keys are off before and on after, and what refers to it is checked.
pub open spec fn whole_sync(
    s: SessionView,
    i: int,
    begun: int,
    ended: int,
    registry: Registry,
    config: LocaleConfig,
) -> bool {
    let anew = ended + 1 < s.sent.len();
    &&& 0 <= i < begun && begun + 1 < ended < s.sent.len()
    &&& s.sent[i] == RequestView::Connect { write: true }
    &&& s.dialect == Dialect::Sqlite ==> forall|c: int|
        0 <= c < registry.collections@.len() ==> rebuild_looked_up(
            s,
            i + 1,
            begun,
            (#[trigger] registry.collections@[c]).slug@,
            anew,
        )
    &&& s.sent[begun] == RequestView::Begin
    &&& s.sent[begun + 1] == RequestView::AdvisoryLock { key: 7165897092701449827 }
    &&& synced(s, begun + 2, ended, registry, config)
    &&& s.sent[ended] == RequestView::Commit
    &&& anew ==> {
        &&& s.sent[begun - 1] == RequestView::ExecuteBatch { sql: "PRAGMA foreign_keys = OFF"@ }
        &&& between(
            s,
            begun + 2,
            ended,
            RequestView::QueryAll { sql: "PRAGMA foreign_key_check"@, params: Seq::empty() },
        )
        &&& ended + 2 == s.sent.len()
        &&& s.sent[ended + 1] == RequestView::ExecuteBatch { sql: "PRAGMA foreign_keys = ON"@ }
    }
}

proof fn what_is_anew_is_checked(
    s: SessionView,
    registry: Registry,
    config: LocaleConfig,
    rebuilt: Seq<Seq<char>>,
)
    requires
        rebuilt.len() > 0,
        finish_step(s, registry, config, rebuilt).1 is Ok,
    ensures
        ({
            let end = finish_step(s, registry, config, rebuilt).0;
            between(
                end,
                s.sent.len() as int,
                end.sent.len() as int,
                RequestView::QueryAll { sql: "PRAGMA foreign_key_check"@, params: Seq::empty() },
            )
        }),
{
    let checked = RequestView::QueryAll { sql: "PRAGMA foreign_key_check"@, params: Seq::empty() };
    let end = finish_step(s, registry, config, rebuilt).0;
    let c = conversions_step(s, registry, config).0;
    let x = sync_indexes_from(c, registry.collections@, 0).0;
    assert(end == x.asked(checked));
    in_conversions_step(s, registry, config);
    in_sync_indexes_from(c, registry.collections@, 0);
    assert(end.sent[x.sent.len() as int] == checked);
}

proof fn a_transaction_in_parts(
    s: SessionView,
    registry: Registry,
    config: LocaleConfig,
    rebuilt: Seq<Seq<char>>,
)
    requires
        run_sync_step(s, registry, config, rebuilt).1 is Ok,
    ensures
        ({
            let locked = RequestView::AdvisoryLock { key: 7165897092701449827 };
            let s2 = s.asked(RequestView::Begin).asked(locked);
            let (s3, r) = sync_body_step(s2, registry, config, rebuilt);
            r is Ok && run_sync_step(s, registry, config, rebuilt).0 == s3.asked(
                RequestView::Commit,
            )
        }),
{
}

spec fn checked_between(s: SessionView, i: int, j: int) -> bool {
    between(
        s,
        i,
        j,
        RequestView::QueryAll { sql: "PRAGMA foreign_key_check"@, params: Seq::empty() },
    )
}

proof fn a_body_is_whole(
    s: SessionView,
    registry: Registry,
    config: LocaleConfig,
    rebuilt: Seq<Seq<char>>,
)
    requires
        sync_body_step(s, registry, config, rebuilt).1 is Ok,
    ensures
        ({
            let end = sync_body_step(s, registry, config, rebuilt).0;
            let (i, j) = (s.sent.len() as int, end.sent.len() as int);
            &&& extends(s, end)
            &&& synced(end, i, j, registry, config)
            &&& rebuilt.len() > 0 ==> checked_between(end, i, j)
        }),
{
    let end = sync_body_step(s, registry, config, rebuilt).0;
    every_stage_is_gone_through(s, registry, config, rebuilt);
    in_sync_body_step(s, registry, config, rebuilt);
    if rebuilt.len() > 0 {
        let p = prepare_step(s, registry, config).0;
        in_prepare_step(s, registry, config);
        what_is_anew_is_checked(p, registry, config, rebuilt);
        between_wider(
            end,
            end,
            p.sent.len() as int,
            end.sent.len() as int,
            s.sent.len() as int,
            end.sent.len() as int,
            RequestView::QueryAll { sql: "PRAGMA foreign_key_check"@, params: Seq::empty() },
        );
    }
}

proof fn enclosed(
    s: SessionView,
    body: SessionView,
    registry: Registry,
    config: LocaleConfig,
    anew: bool,
)
    requires
        ({
            let locked = RequestView::AdvisoryLock { key: 7165897092701449827 };
            let s2 = s.asked(RequestView::Begin).asked(locked);
            &&& extends(s2, body)
            &&& synced(body, s2.sent.len() as int, body.sent.len() as int, registry, config)
            &&& anew ==> checked_between(body, s2.sent.len() as int, body.sent.len() as int)
        }),
    ensures
        ({
            let end = body.asked(RequestView::Commit);
            let at = s.sent.len() as int;
            let ended = end.sent.len() - 1;
            &&& extends(s, end)
            &&& at + 1 < ended
            &&& end.sent[at] == RequestView::Begin
            &&& end.sent[at + 1] == RequestView::AdvisoryLock { key: 7165897092701449827 }
            &&& synced(end, at + 2, ended, registry, config)
            &&& end.sent[ended] == RequestView::Commit
            &&& anew ==> checked_between(end, at + 2, ended)
        }),
{
    let end = body.asked(RequestView::Commit);
    let locked = RequestView::AdvisoryLock { key: 7165897092701449827 };
    let s1 = s.asked(RequestView::Begin);
    let s2 = s1.asked(locked);
    on_ask_done(s, RequestView::Begin);
    on_ask_done(s1, locked);
    on_ask_done(body, RequestView::Commit);
    extends_on(s2, body, end);
    extends_on(s1, s2, end);
    extends_on(s, s1, end);
    let at = s.sent.len() as int;
    let ended = body.sent.len() as int;
    between_asked(s, end, 0, at + 1, RequestView::Begin);
    between_asked(s1, end, 0, at + 2, locked);
    synced_on(body, end, at + 2, ended, registry, config);
    assert(end.sent[ended] == RequestView::Commit);
    if anew {
        between_wider(
            body,
            end,
            at + 2,
            ended,
            at + 2,
            ended,
            RequestView::QueryAll { sql: "PRAGMA foreign_key_check"@, params: Seq::empty() },
        );
    }
}

proof fn a_transaction_is_whole(
    s: SessionView,
    registry: Registry,
    config: LocaleConfig,
    rebuilt: Seq<Seq<char>>,
)
    requires
        run_sync_step(s, registry, config, rebuilt).1 is Ok,
    ensures
        ({
            let end = run_sync_step(s, registry, config, rebuilt).0;
            let at = s.sent.len() as int;
            let ended = end.sent.len() - 1;
            &&& extends(s, end)
            &&& at + 1 < ended
            &&& end.sent[at] == RequestView::Begin
            &&& end.sent[at + 1] == RequestView::AdvisoryLock { key: 7165897092701449827 }
            &&& synced(end, at + 2, ended, registry, config)
            &&& end.sent[ended] == RequestView::Commit
            &&& rebuilt.len() > 0 ==> checked_between(end, at + 2, ended)
        }),
{
    let locked = RequestView::AdvisoryLock { key: 7165897092701449827 };
    let s2 = s.asked(RequestView::Begin).asked(locked);
    a_transaction_in_parts(s, registry, config, rebuilt);
    a_body_is_whole(s2, registry, config, rebuilt);
    enclosed(
        s,
        sync_body_step(s2, registry, config, rebuilt).0,
        registry,
        config,
        rebuilt.len() > 0,
    );
}

proof fn switches_in_one()
    ensures
        foreign_keys_sql(false) == "PRAGMA foreign_keys = OFF"@,
        foreign_keys_sql(true) == "PRAGMA foreign_keys = ON"@,
{
    assert("PRAGMA foreign_keys = "@ + "OFF"@ =~= "PRAGMA foreign_keys = OFF"@) by {
        reveal_strlit("PRAGMA foreign_keys = ");
        reveal_strlit("OFF");
        reveal_strlit("PRAGMA foreign_keys = OFF");
    }
    assert("PRAGMA foreign_keys = "@ + "ON"@ =~= "PRAGMA foreign_keys = ON"@) by {
        reveal_strlit("PRAGMA foreign_keys = ");
        reveal_strlit("ON");
        reveal_strlit("PRAGMA foreign_keys = ON");
    }
}

proof fn what_is_put_back(s: SessionView, result: Result<(), ErrorView>)
    requires
        restore_step(s, result).1 is Ok,
    ensures
        result is Ok,
        restore_step(s, result).0 == s.asked(
            RequestView::ExecuteBatch { sql: "PRAGMA foreign_keys = ON"@ },
        ),
{
    switches_in_one();
}

proof fn what_is_put_off(s: SessionView)
    ensures
        foreign_keys_step(s, false).0 == s.asked(
            RequestView::ExecuteBatch { sql: "PRAGMA foreign_keys = OFF"@ },
        ),
{
    switches_in_one();
}

proof fn a_sync_in_parts(s: SessionView, registry: Registry, config: LocaleConfig)
    requires
        sync_all_step(s, registry, config).1 is Ok,
    ensures
        ({
            let end = sync_all_step(s, registry, config).0;
            let s1 = s.asked(RequestView::Connect { write: true });
            let (s2, r) = pending_rebuilds_step(s1, registry);
            let off = RequestView::ExecuteBatch { sql: "PRAGMA foreign_keys = OFF"@ };
            let on = RequestView::ExecuteBatch { sql: "PRAGMA foreign_keys = ON"@ };
            &&& r is Ok
            &&& r->Ok_0.len() == 0 ==> run_sync_step(s2, registry, config, r->Ok_0).1 is Ok && end
                == run_sync_step(s2, registry, config, r->Ok_0).0
            &&& r->Ok_0.len() > 0 ==> run_sync_step(
                s2.asked(off),
                registry,
                config,
                r->Ok_0,
            ).1 is Ok && end == run_sync_step(s2.asked(off), registry, config, r->Ok_0).0.asked(on)
        }),
{
    let s1 = s.asked(RequestView::Connect { write: true });
    assert(connect_step(s, true).0 == s1);
    let (s2, r) = pending_rebuilds_step(s1, registry);
    if r->Ok_0.len() > 0 {
        what_is_put_off(s2);
        let s3 = foreign_keys_step(s2, false).0;
        let (t, rt) = run_sync_step(s3, registry, config, r->Ok_0);
        what_is_put_back(t, rt);
    }
}

proof fn a_sync_is_put_together(
    s: SessionView,
    s2: SessionView,
    t: SessionView,
    registry: Registry,
    config: LocaleConfig,
    anew: bool,
) -> (at: (int, int))
    requires
        ({
            let off = RequestView::ExecuteBatch { sql: "PRAGMA foreign_keys = OFF"@ };
            let s1 = s.asked(RequestView::Connect { write: true });
            let s3 = if anew {
                s2.asked(off)
            } else {
                s2
            };
            let at = s3.sent.len() as int;
            let ended = t.sent.len() - 1;
            &&& extends(s1, s2)
            &&& s.dialect == Dialect::Sqlite ==> forall|c: int|
                0 <= c < registry.collections@.len() ==> rebuild_looked_up(
                    s2,
                    s1.sent.len() as int,
                    s2.sent.len() as int,
                    (#[trigger] registry.collections@[c]).slug@,
                    anew,
                )
            &&& extends(s3, t)
            &&& at + 1 < ended
            &&& t.sent[at] == RequestView::Begin
            &&& t.sent[at + 1] == RequestView::AdvisoryLock { key: 7165897092701449827 }
            &&& synced(t, at + 2, ended, registry, config)
            &&& t.sent[ended] == RequestView::Commit
            &&& anew ==> checked_between(t, at + 2, ended)
        }),
    ensures
        ({
            let on = RequestView::ExecuteBatch { sql: "PRAGMA foreign_keys = ON"@ };
            let end = if anew {
                t.asked(on)
            } else {
                t
            };
            whole_sync(end, s.sent.len() as int, at.0, at.1, registry, config)
        }),
{
    let collections = registry.collections@;
    let off = RequestView::ExecuteBatch { sql: "PRAGMA foreign_keys = OFF"@ };
    let on = RequestView::ExecuteBatch { sql: "PRAGMA foreign_keys = ON"@ };
    let first = s.sent.len() as int;
    let s1 = s.asked(RequestView::Connect { write: true });
    let s3 = if anew {
        s2.asked(off)
    } else {
        s2
    };
    let end = if anew {
        t.asked(on)
    } else {
        t
    };
    let begun = s3.sent.len() as int;
    let ended = t.sent.len() - 1;
    on_ask_done(s2, off);
    extends_itself(s2);
    on_ask_done(t, on);
    extends_itself(t);
    extends_on(s3, t, end);
    extends_on(s2, s3, end);
    extends_on(s1, s2, end);
    between_asked(s, end, 0, first + 1, RequestView::Connect { write: true });
    synced_on(t, end, begun + 2, ended, registry, config);
    assert(end.sent[begun] == t.sent[begun]);
    assert(end.sent[begun + 1] == t.sent[begun + 1]);
    assert(end.sent[ended] == t.sent[ended]);
    if anew {
        between_asked(s2, end, 0, begun, off);
        between_wider(
            t,
            end,
            begun + 2,
            ended,
            begun + 2,
            ended,
            RequestView::QueryAll { sql: "PRAGMA foreign_key_check"@, params: Seq::empty() },
        );
    }
    if s.dialect == Dialect::Sqlite {
        assert forall|c: int| 0 <= c < collections.len() implies rebuild_looked_up(
            end,
            first + 1,
            begun,
            (#[trigger] collections[c]).slug@,
            anew,
        ) by {
            rebuild_looked_up_wider(
                s2,
                end,
                first + 1,
                s2.sent.len() as int,
                first + 1,
                begun,
                collections[c].slug@,
                anew,
            );
        }
    }
    (begun, ended)
}

/// A sync that succeeds is whole: over a connection for writing, inside one transaction
/// that holds the lock, through every stage for every definition, and committed.
pub proof fn a_sync_is_whole(s: SessionView, registry: Registry, config: LocaleConfig)
    ensures
        ({
            let (end, r) = sync_all_step(s, registry, config);
            r is Ok ==> exists|begun: int, ended: int| #[trigger]
                whole_sync(end, s.sent.len() as int, begun, ended, registry, config)
        }),
{
    let (end, r) = sync_all_step(s, registry, config);
    if r is Ok {
        a_sync_in_parts(s, registry, config);
        let s1 = s.asked(RequestView::Connect { write: true });
        let (s2, rebuilt) = pending_rebuilds_step(s1, registry);
        let rebuilt = rebuilt->Ok_0;
        let anew = rebuilt.len() > 0;
        let s3 = if anew {
            s2.asked(RequestView::ExecuteBatch { sql: "PRAGMA foreign_keys = OFF"@ })
        } else {
            s2
        };
        let t = run_sync_step(s3, registry, config, rebuilt).0;
        on_pending_rebuilds_step(s1, registry);
        a_transaction_is_whole(s3, registry, config, rebuilt);
        if s.dialect == Dialect::Sqlite {
            assert forall|c: int| 0 <= c < registry.collections@.len() implies rebuild_looked_up(
                s2,
                s1.sent.len() as int,
                s2.sent.len() as int,
                (#[trigger] registry.collections@[c]).slug@,
                anew,
            ) by {
                rebuilds_are_looked_up(s1, registry.collections@, 0, Seq::empty(), c);
            }
        }
        let (begun, ended) = a_sync_is_put_together(s, s2, t, registry, config, anew);
    }
}

proof fn collections_names_fit(
    s: SessionView,
    collections: Seq<CollectionDefinition>,
    config: LocaleConfig,
    i: int,
    k: int,
)
    requires
        0 <= i <= k < collections.len(),
        check_collections_from(s, collections, config, i).1 is Ok,
    ensures
        identifier_checks(collections[k].slug@, collections[k].fields@, config) is Ok,
    decreases collections.len() - i,
{
    if i < k {
        let s1 = s.asked(RequestView::CheckIndexNames { slug: collections[i].slug@ });
        collections_names_fit(s1, collections, config, i + 1, k);
    }
}

proof fn globals_names_fit(
    globals: Seq<GlobalDefinition>,
    config: LocaleConfig,
    i: int,
    k: int,
)
    requires
        0 <= i <= k < globals.len(),
        global_checks_from(globals, config, i) is Ok,
    ensures
        identifier_checks("_global_"@ + globals[k].slug@, globals[k].fields@, config) is Ok,
    decreases globals.len() - i,
{
    if i < k {
        globals_names_fit(globals, config, i + 1, k);
    }
}

/// Names that a database would cut are refused, of any collection and of any global: the
/// check of all passes only if each of theirs does.
pub proof fn every_definitions_names_are_checked(
    s: SessionView,
    registry: Registry,
    config: LocaleConfig,
    c: int,
    g: int,
)
    requires
        check_all_step(s, registry, config).1 is Ok,
    ensures
        0 <= c < registry.collections@.len() ==> identifier_checks(
            registry.collections@[c].slug@,
            registry.collections@[c].fields@,
            config,
        ) is Ok,
        0 <= g < registry.globals@.len() ==> identifier_checks(
            "_global_"@ + registry.globals@[g].slug@,
            registry.globals@[g].fields@,
            config,
        ) is Ok,
{
    if 0 <= c < registry.collections@.len() {
        collections_names_fit(s, registry.collections@, config, 0, c);
    }
    if 0 <= g < registry.globals@.len() {
        globals_names_fit(registry.globals@, config, 0, g);
    }
}

/// No table is made before every name has passed: where the check fails, so does what the
/// sync does inside its transaction.
pub proof fn names_are_checked_before_tables_are_made(
    s: SessionView,
    registry: Registry,
    config: LocaleConfig,
    rebuilt: Seq<Seq<char>>,
)
    ensures
        ({
            let made = system_tables_step(s);
            made.1 is Ok && check_all_step(made.0, registry, config).1 is Err ==> {
                let (end, r) = sync_body_step(s, registry, config, rebuilt);
                r is Err && end == check_all_step(made.0, registry, config).0
            }
        }),
{
}

/// What is done under the lock is kept if all of it went well, and undone if not: the
/// error is then what went wrong.
pub proof fn what_fails_is_undone(
    s: SessionView,
    registry: Registry,
    config: LocaleConfig,
    rebuilt: Seq<Seq<char>>,
    why: Seq<char>,
)
    ensures
        ({
            let (end, r) = run_sync_step(s, registry, config, rebuilt);
            let begun = s.asked(RequestView::Begin);
            let (done, made) = locked_sync_step(begun, registry, config, rebuilt);
            &&& answered(s, 0, ReplyView::Failed(why)) ==> end == begun && r is Err
            &&& answered(s, 0, ReplyView::Done) && made is Ok ==> end == done.asked(
                RequestView::Commit,
            )
            &&& answered(s, 0, ReplyView::Done) && made is Ok && !answered(
                done,
                0,
                ReplyView::Done,
            ) ==> r is Err
            &&& answered(s, 0, ReplyView::Done) && made is Err ==> end == done.asked(
                RequestView::Rollback,
            ) && r == made
        }),
{
}

/// Foreign keys that were turned off are turned on again whatever came of the sync; where
/// that fails, so does the sync.
pub proof fn foreign_keys_are_put_back(s: SessionView, result: Result<(), ErrorView>)
    ensures
        ({
            let (end, r) = restore_step(s, result);
            &&& end.sent == s.sent.push(
                RequestView::ExecuteBatch { sql: "PRAGMA foreign_keys = ON"@ },
            )
            &&& r is Ok <==> result is Ok && answered(s, 0, ReplyView::Done)
            &&& result is Err ==> r == result
        }),
{
    switches_in_one();
}

proof fn a_dangling_row_is_found(rows: Seq<DbRowView>, rebuilt: Seq<Seq<char>>, m: int)
    requires
        0 <= m < rows.len(),
        rows[m].text("parent"@) matches Some(parent) && rebuilt.contains(parent),
        rows[m].text("table"@) is Some,
    ensures
        dangling(rows, rebuilt).contains(rows[m].text("table"@)->Some_0),
    decreases rows.len(),
{
    let table = rows[m].text("table"@)->Some_0;
    let before = dangling(rows.drop_last(), rebuilt);
    let all = dangling(rows, rebuilt);
    if m == rows.len() - 1 {
        assert(all.last() == table);
    } else {
        assert(rows.drop_last()[m] == rows[m]);
        a_dangling_row_is_found(rows.drop_last(), rebuilt, m);
        let i = choose|i: int| 0 <= i < before.len() && before[i] == table;
        assert(all[i] == table);
    }
}

proof fn none_is_found(rows: Seq<DbRowView>, rebuilt: Seq<Seq<char>>)
    requires
        forall|m: int|
            0 <= m < rows.len() ==> !((#[trigger] rows[m]).text("parent"@) matches Some(parent)
                && rebuilt.contains(parent)),
    ensures
        dangling(rows, rebuilt).len() == 0,
    decreases rows.len(),
{
    if rows.len() > 0 {
        assert forall|m: int| 0 <= m < rows.drop_last().len() implies !((
        #[trigger] rows.drop_last()[m]).text("parent"@) matches Some(parent) && rebuilt.contains(
            parent,
        )) by {
            assert(rows.drop_last()[m] == rows[m]);
        }
        none_is_found(rows.drop_last(), rebuilt);
        assert(rows.last() == rows[rows.len() - 1]);
    }
}

/// A row left pointing at nothing in a table that was made anew is refused; rows that
/// point at nothing elsewhere are not looked at.
pub proof fn rows_left_pointing_at_nothing_are_refused(
    s: SessionView,
    rebuilt: Seq<Seq<char>>,
    rows: Seq<DbRowView>,
    m: int,
)
    requires
        answered(s, 0, ReplyView::Rows(rows)),
    ensures
        ({
            let (end, r) = no_dangling_step(s, rebuilt);
            &&& end.sent == s.sent.push(
                RequestView::QueryAll { sql: "PRAGMA foreign_key_check"@, params: Seq::empty() },
            )
            &&& 0 <= m < rows.len() && rows[m].text("table"@) is Some && (rows[m].text(
                "parent"@,
            ) matches Some(parent) && rebuilt.contains(parent)) ==> (r matches Err(
                ErrorView::Refused(_),
            ))
            &&& (forall|m: int|
                0 <= m < rows.len() ==> !((#[trigger] rows[m]).text("parent"@) matches Some(parent)
                    && rebuilt.contains(parent))) ==> r is Ok
        }),
{
    let found = dangling(rows, rebuilt);
    if 0 <= m < rows.len() && rows[m].text("table"@) is Some && (rows[m].text("parent"@) matches Some(
        parent,
    ) && rebuilt.contains(parent)) {
        a_dangling_row_is_found(rows, rebuilt, m);
        let table = rows[m].text("table"@)->Some_0;
        sorted_holds_the_same(found, table);
        deduped_holds_the_same(sorted(found), table);
        assert(deduped(sorted(found)).len() > 0);
    }
    if forall|m: int|
        0 <= m < rows.len() ==> !((#[trigger] rows[m]).text("parent"@) matches Some(parent)
            && rebuilt.contains(parent)) {
        none_is_found(rows, rebuilt);
        assert(found =~= Seq::empty());
        if deduped(sorted(found)).len() > 0 {
            let x = deduped(sorted(found))[0];
            assert(deduped(sorted(found)).contains(x));
            deduped_holds_the_same(sorted(found), x);
            sorted_holds_the_same(found, x);
        }
    }
}

} // verus!
