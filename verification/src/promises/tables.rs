//! The tables that a definition's fields keep rows in are all there after a sync of them,
//! each as its field asks for.
use crate::definition::{
    FieldDefinition, FieldType, LeafView, LocaleConfig, RelationshipConfig, leaves, row_fields,
};
use crate::digest::short_digest;
use crate::migrate::meta;
use crate::migrate::join_tables::array::{array_ddl_step, sync_array_step};
use crate::migrate::join_tables::blocks::{blocks_ddl_step, sync_blocks_step};
use crate::migrate::join_tables::junction_shape::JunctionShapeView;
use crate::migrate::join_tables::locale_rows::{narrow_step, recorded_step, sync_locale_rows_step};
use crate::migrate::join_tables::orchestrator::{
    JoinTableKind, PlanView, plan_ddl_step, plan_step, plans_from, plans_of, sync_join_tables_step,
};
use crate::migrate::join_tables::parent_index::{
    byte_len, drop_other_step, index_name, sync_index_step,
};
use crate::migrate::join_tables::relationship::{junction_ddl_step, sync_relationship_step};
use crate::migrate::relationship_target::{track_target_step, warn_repointed_step};
use crate::names::quoted;
use crate::order::sorted;
use crate::promises::{answered, between, between_wider, on_record, on_record_wider, running};
use crate::promises::lookups::{a_table_is_looked_for, asks_for_table, told_missing, told_there};
use crate::promises::records::{what_is_read_is_on_record, what_is_stored_is_on_record};
use crate::promises::rows::{
    a_blocks_rows_go_with_their_document, a_junctions_rows_go_with_their_document,
    an_arrays_rows_go_with_their_document, array_made, blocks_made, junction_made,
};
use crate::replay::{
    extends_itself, extends_on, on_array_ddl_step, on_blocks_ddl_step, on_create_array_step,
    on_create_junction_step, on_ddl_step, on_drop_other_step, on_ensure_locale_column_step,
    on_junction_ddl_step, on_narrow_step, on_noted, on_parent_index_sync_index_step,
    on_plan_ddl_step, on_plan_step, on_plans_from, on_reconcile_step, on_sync_locale_rows_step,
    on_track_target_step, on_update_array_step, on_warn_repointed_step,
};
use crate::session::{ReplyView, RequestView, SessionView, ddl_text, extends};
use crate::text::{decimal, join};
use crate::value::{DbRowView, DbValueView, ErrorView};
use vstd::prelude::*;

verus! {

/// Whether a table was looked for there and, where it is missing, made by a statement.
pub open spec fn made_where_missing(
    s: SessionView,
    i: int,
    j: int,
    table: Seq<char>,
    sql: Seq<char>,
) -> bool {
    exists|k: int|
        0 <= i <= k < j && k < s.sent.len() && #[trigger] s.sent[k] == asks_for_table(
            s.dialect,
            table,
        ) && (told_there(s, k) || told_missing(s, k) && k + 1 < j && k + 1 < s.sent.len()
            && s.sent[k + 1] == running(ddl_text(s.dialect, sql)))
}

proof fn made_where_missing_wider(
    b: SessionView,
    d: SessionView,
    i: int,
    j: int,
    k: int,
    l: int,
    table: Seq<char>,
    sql: Seq<char>,
)
    requires
        extends(b, d),
        made_where_missing(b, i, j, table, sql),
        0 <= k <= i,
        j <= l,
    ensures
        made_where_missing(d, k, l, table, sql),
{
    let at = choose|at: int|
        0 <= i <= at < j && at < b.sent.len() && #[trigger] b.sent[at] == asks_for_table(
            b.dialect,
            table,
        ) && (told_there(b, at) || told_missing(b, at) && at + 1 < j && at + 1 < b.sent.len()
            && b.sent[at + 1] == running(ddl_text(b.dialect, sql)));
    assert(d.sent[at] == b.sent[at]);
    if !told_there(b, at) {
        assert(d.sent[at + 1] == b.sent[at + 1]);
    }
}

/// The statement giving a row table its index: over the document, and over the locale
/// where rows are kept per locale.
pub open spec fn index_statement(table: Seq<char>, localized: bool) -> Seq<char> {
    let name = index_name(table, localized, short_digest(table));
    "CREATE INDEX IF NOT EXISTS "@ + quoted(name) + " ON "@ + quoted(table) + (if localized {
        " (parent_id, _locale)"@
    } else {
        " (parent_id)"@
    })
}

/// Where it fits, the name of a row table's index is the table's behind a prefix that
/// tells whether rows are kept per locale.
pub proof fn plain_index_names(table: Seq<char>)
    ensures
        byte_len("idx__rows_"@ + table) <= 63 ==> index_name(table, false, short_digest(table))
            == "idx__rows_"@ + table,
        byte_len("idx__lrows_"@ + table) <= 63 ==> index_name(table, true, short_digest(table))
            == "idx__lrows_"@ + table,
{
}

/// Whether it is on record whether a table keeps rows per locale.
pub open spec fn locale_kept(
    s: SessionView,
    i: int,
    j: int,
    table: Seq<char>,
    localized: bool,
) -> bool {
    on_record(
        s,
        i,
        j,
        "join_locale:"@ + table,
        if localized {
            "1:per_locale"@
        } else {
            "1:shared"@
        },
    )
}

/// What the rows of a reference to many are on record as pointing at: a collection, or
/// all that it may be, by name.
pub open spec fn pointed_at(rc: RelationshipConfig) -> Seq<char> {
    if rc.polymorphic@.len() > 0 {
        join(sorted(rc.polymorphic.deep_view()), ","@)
    } else {
        rc.collection@
    }
}

/// Whether the table that a field keeps rows in is there as the field asks for: those of
/// arrays and of blocks with an index, those of references to many with what they point
/// at on record, and all with whether rows are kept per locale on record.
pub open spec fn rows_kept(
    s: SessionView,
    i: int,
    j: int,
    collection: Seq<char>,
    leaf: LeafView,
    config: LocaleConfig,
) -> bool {
    let table = collection + "_"@ + leaf.path();
    let localized = leaf.localized() && config.enabled();
    let locale = if localized {
        Some(config.default_locale@)
    } else {
        None
    };
    match leaf.field.field_type {
        FieldType::Array => {
            &&& locale_kept(s, i, j, table, localized)
            &&& made_where_missing(
                s,
                i,
                j,
                table,
                array_made(s.dialect, table, collection, row_fields(leaf.field.fields@), locale),
            )
            &&& between(
                s,
                i,
                j,
                running(ddl_text(s.dialect, index_statement(table, localized))),
            )
        },
        FieldType::Blocks => {
            &&& locale_kept(s, i, j, table, localized)
            &&& made_where_missing(s, i, j, table, blocks_made(table, collection, locale))
            &&& between(
                s,
                i,
                j,
                running(ddl_text(s.dialect, index_statement(table, localized))),
            )
        },
        FieldType::Relationship | FieldType::Upload => match leaf.field.relationship {
            Some(rc) => rc.has_many ==> {
                &&& locale_kept(s, i, j, table, localized)
                &&& made_where_missing(
                    s,
                    i,
                    j,
                    table,
                    junction_made(table, collection, rc.polymorphic@.len() > 0, locale),
                )
                &&& on_record(s, i, j, "relationship_target:"@ + table, pointed_at(rc))
            },
            None => true,
        },
        _ => true,
    }
}

pub(crate) proof fn rows_kept_wider(
    b: SessionView,
    d: SessionView,
    i: int,
    j: int,
    k: int,
    l: int,
    collection: Seq<char>,
    leaf: LeafView,
    config: LocaleConfig,
)
    requires
        extends(b, d),
        rows_kept(b, i, j, collection, leaf, config),
        0 <= k <= i,
        j <= l,
    ensures
        rows_kept(d, k, l, collection, leaf, config),
{
    let table = collection + "_"@ + leaf.path();
    let localized = leaf.localized() && config.enabled();
    let locale = if localized {
        Some(config.default_locale@)
    } else {
        None
    };
    let word = if localized {
        "1:per_locale"@
    } else {
        "1:shared"@
    };
    match leaf.field.field_type {
        FieldType::Array => {
            let sql = array_made(
                b.dialect,
                table,
                collection,
                row_fields(leaf.field.fields@),
                locale,
            );
            on_record_wider(b, d, i, j, k, l, "join_locale:"@ + table, word);
            made_where_missing_wider(b, d, i, j, k, l, table, sql);
            between_wider(
                b,
                d,
                i,
                j,
                k,
                l,
                running(ddl_text(b.dialect, index_statement(table, localized))),
            );
        },
        FieldType::Blocks => {
            on_record_wider(b, d, i, j, k, l, "join_locale:"@ + table, word);
            made_where_missing_wider(
                b,
                d,
                i,
                j,
                k,
                l,
                table,
                blocks_made(table, collection, locale),
            );
            between_wider(
                b,
                d,
                i,
                j,
                k,
                l,
                running(ddl_text(b.dialect, index_statement(table, localized))),
            );
        },
        FieldType::Relationship | FieldType::Upload => match leaf.field.relationship {
            Some(rc) => {
                if rc.has_many {
                    let sql = junction_made(
                        table,
                        collection,
                        rc.polymorphic@.len() > 0,
                        locale,
                    );
                    on_record_wider(b, d, i, j, k, l, "join_locale:"@ + table, word);
                    made_where_missing_wider(b, d, i, j, k, l, table, sql);
                    on_record_wider(
                        b,
                        d,
                        i,
                        j,
                        k,
                        l,
                        "relationship_target:"@ + table,
                        pointed_at(rc),
                    );
                }
            },
            None => {},
        },
        _ => {},
    }
}

/// It is on record afterwards whether a table keeps rows per locale.
pub proof fn locales_of_rows_are_recorded(
    s: SessionView,
    table: Seq<char>,
    localized: bool,
    default_locale: Seq<char>,
)
    ensures
        ({
            let (end, r) = sync_locale_rows_step(s, table, localized, default_locale);
            r is Ok ==> locale_kept(
                end,
                s.sent.len() as int,
                end.sent.len() as int,
                table,
                localized,
            )
        }),
{
    let (end, r) = sync_locale_rows_step(s, table, localized, default_locale);
    if r is Ok {
        let key = "join_locale:"@ + table;
        let value = if localized {
            "1:per_locale"@
        } else {
            "1:shared"@
        };
        let at = s.sent.len() as int;
        let last = end.sent.len() as int;
        what_is_read_is_on_record(s, key);
        let (s1, stored) = meta::get_step(s, key);
        let recorded = recorded_step(s, table).1->Ok_0;
        let s2 = if localized {
            s1
        } else {
            narrow_step(s1, table, recorded, default_locale).0
        };
        assert(extends(s1, s2)) by {
            extends_itself(s1);
            on_narrow_step(s1, table, recorded, default_locale);
        }
        if recorded == Some(localized) {
            assert(end == s2);
            assert(stored == Ok::<Option<Seq<char>>, ErrorView>(Some(value)));
            on_record_wider(s1, end, at, s1.sent.len() as int, at, last, key, value);
        } else {
            what_is_stored_is_on_record(s2, key, value);
            on_record_wider(end, end, s2.sent.len() as int, last, at, last, key, value);
        }
    }
}

proof fn an_array_is_made(
    s: SessionView,
    collection: Seq<char>,
    field: FieldDefinition,
    path: Seq<char>,
    localized: bool,
    config: LocaleConfig,
)
    requires
        sync_array_step(s, collection, field, path, localized, config).1 is Ok,
    ensures
        ({
            let end = sync_array_step(s, collection, field, path, localized, config).0;
            let table = collection + "_"@ + path;
            let locale = if localized {
                Some(config.default_locale@)
            } else {
                None
            };
            let sql = array_made(s.dialect, table, collection, row_fields(field.fields@), locale);
            let (i, j) = (s.sent.len() as int, end.sent.len() as int);
            &&& made_where_missing(end, i, j, table, sql)
            &&& between(end, i, j, running(ddl_text(s.dialect, index_statement(table, localized))))
        }),
{
    let end = sync_array_step(s, collection, field, path, localized, config).0;
    let table = collection + "_"@ + path;
    let locale = if localized {
        Some(config.default_locale@)
    } else {
        None
    };
    let subs = row_fields(field.fields@);
    let at = s.sent.len() as int;
    let last = end.sent.len() as int;
    a_table_is_looked_for(s, table, Seq::empty());
    let asked = asks_for_table(s.dialect, table);
    let looked = s.asked(asked);
    assert(looked.sent =~= s.sent + seq![asked]);
    let s1 = array_ddl_step(s, table, collection, subs, locale).0;
    an_arrays_rows_go_with_their_document(looked, table, collection, subs, locale, 0, Seq::empty());
    on_array_ddl_step(s, table, collection, subs, locale);
    an_index_is_given(s1, table, localized);
    let sql = array_made(s.dialect, table, collection, subs, locale);
    assert(extends(looked, s1)) by {
        if told_missing(s, at) {
            on_create_array_step(looked, table, collection, subs, locale);
        } else {
            on_update_array_step(looked, table, subs, locale);
        }
    }
    assert(looked.sent[at] == asked);
    extends_on(looked, s1, end);
    assert(s1.sent[at] == asked);
    assert(end.sent[at] == asked);
    if told_missing(s, at) {
        assert(s1.sent[at + 1] == running(ddl_text(s.dialect, sql)));
        assert(end.sent[at + 1] == s1.sent[at + 1]);
    }
    between_wider(
        end,
        end,
        s1.sent.len() as int,
        last,
        at,
        last,
        running(ddl_text(s.dialect, index_statement(table, localized))),
    );
}

proof fn an_index_is_given(s: SessionView, table: Seq<char>, localized: bool)
    ensures
        ({
            let name = index_name(table, localized, short_digest(table));
            let (end, r) = sync_index_step(s, table, localized, name);
            &&& extends(s, end)
            &&& r is Ok ==> between(
                end,
                s.sent.len() as int,
                end.sent.len() as int,
                running(ddl_text(s.dialect, index_statement(table, localized))),
            )
        }),
{
    let name = index_name(table, localized, short_digest(table));
    let (end, r) = sync_index_step(s, table, localized, name);
    on_parent_index_sync_index_step(s, table, localized, name);
    if r is Ok {
        let s1 = drop_other_step(s, table, name).0;
        on_drop_other_step(s, table, name);
        let made = running(ddl_text(s.dialect, index_statement(table, localized)));
        assert(end == s1.asked(made));
        assert(end.sent[s1.sent.len() as int] == made);
    }
}

proof fn blocks_are_made(
    s: SessionView,
    collection: Seq<char>,
    path: Seq<char>,
    localized: bool,
    config: LocaleConfig,
)
    requires
        sync_blocks_step(s, collection, path, localized, config).1 is Ok,
    ensures
        ({
            let end = sync_blocks_step(s, collection, path, localized, config).0;
            let table = collection + "_"@ + path;
            let locale = if localized {
                Some(config.default_locale@)
            } else {
                None
            };
            let (i, j) = (s.sent.len() as int, end.sent.len() as int);
            &&& made_where_missing(end, i, j, table, blocks_made(table, collection, locale))
            &&& between(end, i, j, running(ddl_text(s.dialect, index_statement(table, localized))))
        }),
{
    let end = sync_blocks_step(s, collection, path, localized, config).0;
    let table = collection + "_"@ + path;
    let locale = if localized {
        Some(config.default_locale@)
    } else {
        None
    };
    let at = s.sent.len() as int;
    let last = end.sent.len() as int;
    a_table_is_looked_for(s, table, Seq::empty());
    let asked = asks_for_table(s.dialect, table);
    let looked = s.asked(asked);
    assert(looked.sent =~= s.sent + seq![asked]);
    let s1 = blocks_ddl_step(s, table, collection, locale).0;
    a_blocks_rows_go_with_their_document(s, table, collection, locale, 0);
    on_blocks_ddl_step(s, table, collection, locale);
    an_index_is_given(s1, table, localized);
    assert(extends(looked, s1)) by {
        if told_missing(s, at) {
            on_noted(looked, "Creating blocks table: "@ + table);
            let noted = looked.noted("Creating blocks table: "@ + table);
            on_ddl_step(noted, blocks_made(table, collection, locale));
            extends_on(looked, noted, s1);
        } else {
            match locale {
                Some(code) => {
                    on_ensure_locale_column_step(looked, table, code);
                },
                None => {
                    extends_itself(looked);
                },
            }
        }
    }
    assert(looked.sent[at] == asked);
    extends_on(looked, s1, end);
    assert(s1.sent[at] == asked);
    assert(end.sent[at] == asked);
    if told_missing(s, at) {
        assert(end.sent[at + 1] == s1.sent[at + 1]);
    }
    between_wider(
        end,
        end,
        s1.sent.len() as int,
        last,
        at,
        last,
        running(ddl_text(s.dialect, index_statement(table, localized))),
    );
}

/// What the rows of a reference to many point at is on record afterwards.
pub proof fn targets_are_recorded(s: SessionView, table: Seq<char>, rc: RelationshipConfig)
    ensures
        ({
            let (end, r) = track_target_step(s, table, rc);
            r is Ok ==> on_record(
                end,
                s.sent.len() as int,
                end.sent.len() as int,
                "relationship_target:"@ + table,
                pointed_at(rc),
            )
        }),
{
    let (end, r) = track_target_step(s, table, rc);
    if r is Ok {
        let key = "relationship_target:"@ + table;
        let value = pointed_at(rc);
        let (s1, stored) = meta::get_step(s, key);
        what_is_read_is_on_record(s, key);
        if stored != Ok::<Option<Seq<char>>, ErrorView>(Some(value)) {
            let s2 = match stored {
                Ok(Some(previous)) => warn_repointed_step(s1, table, previous, value).0,
                _ => s1,
            };
            assert(extends(s1, s2)) by {
                extends_itself(s1);
                match stored {
                    Ok(Some(previous)) => {
                        on_warn_repointed_step(s1, table, previous, value);
                    },
                    _ => {},
                }
            }
            what_is_stored_is_on_record(s2, key, value);
            on_record_wider(
                end,
                end,
                s2.sent.len() as int,
                end.sent.len() as int,
                s.sent.len() as int,
                end.sent.len() as int,
                key,
                value,
            );
        }
    }
}

proof fn a_junction_is_made(
    s: SessionView,
    collection: Seq<char>,
    rc: RelationshipConfig,
    path: Seq<char>,
    localized: bool,
    config: LocaleConfig,
)
    requires
        rc.has_many,
        sync_relationship_step(s, collection, Some(rc), path, localized, config).1 is Ok,
    ensures
        ({
            let end = sync_relationship_step(
                s,
                collection,
                Some(rc),
                path,
                localized,
                config,
            ).0;
            let table = collection + "_"@ + path;
            let locale = if localized {
                Some(config.default_locale@)
            } else {
                None
            };
            let sql = junction_made(table, collection, rc.polymorphic@.len() > 0, locale);
            let (i, j) = (s.sent.len() as int, end.sent.len() as int);
            &&& made_where_missing(end, i, j, table, sql)
            &&& on_record(end, i, j, "relationship_target:"@ + table, pointed_at(rc))
        }),
{
    let end = sync_relationship_step(s, collection, Some(rc), path, localized, config).0;
    let table = collection + "_"@ + path;
    let locale = if localized {
        Some(config.default_locale@)
    } else {
        None
    };
    let polymorphic = rc.polymorphic@.len() > 0;
    let shape = JunctionShapeView { polymorphic, default_locale: locale };
    let at = s.sent.len() as int;
    let last = end.sent.len() as int;
    a_table_is_looked_for(s, table, Seq::empty());
    let asked = asks_for_table(s.dialect, table);
    let looked = s.asked(asked);
    assert(looked.sent =~= s.sent + seq![asked]);
    let s1 = junction_ddl_step(s, table, collection, shape).0;
    a_junctions_rows_go_with_their_document(looked, table, collection, polymorphic, locale, 0);
    on_junction_ddl_step(s, table, collection, shape);
    on_track_target_step(s1, table, rc);
    targets_are_recorded(s1, table, rc);
    assert(end == track_target_step(s1, table, rc).0);
    assert(extends(looked, s1)) by {
        if told_missing(s, at) {
            on_create_junction_step(looked, table, collection, shape);
        } else {
            on_reconcile_step(looked, table, collection, shape);
        }
    }
    assert(looked.sent[at] == asked);
    extends_on(looked, s1, end);
    assert(s1.sent[at] == asked);
    assert(end.sent[at] == asked);
    if told_missing(s, at) {
        assert(end.sent[at + 1] == s1.sent[at + 1]);
    }
    on_record_wider(
        end,
        end,
        s1.sent.len() as int,
        last,
        at,
        last,
        "relationship_target:"@ + table,
        pointed_at(rc),
    );
}

spec fn plan_of(leaf: LeafView, enabled: bool) -> Option<PlanView> {
    let kind = match leaf.field.field_type {
        FieldType::Relationship | FieldType::Upload => Some(JoinTableKind::Relationship),
        FieldType::Array => Some(JoinTableKind::Array),
        FieldType::Blocks => Some(JoinTableKind::Blocks),
        _ => None,
    };
    match kind {
        None => None,
        Some(kind) => Some(
            PlanView {
                kind,
                field: leaf.field,
                full_name: leaf.path(),
                has_locale_col: leaf.localized() && enabled,
            },
        ),
    }
}

proof fn every_leaf_is_planned(found: Seq<LeafView>, enabled: bool, m: int)
    requires
        0 <= m < found.len(),
        plan_of(found[m], enabled) is Some,
    ensures
        plans_of(found, enabled).contains(plan_of(found[m], enabled)->Some_0),
    decreases found.len(),
{
    let plan = plan_of(found[m], enabled)->Some_0;
    let before = plans_of(found.drop_last(), enabled);
    let all = plans_of(found, enabled);
    if m == found.len() - 1 {
        assert(all.last() == plan);
    } else {
        assert(found.drop_last()[m] == found[m]);
        every_leaf_is_planned(found.drop_last(), enabled, m);
        let k = choose|k: int| 0 <= k < before.len() && before[k] == plan;
        assert(all[k] == plan);
    }
}

proof fn a_planned_table_is_kept(
    s: SessionView,
    collection: Seq<char>,
    leaf: LeafView,
    config: LocaleConfig,
)
    requires
        plan_of(leaf, config.enabled()) is Some,
    ensures
        ({
            let (end, r) = plan_step(
                s,
                collection,
                plan_of(leaf, config.enabled())->Some_0,
                config,
            );
            r is Ok ==> rows_kept(
                end,
                s.sent.len() as int,
                end.sent.len() as int,
                collection,
                leaf,
                config,
            )
        }),
{
    let plan = plan_of(leaf, config.enabled())->Some_0;
    let (end, r) = plan_step(s, collection, plan, config);
    if r is Ok && plan.has_table() {
        let table = collection + "_"@ + leaf.path();
        let localized = plan.has_locale_col;
        let locale = if localized {
            Some(config.default_locale@)
        } else {
            None
        };
        let word = if localized {
            "1:per_locale"@
        } else {
            "1:shared"@
        };
        let at = s.sent.len() as int;
        let last = end.sent.len() as int;
        let s1 = sync_locale_rows_step(s, table, localized, config.default_locale@).0;
        on_sync_locale_rows_step(s, table, localized, config.default_locale@);
        locales_of_rows_are_recorded(s, table, localized, config.default_locale@);
        assert(end == plan_ddl_step(s1, collection, plan, config).0);
        on_plan_ddl_step(s1, collection, plan, config);
        let from = s1.sent.len() as int;
        on_record_wider(s1, end, at, from, at, last, "join_locale:"@ + table, word);
        match leaf.field.field_type {
            FieldType::Array => {
                an_array_is_made(s1, collection, leaf.field, leaf.path(), localized, config);
                let sql = array_made(
                    s.dialect,
                    table,
                    collection,
                    row_fields(leaf.field.fields@),
                    locale,
                );
                made_where_missing_wider(end, end, from, last, at, last, table, sql);
                between_wider(
                    end,
                    end,
                    from,
                    last,
                    at,
                    last,
                    running(ddl_text(s.dialect, index_statement(table, localized))),
                );
            },
            FieldType::Blocks => {
                blocks_are_made(s1, collection, leaf.path(), localized, config);
                made_where_missing_wider(
                    end,
                    end,
                    from,
                    last,
                    at,
                    last,
                    table,
                    blocks_made(table, collection, locale),
                );
                between_wider(
                    end,
                    end,
                    from,
                    last,
                    at,
                    last,
                    running(ddl_text(s.dialect, index_statement(table, localized))),
                );
            },
            _ => {
                let rc = leaf.field.relationship->Some_0;
                a_junction_is_made(s1, collection, rc, leaf.path(), localized, config);
                made_where_missing_wider(
                    end,
                    end,
                    from,
                    last,
                    at,
                    last,
                    table,
                    junction_made(table, collection, rc.polymorphic@.len() > 0, locale),
                );
                on_record_wider(
                    end,
                    end,
                    from,
                    last,
                    at,
                    last,
                    "relationship_target:"@ + table,
                    pointed_at(rc),
                );
            },
        }
    }
}

proof fn planned_tables_are_kept(
    s: SessionView,
    collection: Seq<char>,
    plans: Seq<PlanView>,
    config: LocaleConfig,
    i: int,
    k: int,
    leaf: LeafView,
)
    requires
        0 <= i <= k < plans.len(),
        plan_of(leaf, config.enabled()) == Some(plans[k]),
    ensures
        ({
            let (end, r) = plans_from(s, collection, plans, config, i);
            r is Ok ==> rows_kept(
                end,
                s.sent.len() as int,
                end.sent.len() as int,
                collection,
                leaf,
                config,
            )
        }),
    decreases plans.len() - i,
{
    let (end, r) = plans_from(s, collection, plans, config, i);
    if r is Ok {
        let s1 = plan_step(s, collection, plans[i], config).0;
        on_plan_step(s, collection, plans[i], config);
        on_plans_from(s1, collection, plans, config, i + 1);
        let last = end.sent.len() as int;
        let (b, from, to) = if i == k {
            a_planned_table_is_kept(s, collection, leaf, config);
            (s1, s.sent.len() as int, s1.sent.len() as int)
        } else {
            planned_tables_are_kept(s1, collection, plans, config, i + 1, k, leaf);
            extends_itself(end);
            (end, s1.sent.len() as int, last)
        };
        rows_kept_wider(b, end, from, to, s.sent.len() as int, last, collection, leaf, config);
    }
}

/// After a sync of the tables that a definition's fields keep rows in, the table of every
/// such field, wherever it stands among groups and pages, is there as the field asks for.
pub proof fn every_row_table_is_kept(
    s: SessionView,
    collection: Seq<char>,
    fields: Seq<FieldDefinition>,
    config: LocaleConfig,
    m: int,
)
    requires
        0 <= m < leaves(fields, Seq::empty(), false).len(),
    ensures
        ({
            let (end, r) = sync_join_tables_step(s, collection, fields, config);
            r is Ok ==> rows_kept(
                end,
                s.sent.len() as int,
                end.sent.len() as int,
                collection,
                leaves(fields, Seq::empty(), false)[m],
                config,
            )
        }),
{
    let found = leaves(fields, Seq::empty(), false);
    let enabled = config.enabled();
    if plan_of(found[m], enabled) is Some {
        every_leaf_is_planned(found, enabled, m);
        let plans = plans_of(found, enabled);
        let k = choose|k: int|
            0 <= k < plans.len() && plans[k] == plan_of(found[m], enabled)->Some_0;
        planned_tables_are_kept(s, collection, plans, config, 0, k, found[m]);
    }
}

/// Where what rows point at changed and there are rows, the operator is told how many,
/// what they were written against and what the field points at now; where there are none,
/// of nothing.
pub proof fn rows_that_point_elsewhere_are_told_of(
    s: SessionView,
    table: Seq<char>,
    previous: Seq<char>,
    now: Seq<char>,
    row: DbRowView,
    n: i64,
)
    requires
        row.columns == seq!["cnt"@],
        row.values == seq![DbValueView::Integer(n)],
        answered(s, 0, ReplyView::Row(Some(row))),
    ensures
        ({
            let (end, r) = warn_repointed_step(s, table, previous, now);
            &&& r is Ok
            &&& end.sent == s.sent.push(
                RequestView::QueryOne {
                    sql: "SELECT COUNT(*) AS cnt FROM "@ + quoted(table),
                    params: Seq::empty(),
                },
            )
            &&& n > 0 ==> end.warnings == s.warnings.push(
                "Relationship table '"@ + table + "' now points at '"@ + now + "' but its "@
                    + decimal(n as nat) + " row(s) were written against '"@ + previous
                    + "' — those ids resolve against nothing in '"@ + now
                    + "'. Re-point the relationship back, or clear the table's rows."@,
            )
            &&& n <= 0 ==> end.warnings == s.warnings
        }),
{
    reveal_with_fuel(DbRowView::position, 2);
    assert(row.columns[0] == "cnt"@);
    assert(row.position("cnt"@, 1) == Some(0int));
    assert(row.values[0] == DbValueView::Integer(n));
}

} // verus!
