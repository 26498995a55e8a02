//! Passes that run once: what they rewrite, in which tables, and what they record.
use crate::definition::Registry;
use crate::migrate::meta;
use crate::migrate::legacy_timestamps::{
    normalize_from, normalize_step, normalize_table_step, normalize_target_step, rewrite_from,
    rewrite_sql, target_tables, timestamp_columns,
};
use crate::migrate::transaction::{
    in_meta_delete_step, in_meta_get_step, in_meta_upsert_step, in_normalize_from,
    in_normalize_pair_step, in_normalize_table_step, in_normalize_target_step, in_rewrite_from,
    in_table_columns_step, in_table_exists_step,
};
use crate::promises::{
    after, between, between_wider, on_record, on_record_wider, parameters_are_counted_from_one,
    read_as, record_read, record_removed, running,
};
use crate::promises::lookups::{
    a_table_is_looked_for, asks_for_columns, asks_for_table, columns_are_looked_for, told_columns,
    told_missing, told_there,
};
use crate::promises::records::{what_is_read_is_on_record, what_is_stored_is_on_record};
use crate::replay::{extends_itself, extends_on};
use crate::session::{Dialect, SessionView, extends};
use crate::value::ErrorView;
use vstd::prelude::*;

verus! {

/// The statement giving a column's old timestamps their present form.
pub open spec fn timestamps_rewritten(table: Seq<char>, column: Seq<char>) -> Seq<char> {
    "UPDATE \""@ + table + "\" SET \""@ + column + "\" = substr(\""@ + column
        + "\", 1, 10) || 'T' || substr(\""@ + column + "\", 12) || '.000Z' WHERE length(\""@ + column
        + "\") = 19 AND substr(\""@ + column + "\", 11, 1) = ' '"@
}

/// Whether a column's old timestamps are rewritten where the table has it.
pub open spec fn column_rewritten(
    s: SessionView,
    i: int,
    j: int,
    table: Seq<char>,
    existing: Seq<Seq<char>>,
    column: Seq<char>,
) -> bool {
    existing.contains(column) ==> between(s, i, j, running(timestamps_rewritten(table, column)))
}

/// Whether, from the `i`-th request on and before the `j`-th, a table was looked for and,
/// where it is there, every column of it that holds timestamps was rewritten.
pub open spec fn table_rewritten(s: SessionView, i: int, j: int, table: Seq<char>) -> bool {
    exists|k: int|
        0 <= i <= k < j && k < s.sent.len() && #[trigger] s.sent[k] == asks_for_table(
            s.dialect,
            table,
        ) && (told_missing(s, k) || told_there(s, k) && columns_rewritten(s, k + 1, j, table))
}

/// Whether the columns of a table were asked for, and each that holds timestamps
/// rewritten.
pub open spec fn columns_rewritten(s: SessionView, k: int, j: int, table: Seq<char>) -> bool {
    &&& 0 <= k < j && k < s.sent.len()
    &&& s.sent[k] == asks_for_columns(s.dialect, table)
    &&& told_columns(s, k) matches Some(existing) && {
        &&& column_rewritten(s, k + 1, j, table, existing, "created_at"@)
        &&& column_rewritten(s, k + 1, j, table, existing, "updated_at"@)
        &&& column_rewritten(s, k + 1, j, table, existing, "_deleted_at"@)
        &&& column_rewritten(s, k + 1, j, table, existing, "started_at"@)
        &&& column_rewritten(s, k + 1, j, table, existing, "completed_at"@)
        &&& column_rewritten(s, k + 1, j, table, existing, "heartbeat_at"@)
        &&& column_rewritten(s, k + 1, j, table, existing, "retry_after"@)
    }
}

proof fn rewrites_are_as_written(table: Seq<char>, column: Seq<char>)
    ensures
        rewrite_sql(table, column) == timestamps_rewritten(table, column),
{
    reveal_strlit("\"");
    reveal_strlit("\" SET ");
    reveal_strlit("\" SET \"");
    reveal_strlit(" = substr(");
    reveal_strlit("\" = substr(\"");
    reveal_strlit(", 1, 10) || 'T' || substr(");
    reveal_strlit("\", 1, 10) || 'T' || substr(\"");
    reveal_strlit(", 12) || '.000Z' WHERE length(");
    reveal_strlit("\", 12) || '.000Z' WHERE length(\"");
    reveal_strlit(") = 19 AND substr(");
    reveal_strlit("\") = 19 AND substr(\"");
    reveal_strlit(", 11, 1) = ' '");
    reveal_strlit("\", 11, 1) = ' '");
    assert(rewrite_sql(table, column) =~= timestamps_rewritten(table, column));
}

proof fn a_listed_column_is_rewritten(
    s: SessionView,
    table: Seq<char>,
    existing: Seq<Seq<char>>,
    columns: Seq<Seq<char>>,
    i: int,
    k: int,
)
    requires
        0 <= i <= k < columns.len(),
        existing.contains(columns[k]),
        rewrite_from(s, table, existing, columns, i).1 is Ok,
    ensures
        ({
            let end = rewrite_from(s, table, existing, columns, i).0;
            between(
                end,
                s.sent.len() as int,
                end.sent.len() as int,
                running(timestamps_rewritten(table, columns[k])),
            )
        }),
    decreases columns.len() - i,
{
    broadcast use in_rewrite_from;

    let end = rewrite_from(s, table, existing, columns, i).0;
    let request = running(timestamps_rewritten(table, columns[k]));
    if existing.contains(columns[i]) {
        rewrites_are_as_written(table, columns[i]);
        let s1 = s.asked(running(timestamps_rewritten(table, columns[i])));
        assert(end == rewrite_from(s1, table, existing, columns, i + 1).0);
        if i == k {
            assert(s1.sent[s.sent.len() as int] == request);
            assert(end.sent[s.sent.len() as int] == request);
        } else {
            a_listed_column_is_rewritten(s1, table, existing, columns, i + 1, k);
            between_wider(
                end,
                end,
                s1.sent.len() as int,
                end.sent.len() as int,
                s.sent.len() as int,
                end.sent.len() as int,
                request,
            );
        }
    } else {
        a_listed_column_is_rewritten(s, table, existing, columns, i + 1, k);
    }
}

/// Rewriting a table's old timestamps rewrites every column of it that holds any:
/// when its rows were made, changed and deleted, when a job began and ended, was last
/// heard of and may be tried again.
pub proof fn a_table_is_rewritten(s: SessionView, table: Seq<char>)
    ensures
        ({
            let (end, r) = normalize_table_step(s, table);
            r is Ok ==> table_rewritten(end, s.sent.len() as int, end.sent.len() as int, table)
        }),
{
    broadcast use {in_rewrite_from, in_table_exists_step, in_table_columns_step};

    let (end, r) = normalize_table_step(s, table);
    if r is Ok {
        let at = s.sent.len() as int;
        a_table_is_looked_for(s, table, Seq::empty());
        let s1 = after(s, seq![asks_for_table(s.dialect, table)]);
        assert(s1.sent[at] == asks_for_table(s.dialect, table));
        if told_there(s, at) {
            columns_are_looked_for(s1, table, Seq::empty());
            let s2 = after(s1, seq![asks_for_columns(s.dialect, table)]);
            assert(s2.sent[at + 1] == asks_for_columns(s.dialect, table));
            let existing = told_columns(s1, at + 1)->Some_0;
            assert(end == rewrite_from(s2, table, existing, timestamp_columns(), 0).0);
            assert(extends(s2, end));
            assert forall|c: int| 0 <= c < timestamp_columns().len() implies column_rewritten(
                end,
                at + 2,
                end.sent.len() as int,
                table,
                existing,
                #[trigger] timestamp_columns()[c],
            ) by {
                if existing.contains(timestamp_columns()[c]) {
                    a_listed_column_is_rewritten(s2, table, existing, timestamp_columns(), 0, c);
                }
            }
            assert(timestamp_columns()[0] == "created_at"@);
            assert(timestamp_columns()[1] == "updated_at"@);
            assert(timestamp_columns()[2] == "_deleted_at"@);
            assert(timestamp_columns()[3] == "started_at"@);
            assert(timestamp_columns()[4] == "completed_at"@);
            assert(timestamp_columns()[5] == "heartbeat_at"@);
            assert(timestamp_columns()[6] == "retry_after"@);
            assert(columns_rewritten(end, at + 1, end.sent.len() as int, table));
        }
        assert(end.sent[at] == asks_for_table(s.dialect, table));
    }
}

/// Whether, from the `i`-th request on and before the `j`-th, a table's timestamps are on
/// record as rewritten and, unless that was read, they and those of the versions of its
/// rows were.
pub open spec fn target_rewritten(
    s: SessionView,
    i: int,
    j: int,
    table: Seq<char>,
    versioned: bool,
) -> bool {
    let key = "legacy_timestamps:"@ + table;
    exists|k: int|
        0 <= i <= k < j && k < s.sent.len() && #[trigger] s.sent[k] == record_read(
            s.dialect,
            key,
        ) && {
            ||| read_as(s, k, "1"@)
            ||| {
                &&& table_rewritten(s, k + 1, j, table)
                &&& versioned ==> table_rewritten(s, k + 1, j, "_versions_"@ + table)
                &&& on_record(s, k + 1, j, key, "1"@)
            }
        }
}

proof fn column_rewritten_wider(
    b: SessionView,
    d: SessionView,
    i: int,
    j: int,
    k: int,
    l: int,
    table: Seq<char>,
    existing: Seq<Seq<char>>,
    column: Seq<char>,
)
    requires
        extends(b, d),
        column_rewritten(b, i, j, table, existing, column),
        0 <= k <= i,
        j <= l,
    ensures
        column_rewritten(d, k, l, table, existing, column),
{
    if existing.contains(column) {
        between_wider(b, d, i, j, k, l, running(timestamps_rewritten(table, column)));
    }
}

pub(crate) proof fn table_rewritten_wider(
    b: SessionView,
    d: SessionView,
    i: int,
    j: int,
    k: int,
    l: int,
    table: Seq<char>,
)
    requires
        extends(b, d),
        table_rewritten(b, i, j, table),
        0 <= k <= i,
        j <= l,
    ensures
        table_rewritten(d, k, l, table),
{
    let at = choose|at: int|
        0 <= i <= at < j && at < b.sent.len() && #[trigger] b.sent[at] == asks_for_table(
            b.dialect,
            table,
        ) && (told_missing(b, at) || told_there(b, at) && columns_rewritten(b, at + 1, j, table));
    assert(d.sent[at] == asks_for_table(d.dialect, table));
    if told_there(b, at) {
        let existing = told_columns(b, at + 1)->Some_0;
        assert(d.sent[at + 1] == b.sent[at + 1]);
        column_rewritten_wider(b, d, at + 2, j, at + 2, l, table, existing, "created_at"@);
        column_rewritten_wider(b, d, at + 2, j, at + 2, l, table, existing, "updated_at"@);
        column_rewritten_wider(b, d, at + 2, j, at + 2, l, table, existing, "_deleted_at"@);
        column_rewritten_wider(b, d, at + 2, j, at + 2, l, table, existing, "started_at"@);
        column_rewritten_wider(b, d, at + 2, j, at + 2, l, table, existing, "completed_at"@);
        column_rewritten_wider(b, d, at + 2, j, at + 2, l, table, existing, "heartbeat_at"@);
        column_rewritten_wider(b, d, at + 2, j, at + 2, l, table, existing, "retry_after"@);
        assert(columns_rewritten(d, at + 1, l, table));
    }
}

pub(crate) proof fn target_rewritten_wider(
    b: SessionView,
    d: SessionView,
    i: int,
    j: int,
    k: int,
    l: int,
    table: Seq<char>,
    versioned: bool,
)
    requires
        extends(b, d),
        target_rewritten(b, i, j, table, versioned),
        0 <= k <= i,
        j <= l,
    ensures
        target_rewritten(d, k, l, table, versioned),
{
    let key = "legacy_timestamps:"@ + table;
    let at = choose|at: int|
        0 <= i <= at < j && at < b.sent.len() && #[trigger] b.sent[at] == record_read(
            b.dialect,
            key,
        ) && {
            ||| read_as(b, at, "1"@)
            ||| {
                &&& table_rewritten(b, at + 1, j, table)
                &&& versioned ==> table_rewritten(b, at + 1, j, "_versions_"@ + table)
                &&& on_record(b, at + 1, j, key, "1"@)
            }
        };
    assert(d.sent[at] == record_read(d.dialect, key));
    if !read_as(b, at, "1"@) {
        table_rewritten_wider(b, d, at + 1, j, at + 1, l, table);
        if versioned {
            table_rewritten_wider(b, d, at + 1, j, at + 1, l, "_versions_"@ + table);
        }
        on_record_wider(b, d, at + 1, j, at + 1, l, key, "1"@);
    }
}

/// A table's old timestamps are rewritten unless that is on record, and with them those
/// of the versions of its rows where it has any; then it is on record.
pub proof fn a_target_is_rewritten(s: SessionView, table: Seq<char>, versioned: bool)
    ensures
        ({
            let (end, r) = normalize_target_step(s, table, versioned);
            r is Ok ==> target_rewritten(
                end,
                s.sent.len() as int,
                end.sent.len() as int,
                table,
                versioned,
            )
        }),
{
    broadcast use {
        in_meta_get_step, in_meta_upsert_step, in_normalize_pair_step, in_normalize_table_step,
        extends_on,
    };

    let key = "legacy_timestamps:"@ + table;
    let (end, r) = normalize_target_step(s, table, versioned);
    if r is Ok {
        let at = s.sent.len() as int;
        let last = end.sent.len() as int;
        what_is_read_is_on_record(s, key);
        let (s1, stored) = meta::get_step(s, key);
        assert(s1.sent[at] == record_read(s.dialect, key));
        if stored == Ok::<Option<Seq<char>>, ErrorView>(Some("1"@)) {
            assert(read_as(end, at, "1"@));
            assert(end.sent[at] == record_read(end.dialect, key));
        } else {
            a_table_is_rewritten(s1, table);
            let t = normalize_table_step(s1, table).0;
            let s2 = if versioned {
                normalize_table_step(t, "_versions_"@ + table).0
            } else {
                t
            };
            assert(extends(s1, t) && extends(t, s2)) by {
                broadcast use extends_itself;

            }
            assert(end == meta::upsert_step(s2, key, "1"@).0);
            assert(extends(s2, end));
            table_rewritten_wider(
                t,
                end,
                s1.sent.len() as int,
                t.sent.len() as int,
                at + 1,
                last,
                table,
            );
            if versioned {
                a_table_is_rewritten(t, "_versions_"@ + table);
                table_rewritten_wider(
                    s2,
                    end,
                    t.sent.len() as int,
                    s2.sent.len() as int,
                    at + 1,
                    last,
                    "_versions_"@ + table,
                );
            }
            what_is_stored_is_on_record(s2, key, "1"@);
            on_record_wider(
                end,
                end,
                s2.sent.len() as int,
                end.sent.len() as int,
                at + 1,
                last,
                key,
                "1"@,
            );
            assert(end.sent[at] == record_read(end.dialect, key));
        }
    }
}

proof fn a_listed_target_is_rewritten(s: SessionView, tables: Seq<Seq<char>>, i: int, k: int)
    requires
        0 <= i <= k < tables.len(),
    ensures
        ({
            let (end, r) = normalize_from(s, tables, i);
            r is Ok ==> target_rewritten(
                end,
                s.sent.len() as int,
                end.sent.len() as int,
                tables[k],
                true,
            )
        }),
    decreases tables.len() - i,
{
    broadcast use {in_normalize_from, in_normalize_target_step};

    let (end, r) = normalize_from(s, tables, i);
    if r is Ok {
        let (s1, r1) = normalize_target_step(s, tables[i], true);
        assert(end == normalize_from(s1, tables, i + 1).0);
        let last = end.sent.len() as int;
        if i == k {
            a_target_is_rewritten(s, tables[i], true);
            target_rewritten_wider(
                s1,
                end,
                s.sent.len() as int,
                s1.sent.len() as int,
                s.sent.len() as int,
                last,
                tables[k],
                true,
            );
        } else {
            a_listed_target_is_rewritten(s1, tables, i + 1, k);
            target_rewritten_wider(
                end,
                end,
                s1.sent.len() as int,
                last,
                s.sent.len() as int,
                last,
                tables[k],
                true,
            );
        }
    }
}

/// Whether the old timestamps of the jobs, of every collection and of every global are
/// rewritten, or on record as rewritten.
pub open spec fn timestamps_kept(s: SessionView, i: int, j: int, registry: Registry) -> bool {
    &&& target_rewritten(s, i, j, "_crap_jobs"@, false)
    &&& forall|c: int|
        0 <= c < registry.collections@.len() ==> target_rewritten(
            s,
            i,
            j,
            (#[trigger] registry.collections@[c]).slug@,
            true,
        )
    &&& forall|g: int|
        0 <= g < registry.globals@.len() ==> target_rewritten(
            s,
            i,
            j,
            "_global_"@ + (#[trigger] registry.globals@[g]).slug@,
            true,
        )
}

/// On SQLite the old timestamps of the jobs, of every collection and of every global are
/// rewritten once, and the mark of an earlier way to do so is removed. Postgres never had
/// them: nothing is asked of it.
pub proof fn every_old_timestamp_is_rewritten(s: SessionView, registry: Registry)
    ensures
        ({
            let (end, r) = normalize_step(s, registry);
            &&& s.dialect == Dialect::Postgres ==> end == s && r is Ok
            &&& s.dialect == Dialect::Sqlite && r is Ok ==> {
                &&& timestamps_kept(end, s.sent.len() as int, end.sent.len() as int, registry)
                &&& between(
                    end,
                    s.sent.len() as int,
                    end.sent.len() as int,
                    record_removed(s.dialect, "legacy_timestamps_normalized"@),
                )
            }
        }),
{
    broadcast use {
        in_meta_delete_step, in_normalize_from, in_normalize_target_step, extends_on,
    };

    let (end, r) = normalize_step(s, registry);
    if s.dialect == Dialect::Sqlite && r is Ok {
        let at = s.sent.len() as int;
        let last = end.sent.len() as int;
        parameters_are_counted_from_one(s.dialect);
        let removed = record_removed(s.dialect, "legacy_timestamps_normalized"@);
        let s1 = s.asked(removed);
        assert(s1 == meta::delete_step(s, "legacy_timestamps_normalized"@).0);
        let s2 = normalize_target_step(s1, "_crap_jobs"@, false).0;
        let tables = target_tables(registry);
        assert(end == normalize_from(s2, tables, 0).0);
        assert(extends(s, s1) && extends(s1, s2) && extends(s2, end));
        assert(s1.sent[at] == removed);
        assert(end.sent[at] == removed);
        a_target_is_rewritten(s1, "_crap_jobs"@, false);
        target_rewritten_wider(
            s2,
            end,
            s1.sent.len() as int,
            s2.sent.len() as int,
            at,
            last,
            "_crap_jobs"@,
            false,
        );
        assert forall|c: int| 0 <= c < registry.collections@.len() implies target_rewritten(
            end,
            at,
            last,
            (#[trigger] registry.collections@[c]).slug@,
            true,
        ) by {
            assert(tables[c] == registry.collections@[c].slug@);
            a_listed_target_is_rewritten(s2, tables, 0, c);
            target_rewritten_wider(
                end,
                end,
                s2.sent.len() as int,
                last,
                at,
                last,
                tables[c],
                true,
            );
        }
        assert forall|g: int| 0 <= g < registry.globals@.len() implies target_rewritten(
            end,
            at,
            last,
            "_global_"@ + (#[trigger] registry.globals@[g]).slug@,
            true,
        ) by {
            let c = registry.collections@.len() + g;
            assert(tables[c] == "_global_"@ + registry.globals@[g].slug@);
            a_listed_target_is_rewritten(s2, tables, 0, c);
            target_rewritten_wider(
                end,
                end,
                s2.sent.len() as int,
                last,
                at,
                last,
                tables[c],
                true,
            );
        }
    }
}

pub(crate) proof fn timestamps_kept_wider(
    b: SessionView,
    d: SessionView,
    i: int,
    j: int,
    k: int,
    l: int,
    registry: Registry,
)
    requires
        extends(b, d),
        timestamps_kept(b, i, j, registry),
        0 <= k <= i,
        j <= l,
    ensures
        timestamps_kept(d, k, l, registry),
{
    let collections = registry.collections@;
    let globals = registry.globals@;
    target_rewritten_wider(b, d, i, j, k, l, "_crap_jobs"@, false);
    assert forall|c: int| 0 <= c < collections.len() implies target_rewritten(
        d,
        k,
        l,
        (#[trigger] collections[c]).slug@,
        true,
    ) by {
        target_rewritten_wider(b, d, i, j, k, l, collections[c].slug@, true);
    }
    assert forall|g: int| 0 <= g < globals.len() implies target_rewritten(
        d,
        k,
        l,
        "_global_"@ + (#[trigger] globals[g]).slug@,
        true,
    ) by {
        target_rewritten_wider(b, d, i, j, k, l, "_global_"@ + globals[g].slug@, true);
    }
}

} // verus!
