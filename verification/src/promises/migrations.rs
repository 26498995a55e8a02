//! Migrations: which files are, which were applied, and what starting over does.
use crate::definition::{LocaleConfig, Registry};
use crate::migrate::helpers::introspection::user_tables_step;
use crate::migrate::sync::{recreate_all_step, sync_body_step};
use crate::migrate::tracking::{
    applied_step, drop_all_tables_step, drop_tables_from, drop_tables_step, filenames_from,
    is_migration, pending_is_what_was_not_applied, pending_step, record_step, remove_step,
};
use crate::migrate::transaction::{
    in_drop_tables_from, in_drop_tables_step, in_sync_body_step, in_user_tables_step,
};
use crate::promises::{
    after, answered, between, between_asked, between_wider, first_mark,
    parameters_are_counted_from_one, running,
};
use crate::promises::sync::{every_stage_is_gone_through, synced, synced_on};
use crate::replay::{extends_on, on_ask_done, on_noted};
use crate::session::{Dialect, ReplyView, RequestView, SessionView, extends};
use crate::value::{DbRowView, DbValueView, ErrorView};
use vstd::prelude::*;

verus! {

/// A migration is a file with a name before `.lua`.
pub proof fn migrations_are_lua_files(name: Seq<char>)
    ensures
        is_migration(name) <==> exists|stem: Seq<char>|
            #![trigger stem.len()]
            stem.len() > 0 && name == stem + ".lua"@,
{
    reveal_strlit(".lua");
    if is_migration(name) {
        let stem = name.take(name.len() - 4);
        assert(name =~= stem + ".lua"@);
        assert(stem.len() > 0);
    }
    if exists|stem: Seq<char>|
        #![trigger stem.len()]
        stem.len() > 0 && name == stem + ".lua"@ {
        let stem = choose|stem: Seq<char>|
            #![trigger stem.len()]
            stem.len() > 0 && name == stem + ".lua"@;
        assert(name.skip(name.len() - 4) =~= ".lua"@);
    }
}

/// A migration is recorded under its file's name, and taken back under it.
pub proof fn migrations_are_recorded_by_name(
    s: SessionView,
    filename: Seq<char>,
    n: u64,
    why: Seq<char>,
)
    ensures
        record_step(s, filename).0 == after(
            s,
            seq![
                RequestView::Execute {
                    sql: "INSERT INTO _crap_migrations (filename) VALUES ("@ + first_mark(s.dialect)
                        + ")"@,
                    params: seq![DbValueView::Text(filename)],
                },
            ],
        ),
        answered(s, 0, ReplyView::Count(n)) ==> record_step(s, filename).1 == Ok::<(), ErrorView>(
            (),
        ),
        answered(s, 0, ReplyView::Failed(why)) ==> record_step(s, filename).1 == Err::<
            (),
            ErrorView,
        >(ErrorView::Backend("Failed to record migration "@ + filename + ": "@ + why)),
        remove_step(s, filename).0 == after(
            s,
            seq![
                RequestView::Execute {
                    sql: "DELETE FROM _crap_migrations WHERE filename = "@ + first_mark(s.dialect),
                    params: seq![DbValueView::Text(filename)],
                },
            ],
        ),
        answered(s, 0, ReplyView::Count(n)) ==> remove_step(s, filename).1 == Ok::<(), ErrorView>(
            (),
        ),
        answered(s, 0, ReplyView::Failed(why)) ==> remove_step(s, filename).1 == Err::<
            (),
            ErrorView,
        >(ErrorView::Backend("Failed to remove migration record "@ + filename + ": "@ + why)),
{
    parameters_are_counted_from_one(s.dialect);
    let a = record_step(s, filename).0.sent.last();
    let b = remove_step(s, filename).0.sent.last();
    assert(s.sent.push(a) =~= s.sent + seq![a]);
    assert(s.sent.push(b) =~= s.sent + seq![b]);
}

proof fn names_are_read(rows: Seq<DbRowView>, names: Seq<Seq<char>>, i: int)
    requires
        rows.len() == names.len(),
        0 <= i <= rows.len(),
        forall|k: int|
            #![trigger rows[k]]
            0 <= k < rows.len() ==> rows[k] == (DbRowView {
                columns: seq!["filename"@],
                values: seq![DbValueView::Text(names[k])],
            }),
    ensures
        filenames_from(rows, i, names.take(i)) == Ok::<Seq<Seq<char>>, ErrorView>(names),
    decreases rows.len() - i,
{
    if i < rows.len() {
        let row = rows[i];
        assert(row.columns[0] == "filename"@);
        assert(row.values[0] == DbValueView::Text(names[i]));
        reveal_with_fuel(DbRowView::position, 2);
        assert(row.position("filename"@, 1) == Some(0int));
        assert(names.take(i).push(names[i]) =~= names.take(i + 1));
        names_are_read(rows, names, i + 1);
    } else {
        assert(names.take(i) =~= names);
    }
}

/// The applied migrations are those that the table of them names, read over a connection
/// for reading; without the table none was applied.
pub proof fn applied_migrations_are_read(
    s: SessionView,
    sql: Seq<char>,
    rows: Seq<DbRowView>,
    names: Seq<Seq<char>>,
)
    requires
        s.dialect == Dialect::Sqlite,
        rows.len() == names.len(),
        forall|k: int|
            #![trigger rows[k]]
            0 <= k < rows.len() ==> rows[k] == (DbRowView {
                columns: seq!["filename"@],
                values: seq![DbValueView::Text(names[k])],
            }),
        answered(s, 0, ReplyView::Done),
    ensures
        answered(s, 1, ReplyView::Flag(false)) ==> applied_step(s, sql).1 == Ok::<
            Seq<Seq<char>>,
            ErrorView,
        >(Seq::empty()),
        answered(s, 1, ReplyView::Flag(true)) && answered(s, 2, ReplyView::Rows(rows))
            ==> applied_step(s, sql) == (
            after(
                s,
                seq![
                    RequestView::Connect { write: false },
                    RequestView::TableExists { table: "_crap_migrations"@ },
                    RequestView::QueryAll { sql, params: Seq::empty() },
                ],
            ),
            Ok::<Seq<Seq<char>>, ErrorView>(names),
        ),
{
    names_are_read(rows, names, 0);
    assert(names.take(0) =~= Seq::empty());
    let a = RequestView::Connect { write: false };
    let b = RequestView::TableExists { table: "_crap_migrations"@ };
    let c = RequestView::QueryAll { sql, params: Seq::empty() };
    assert(s.sent.push(a).push(b).push(c) =~= s.sent + seq![a, b, c]);
}

/// The statement dropping a table.
pub open spec fn table_dropped(table: Seq<char>) -> RequestView {
    running("DROP TABLE IF EXISTS \""@ + table + "\""@)
}

proof fn a_listed_table_is_dropped(s: SessionView, tables: Seq<Seq<char>>, i: int, k: int)
    requires
        0 <= i <= k < tables.len(),
        drop_tables_from(s, tables, i).1 is Ok,
    ensures
        ({
            let end = drop_tables_from(s, tables, i).0;
            between(
                end,
                s.sent.len() as int,
                end.sent.len() as int,
                table_dropped(tables[k]),
            )
        }),
    decreases tables.len() - i,
{
    broadcast use in_drop_tables_from;

    let end = drop_tables_from(s, tables, i).0;
    let request = table_dropped(tables[i]);
    let s1 = s.asked(request);
    let s2 = s1.noted("Dropped table: "@ + tables[i]);
    assert(end == drop_tables_from(s2, tables, i + 1).0);
    on_noted(s1, "Dropped table: "@ + tables[i]);
    extends_on(s1, s2, end);
    if i == k {
        between_asked(s, end, s.sent.len() as int, end.sent.len() as int, request);
    } else {
        a_listed_table_is_dropped(s2, tables, i + 1, k);
        between_wider(
            end,
            end,
            s2.sent.len() as int,
            end.sent.len() as int,
            s.sent.len() as int,
            end.sent.len() as int,
            table_dropped(tables[k]),
        );
    }
}

/// Whether the tables were asked for by the `k`-th request and every one of them dropped
/// before the `j`-th.
pub open spec fn all_dropped(s: SessionView, k: int, j: int) -> bool {
    &&& 0 <= k < j && k < s.sent.len() && k < s.replies.len()
    &&& s.dialect == Dialect::Sqlite ==> {
        &&& s.sent[k] == RequestView::ListUserTables
        &&& s.replies[k] matches ReplyView::Names(tables) && forall|t: int|
            0 <= t < tables.len() ==> between(s, k, j, table_dropped(#[trigger] tables[t]))
    }
}

/// Dropping the tables drops each that there is.
pub proof fn every_table_goes(s: SessionView)
    ensures
        ({
            let (end, r) = drop_tables_step(s);
            r is Ok ==> extends(s, end) && all_dropped(
                end,
                s.sent.len() as int,
                end.sent.len() as int,
            )
        }),
{
    broadcast use in_drop_tables_from;

    let (end, r) = drop_tables_step(s);
    in_drop_tables_step(s);
    if r is Ok {
        let (s1, tables) = user_tables_step(s);
        let tables = tables->Ok_0;
        let at = s.sent.len() as int;
        in_user_tables_step(s);
        assert(end == drop_tables_from(s1, tables, 0).0);
        assert(extends(s1, end));
        assert(s1.sent.len() == at + 1);
        if s.dialect == Dialect::Sqlite {
            assert(s1.sent[at] == RequestView::ListUserTables);
            assert(end.sent[at] == s1.sent[at]);
            assert forall|t: int| 0 <= t < tables.len() implies between(
                end,
                at,
                end.sent.len() as int,
                table_dropped(#[trigger] tables[t]),
            ) by {
                a_listed_table_is_dropped(s1, tables, 0, t);
                between_wider(
                    end,
                    end,
                    at + 1,
                    end.sent.len() as int,
                    at,
                    end.sent.len() as int,
                    table_dropped(tables[t]),
                );
            }
        }
    }
}

proof fn all_dropped_on(b: SessionView, d: SessionView, k: int, j: int)
    requires
        extends(b, d),
        all_dropped(b, k, j),
    ensures
        all_dropped(d, k, j),
{
    if b.dialect == Dialect::Sqlite {
        assert(d.sent[k] == b.sent[k]);
        let tables = b.replies[k]->Names_0;
        assert forall|t: int| 0 <= t < tables.len() implies between(
            d,
            k,
            j,
            table_dropped(#[trigger] tables[t]),
        ) by {
            between_wider(b, d, k, j, k, j, table_dropped(tables[t]));
        }
    }
}

/// Whether a run of requests starts over from the `i`-th on: over a connection for
/// writing, in one transaction that holds the lock, with every table dropped and every
/// stage of a sync gone through, and committed.
pub open spec fn started_over(
    s: SessionView,
    i: int,
    synced_from: int,
    registry: Registry,
    config: LocaleConfig,
) -> bool {
    let ended = s.sent.len() - 1;
    &&& 0 <= i && i + 3 < synced_from <= ended
    &&& s.sent[i] == RequestView::Connect { write: true }
    &&& s.sent[i + 1] == RequestView::Begin
    &&& s.sent[i + 2] == RequestView::AdvisoryLock { key: 7165897092701449827 }
    &&& all_dropped(s, i + 3, synced_from)
    &&& synced(s, synced_from, ended, registry, config)
    &&& s.sent[ended] == RequestView::Commit
}

proof fn starting_over_in_parts(s: SessionView, registry: Registry, config: LocaleConfig)
    requires
        recreate_all_step(s, registry, config).1 is Ok,
    ensures
        ({
            let locked = RequestView::AdvisoryLock { key: 7165897092701449827 };
            let s3 = s.asked(RequestView::Connect { write: true }).asked(RequestView::Begin).asked(
                locked,
            );
            let (s4, dropped) = drop_tables_step(s3);
            let (s5, r) = sync_body_step(s4, registry, config, Seq::empty());
            &&& dropped is Ok
            &&& r is Ok
            &&& recreate_all_step(s, registry, config).0 == s5.asked(RequestView::Commit)
        }),
{
}

/// Starting over that succeeds drops every table and then syncs, as one.
pub proof fn starting_over_is_whole(s: SessionView, registry: Registry, config: LocaleConfig)
    ensures
        ({
            let (end, r) = recreate_all_step(s, registry, config);
            r is Ok ==> exists|synced_from: int| #[trigger]
                started_over(end, s.sent.len() as int, synced_from, registry, config)
        }),
{
    let (end, r) = recreate_all_step(s, registry, config);
    if r is Ok {
        starting_over_in_parts(s, registry, config);
        let connected = RequestView::Connect { write: true };
        let locked = RequestView::AdvisoryLock { key: 7165897092701449827 };
        let s1 = s.asked(connected);
        let s2 = s1.asked(RequestView::Begin);
        let s3 = s2.asked(locked);
        let s4 = drop_tables_step(s3).0;
        let s5 = sync_body_step(s4, registry, config, Seq::empty()).0;
        start_over_put_together(s, s4, s5, registry, config);
    }
}

proof fn start_over_put_together(
    s: SessionView,
    s4: SessionView,
    s5: SessionView,
    registry: Registry,
    config: LocaleConfig,
)
    requires
        ({
            let locked = RequestView::AdvisoryLock { key: 7165897092701449827 };
            let s3 = s.asked(RequestView::Connect { write: true }).asked(RequestView::Begin).asked(
                locked,
            );
            let body = sync_body_step(s4, registry, config, Seq::empty());
            &&& drop_tables_step(s3).0 == s4 && drop_tables_step(s3).1 is Ok
            &&& body.0 == s5 && body.1 is Ok
        }),
    ensures
        started_over(
            s5.asked(RequestView::Commit),
            s.sent.len() as int,
            s4.sent.len() as int,
            registry,
            config,
        ),
{
    let end = s5.asked(RequestView::Commit);
    let connected = RequestView::Connect { write: true };
    let locked = RequestView::AdvisoryLock { key: 7165897092701449827 };
    let at = s.sent.len() as int;
    let s1 = s.asked(connected);
    let s2 = s1.asked(RequestView::Begin);
    let s3 = s2.asked(locked);
    every_table_goes(s3);
    every_stage_is_gone_through(s4, registry, config, Seq::empty());
    in_sync_body_step(s4, registry, config, Seq::empty());
    on_ask_done(s1, RequestView::Begin);
    on_ask_done(s2, locked);
    on_ask_done(s5, RequestView::Commit);
    extends_on(s4, s5, end);
    extends_on(s3, s4, end);
    extends_on(s2, s3, end);
    extends_on(s1, s2, end);
    between_asked(s, end, 0, at + 1, connected);
    between_asked(s1, end, 0, at + 2, RequestView::Begin);
    between_asked(s2, end, 0, at + 3, locked);
    all_dropped_on(s4, end, at + 3, s4.sent.len() as int);
    synced_on(s5, end, s4.sent.len() as int, s5.sent.len() as int, registry, config);
    assert(end.sent[s5.sent.len() as int] == RequestView::Commit);
}

/// What is pending is told from what was applied, whose names are all read.
pub proof fn pending_migrations_are_told_from_applied_ones(
    s: SessionView,
    files: Seq<Seq<char>>,
    rows: Seq<DbRowView>,
    names: Seq<Seq<char>>,
    x: Seq<char>,
)
    requires
        s.dialect == Dialect::Sqlite,
        rows.len() == names.len(),
        forall|k: int|
            #![trigger rows[k]]
            0 <= k < rows.len() ==> rows[k] == (DbRowView {
                columns: seq!["filename"@],
                values: seq![DbValueView::Text(names[k])],
            }),
        answered(s, 0, ReplyView::Done),
        answered(s, 1, ReplyView::Flag(true)),
        answered(s, 2, ReplyView::Rows(rows)),
    ensures
        ({
            let (end, r) = pending_step(s, files);
            &&& end == after(
                s,
                seq![
                    RequestView::Connect { write: false },
                    RequestView::TableExists { table: "_crap_migrations"@ },
                    RequestView::QueryAll {
                        sql: "SELECT filename FROM _crap_migrations"@,
                        params: Seq::empty(),
                    },
                ],
            )
            &&& r is Ok
            &&& r->Ok_0.contains(x) <==> files.contains(x) && is_migration(x) && !names.contains(x)
        }),
{
    applied_migrations_are_read(s, "SELECT filename FROM _crap_migrations"@, rows, names);
    pending_is_what_was_not_applied(files, names, x);
}

/// Over a connection every table that there is can be dropped.
pub proof fn every_table_goes_over_a_connection(s: SessionView)
    ensures
        ({
            let (end, r) = drop_all_tables_step(s);
            &&& end.sent.len() > s.sent.len()
            &&& r is Ok ==> end.sent[s.sent.len() as int] == (RequestView::Connect {
                write: false,
            }) && all_dropped(end, s.sent.len() as int + 1, end.sent.len() as int)
        }),
{
    let (end, r) = drop_all_tables_step(s);
    let connected = RequestView::Connect { write: false };
    let s1 = s.asked(connected);
    every_table_goes(s1);
    in_drop_tables_step(s1);
    if r is Ok {
        assert(s1.sent[s.sent.len() as int] == connected);
        assert(end.sent[s.sent.len() as int] == connected);
    }
}

} // verus!
