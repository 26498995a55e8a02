//! The tables that the library keeps for itself.
use crate::migrate::system_tables::{
    Attempts, ImageConvertJobView, ScheduledBy, create_jobs_step, drain_step, job_of, jobs_of,
    later_job_columns_step, plain_tables_step, quality_of, system_tables_step,
};
use crate::migrate::transaction::{
    in_create_jobs_step, in_drain_step, in_plain_tables_step, in_table_columns_step,
    in_unless_column_step,
};
use crate::promises::{answered, between, between_asked, between_wider, running_all};
use crate::promises::lookups::{asks_for_columns, columns_are_looked_for, told_columns};
use crate::replay::{extends_itself, extends_on, on_ask_done};
use crate::session::{Dialect, ReplyView, RequestView, SessionView, extends};
use crate::value::{DbRowView, DbValueView};
use vstd::prelude::*;

verus! {

/// A timestamp that the database fills in itself.
pub open spec fn filled_in(dialect: Dialect) -> Seq<char> {
    match dialect {
        Dialect::Sqlite => "TEXT DEFAULT (strftime('%Y-%m-%dT%H:%M:%fZ', 'now'))"@,
        Dialect::Postgres => "TEXT DEFAULT to_char(NOW(), 'YYYY-MM-DD\"T\"HH24:MI:SS.MS\"Z\"')"@,
    }
}

/// The statement making the table of records.
pub open spec fn records_made(dialect: Dialect) -> Seq<char> {
    "CREATE TABLE IF NOT EXISTS _crap_meta (key TEXT PRIMARY KEY, value TEXT NOT NULL, updated_at "@
        + filled_in(dialect) + ");"@
}

/// The statement making the table of applied migrations.
pub open spec fn migrations_made(dialect: Dialect) -> Seq<char> {
    "CREATE TABLE IF NOT EXISTS _crap_migrations (filename TEXT PRIMARY KEY, applied_at "@
        + filled_in(dialect) + ");"@
}

/// The statement making the table of scheduled jobs that ran.
pub open spec fn schedule_made(dialect: Dialect) -> Seq<char> {
    "CREATE TABLE IF NOT EXISTS _crap_cron_fired (slug TEXT PRIMARY KEY, fired_at "@ + filled_in(
        dialect,
    ) + ");"@
}

/// The statement making the table of users' settings.
pub open spec fn settings_made() -> Seq<char> {
    "CREATE TABLE IF NOT EXISTS _crap_user_settings (user_id TEXT PRIMARY KEY, settings TEXT NOT NULL DEFAULT '{}');"@
}

/// The statements making the table of jobs.
pub open spec fn jobs_made(dialect: Dialect) -> Seq<char> {
    "CREATE TABLE IF NOT EXISTS _crap_jobs (id TEXT PRIMARY KEY, slug TEXT NOT NULL, status TEXT NOT NULL DEFAULT 'pending', queue TEXT NOT NULL DEFAULT 'default', data TEXT DEFAULT '{}', result TEXT, error TEXT, attempt INTEGER NOT NULL DEFAULT 0, max_attempts INTEGER NOT NULL DEFAULT 1, priority INTEGER NOT NULL DEFAULT 0, unique_key TEXT, scheduled_by TEXT, created_at "@
        + filled_in(dialect) + ", started_at "@ + "TEXT"@ + ", completed_at "@ + "TEXT"@
        + ", heartbeat_at "@ + "TEXT"@ + ", retry_after "@ + "TEXT"@
        + "); CREATE INDEX IF NOT EXISTS idx_crap_jobs_status ON _crap_jobs(status); CREATE INDEX IF NOT EXISTS idx_crap_jobs_queue ON _crap_jobs(queue, status); CREATE INDEX IF NOT EXISTS idx_crap_jobs_slug ON _crap_jobs(slug, status);"@
}

/// The statements making the indexes of the table of jobs over columns of later releases.
pub open spec fn later_indexes_made() -> Seq<char> {
    "CREATE INDEX IF NOT EXISTS idx_crap_jobs_priority ON _crap_jobs(status, queue, priority DESC, created_at); CREATE UNIQUE INDEX IF NOT EXISTS idx_crap_jobs_unique_active ON _crap_jobs(slug, unique_key) WHERE unique_key IS NOT NULL AND status IN ('pending', 'running');"@
}

/// Whether a column of the table of jobs was added if it lacks it.
pub open spec fn job_column_added(
    s: SessionView,
    i: int,
    j: int,
    existing: Seq<Seq<char>>,
    column: Seq<char>,
    sql: Seq<char>,
) -> bool {
    existing.contains(column) || between(s, i, j, running_all(s.dialect, sql))
}

/// Whether the columns of the table of jobs were asked for, and those of later releases
/// added where it lacks them.
pub open spec fn jobs_brought_up(s: SessionView, i: int, j: int) -> bool {
    exists|k: int|
        0 <= i <= k < j && k < s.sent.len() && #[trigger] s.sent[k] == asks_for_columns(
            s.dialect,
            "_crap_jobs"@,
        ) && (told_columns(s, k) matches Some(existing) && {
            &&& job_column_added(
                s,
                k + 1,
                j,
                existing,
                "retry_after"@,
                "ALTER TABLE _crap_jobs ADD COLUMN retry_after TEXT"@,
            )
            &&& job_column_added(
                s,
                k + 1,
                j,
                existing,
                "priority"@,
                "ALTER TABLE _crap_jobs ADD COLUMN priority INTEGER NOT NULL DEFAULT 0"@,
            )
            &&& job_column_added(
                s,
                k + 1,
                j,
                existing,
                "unique_key"@,
                "ALTER TABLE _crap_jobs ADD COLUMN unique_key TEXT"@,
            )
        })
}

/// Whether, from the `i`-th request on and before the `j`-th, every table that the
/// library keeps for itself was made.
pub open spec fn system_made(s: SessionView, i: int, j: int) -> bool {
    &&& between(s, i, j, running_all(s.dialect, records_made(s.dialect)))
    &&& between(s, i, j, running_all(s.dialect, migrations_made(s.dialect)))
    &&& between(s, i, j, running_all(s.dialect, schedule_made(s.dialect)))
    &&& between(s, i, j, running_all(s.dialect, settings_made()))
    &&& between(s, i, j, running_all(s.dialect, jobs_made(s.dialect)))
    &&& jobs_brought_up(s, i, j)
    &&& between(s, i, j, running_all(s.dialect, later_indexes_made()))
}

proof fn a_job_column_is_added(
    s: SessionView,
    d: SessionView,
    i: int,
    j: int,
    existing: Seq<Seq<char>>,
    column: Seq<char>,
    sql: Seq<char>,
)
    requires
        s.dialect == d.dialect,
        existing.contains(column) || extends(s.asked(running_all(s.dialect, sql)), d),
        0 <= i <= s.sent.len() < j || existing.contains(column),
    ensures
        job_column_added(d, i, j, existing, column, sql),
{
    if !existing.contains(column) {
        between_asked(s, d, i, j, running_all(s.dialect, sql));
    }
}

/// Once they are made, the library has a table for records, migrations, schedules,
/// settings and jobs, the last with every column it has now.
pub proof fn the_library_has_its_tables(s: SessionView)
    ensures
        ({
            let (end, r) = system_tables_step(s);
            r is Ok ==> system_made(end, s.sent.len() as int, end.sent.len() as int)
        }),
{
    broadcast use {
        in_drain_step, in_create_jobs_step, in_plain_tables_step, in_unless_column_step,
        in_table_columns_step, extends_on, extends_itself, on_ask_done,
    };

    let (end, r) = system_tables_step(s);
    if r is Ok {
        let at = s.sent.len() as int;
        let last = end.sent.len() as int;
        let d = s.dialect;
        let a1 = running_all(d, records_made(d));
        let a2 = running_all(d, migrations_made(d));
        let a3 = running_all(d, schedule_made(d));
        let a4 = running_all(d, settings_made());
        let a5 = running_all(d, jobs_made(d));
        let s1 = s.asked(a1);
        let s2 = s1.asked(a2);
        let s3 = s2.asked(a3);
        let s4 = s3.asked(a4);
        assert(s4 == plain_tables_step(s).0);
        let s5 = s4.asked(a5);
        let jobs = create_jobs_step(s4, filled_in(d), "TEXT"@);
        assert(end == drain_step(jobs.0).0);
        assert(extends(jobs.0, end));
        columns_are_looked_for(s5, "_crap_jobs"@, Seq::empty());
        let asked = asks_for_columns(d, "_crap_jobs"@);
        let s6 = s5.asked(asked);
        assert(s6.sent =~= s5.sent + seq![asked]);
        let existing = told_columns(s5, s5.sent.len() as int)->Some_0;
        let later = later_job_columns_step(s6, existing).0;
        let x1 = "ALTER TABLE _crap_jobs ADD COLUMN retry_after TEXT"@;
        let x2 = "ALTER TABLE _crap_jobs ADD COLUMN priority INTEGER NOT NULL DEFAULT 0"@;
        let x3 = "ALTER TABLE _crap_jobs ADD COLUMN unique_key TEXT"@;
        let s7 = if existing.contains("retry_after"@) {
            s6
        } else {
            s6.asked(running_all(d, x1))
        };
        let s8 = if existing.contains("priority"@) {
            s7
        } else {
            s7.asked(running_all(d, x2))
        };
        let s9 = if existing.contains("unique_key"@) {
            s8
        } else {
            s8.asked(running_all(d, x3))
        };
        assert(later == s9);
        let a6 = running_all(d, later_indexes_made());
        assert(jobs.0 == s9.asked(a6));
        assert(extends(s1, s2) && extends(s2, s3) && extends(s3, s4) && extends(s4, s5)
            && extends(s5, s6)) by {
            on_ask_done(s1, a2);
            on_ask_done(s2, a3);
            on_ask_done(s3, a4);
            on_ask_done(s4, a5);
            on_ask_done(s5, asked);
        }
        assert(extends(s6, s7) && extends(s7, s8) && extends(s8, s9) && extends(s9, jobs.0)) by {
            on_ask_done(s6, running_all(d, x1));
            on_ask_done(s7, running_all(d, x2));
            on_ask_done(s8, running_all(d, x3));
            on_ask_done(s9, a6);
        }
        assert(extends(s9, end));
        assert(extends(s8, end));
        assert(extends(s7, end));
        assert(extends(s6, end));
        assert(extends(s5, end));
        assert(extends(s4, end));
        assert(extends(s3, end));
        assert(extends(s2, end));
        assert(extends(s1, end));
        between_asked(s, end, at, last, a1);
        between_asked(s1, end, at, last, a2);
        between_asked(s2, end, at, last, a3);
        between_asked(s3, end, at, last, a4);
        between_asked(s4, end, at, last, a5);
        between_asked(s5, end, at, last, asked);
        between_asked(s9, end, at, last, a6);
        let k = s5.sent.len() as int;
        a_job_column_is_added(s6, end, k + 1, last, existing, "retry_after"@, x1);
        a_job_column_is_added(s7, end, k + 1, last, existing, "priority"@, x2);
        a_job_column_is_added(s8, end, k + 1, last, existing, "unique_key"@, x3);
        assert(end.sent[k] == asks_for_columns(end.dialect, "_crap_jobs"@));
        assert(told_columns(end, k) == Some(existing));
        assert(jobs_brought_up(end, at, last));
    }
}

pub(crate) proof fn system_made_wider(
    b: SessionView,
    d: SessionView,
    i: int,
    j: int,
    k: int,
    l: int,
)
    requires
        extends(b, d),
        system_made(b, i, j),
        0 <= k <= i,
        j <= l,
    ensures
        system_made(d, k, l),
{
    let e = b.dialect;
    between_wider(b, d, i, j, k, l, running_all(e, records_made(e)));
    between_wider(b, d, i, j, k, l, running_all(e, migrations_made(e)));
    between_wider(b, d, i, j, k, l, running_all(e, schedule_made(e)));
    between_wider(b, d, i, j, k, l, running_all(e, settings_made()));
    between_wider(b, d, i, j, k, l, running_all(e, jobs_made(e)));
    between_wider(b, d, i, j, k, l, running_all(e, later_indexes_made()));
    let x1 = "ALTER TABLE _crap_jobs ADD COLUMN retry_after TEXT"@;
    let x2 = "ALTER TABLE _crap_jobs ADD COLUMN priority INTEGER NOT NULL DEFAULT 0"@;
    let x3 = "ALTER TABLE _crap_jobs ADD COLUMN unique_key TEXT"@;
    let at = choose|at: int|
        0 <= i <= at < j && at < b.sent.len() && #[trigger] b.sent[at] == asks_for_columns(
            b.dialect,
            "_crap_jobs"@,
        ) && (told_columns(b, at) matches Some(existing) && {
            &&& job_column_added(b, at + 1, j, existing, "retry_after"@, x1)
            &&& job_column_added(b, at + 1, j, existing, "priority"@, x2)
            &&& job_column_added(b, at + 1, j, existing, "unique_key"@, x3)
        });
    let existing = told_columns(b, at)->Some_0;
    assert(d.sent[at] == b.sent[at]);
    if !existing.contains("retry_after"@) {
        between_wider(b, d, at + 1, j, at + 1, l, running_all(e, x1));
    }
    if !existing.contains("priority"@) {
        between_wider(b, d, at + 1, j, at + 1, l, running_all(e, x2));
    }
    if !existing.contains("unique_key"@) {
        between_wider(b, d, at + 1, j, at + 1, l, running_all(e, x3));
    }
}

/// The job that a row of the old queue of image conversions stands for, where it has a
/// text in every column but the quality's.
pub open spec fn stands_for(row: DbRowView, job: ImageConvertJobView) -> bool {
    &&& row.values.len() == 8
    &&& row.values[0] == DbValueView::Text(job.collection)
    &&& row.values[1] == DbValueView::Text(job.document_id)
    &&& row.values[2] == DbValueView::Text(job.source_path)
    &&& row.values[3] == DbValueView::Text(job.target_path)
    &&& row.values[4] == DbValueView::Text(job.format)
    &&& row.values[5] == DbValueView::Integer(job.quality as i64)
    &&& row.values[6] == DbValueView::Text(job.url_column)
    &&& row.values[7] == DbValueView::Text(job.url_value)
}

/// What waits in the old queue of image conversions is moved into the jobs, each row as
/// the job it stands for, and the queue is dropped. Without an old queue nothing is moved,
/// and on Postgres there was none.
pub proof fn the_old_queue_is_moved(
    s: SessionView,
    found: Seq<DbRowView>,
    rows: Seq<DbRowView>,
    jobs: Seq<ImageConvertJobView>,
)
    requires
        rows.len() == jobs.len(),
        forall|i: int| #![trigger rows[i]] 0 <= i < rows.len() ==> stands_for(rows[i], jobs[i]),
    ensures
        ({
            let (end, r) = drain_step(s);
            let looked = s.sent.push(
                RequestView::QueryAll {
                    sql: "SELECT name FROM sqlite_master WHERE type='table' AND name='_crap_image_queue'"@,
                    params: Seq::empty(),
                },
            );
            let read = looked.push(
                RequestView::QueryAll {
                    sql: "SELECT collection, document_id, source_path, target_path, format, quality, url_column, url_value FROM _crap_image_queue WHERE status IN ('pending', 'processing', 'failed')"@,
                    params: Seq::empty(),
                },
            );
            let moved = read.push(
                RequestView::EnqueueImageConversions {
                    job: "_system_image_convert"@,
                    queue: "images"@,
                    scheduled_by: ScheduledBy::System,
                    attempts: Attempts::Fallback,
                    priority: 0,
                    jobs,
                },
            );
            let dropped = RequestView::ExecuteBatch {
                sql: "DROP TABLE IF EXISTS _crap_image_queue"@,
            };
            &&& s.dialect == Dialect::Postgres ==> end == s && r is Ok
            &&& s.dialect == Dialect::Sqlite && answered(s, 0, ReplyView::Rows(found)) ==> {
                &&& found.len() == 0 ==> end.sent == looked && r is Ok
                &&& found.len() > 0 && answered(s, 1, ReplyView::Rows(rows)) && rows.len() == 0
                    && answered(s, 2, ReplyView::Done) ==> end.sent == read.push(dropped)
                    && r is Ok
                &&& found.len() > 0 && answered(s, 1, ReplyView::Rows(rows)) && rows.len() > 0
                    && answered(s, 2, ReplyView::Done) && answered(s, 3, ReplyView::Done)
                    ==> end.sent == moved.push(dropped) && r is Ok
            }
        }),
{
    assert forall|i: int| 0 <= i < rows.len() implies job_of(rows[i]) == #[trigger] jobs[i] by {
        assert(stands_for(rows[i], jobs[i]));
    }
    assert(jobs_of(rows) =~= jobs);
}

/// A row of the old queue that names no quality, or none that there is, asks for 80.
pub proof fn a_missing_quality_is_filled_in(row: DbRowView)
    ensures
        !(row.values.len() > 5 && row.values[5] is Integer && 0 <= row.values[5]->Integer_0 <= 255)
            ==> quality_of(row) == 80,
{
}

} // verus!
