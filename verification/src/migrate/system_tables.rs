//! The tables the library keeps for itself.
use crate::migrate::helpers::introspection::{get_table_columns, table_columns_step};
use crate::session::{
    Dialect, Request, RequestView, Session, SessionView, Step, ask_done, batch_ddl_step, ddl_text,
    query_all_step, within,
};
use crate::text::{cat3, contains, decimal, decimal_text, push_item};
use crate::value::{DbError, DbRow, DbRowView, ErrorView, add_context, no_params, out};
use vstd::prelude::*;

verus! {

/// Creates the table of keys and values.
pub open spec fn meta_table_sql(stamp: Seq<char>) -> Seq<char> {
    "CREATE TABLE IF NOT EXISTS _crap_meta (key TEXT PRIMARY KEY, value TEXT NOT NULL, updated_at "@
        + stamp + ");"@
}

/// Creates the table of applied migrations.
pub open spec fn migrations_table_sql(stamp: Seq<char>) -> Seq<char> {
    "CREATE TABLE IF NOT EXISTS _crap_migrations (filename TEXT PRIMARY KEY, applied_at "@ + stamp
        + ");"@
}

/// Creates the table of the scheduled jobs that ran.
pub open spec fn cron_table_sql(stamp: Seq<char>) -> Seq<char> {
    "CREATE TABLE IF NOT EXISTS _crap_cron_fired (slug TEXT PRIMARY KEY, fired_at "@ + stamp
        + ");"@
}

/// Creates the table of jobs, with the indexes over columns that every release
/// has had. Those over later columns are made when the columns are sure to be
/// there.
pub open spec fn jobs_table_sql(stamp: Seq<char>, stamp_type: Seq<char>) -> Seq<char> {
    "CREATE TABLE IF NOT EXISTS _crap_jobs (id TEXT PRIMARY KEY, slug TEXT NOT NULL, status TEXT NOT NULL DEFAULT 'pending', queue TEXT NOT NULL DEFAULT 'default', data TEXT DEFAULT '{}', result TEXT, error TEXT, attempt INTEGER NOT NULL DEFAULT 0, max_attempts INTEGER NOT NULL DEFAULT 1, priority INTEGER NOT NULL DEFAULT 0, unique_key TEXT, scheduled_by TEXT, created_at "@
        + stamp + ", started_at "@ + stamp_type + ", completed_at "@ + stamp_type
        + ", heartbeat_at "@ + stamp_type + ", retry_after "@ + stamp_type
        + "); CREATE INDEX IF NOT EXISTS idx_crap_jobs_status ON _crap_jobs(status); CREATE INDEX IF NOT EXISTS idx_crap_jobs_queue ON _crap_jobs(queue, status); CREATE INDEX IF NOT EXISTS idx_crap_jobs_slug ON _crap_jobs(slug, status);"@
}

fn jobs_table_statement(stamp: &str, stamp_type: &str) -> (r: String)
    ensures
        r@ == jobs_table_sql(stamp@, stamp_type@),
{
    let mut sql = cat3(
        "CREATE TABLE IF NOT EXISTS _crap_jobs (id TEXT PRIMARY KEY, slug TEXT NOT NULL, status TEXT NOT NULL DEFAULT 'pending', queue TEXT NOT NULL DEFAULT 'default', data TEXT DEFAULT '{}', result TEXT, error TEXT, attempt INTEGER NOT NULL DEFAULT 0, max_attempts INTEGER NOT NULL DEFAULT 1, priority INTEGER NOT NULL DEFAULT 0, unique_key TEXT, scheduled_by TEXT, created_at ",
        stamp,
        ", started_at ",
    );
    sql.append(stamp_type);
    sql.append(", completed_at ");
    sql.append(stamp_type);
    sql.append(", heartbeat_at ");
    sql.append(stamp_type);
    sql.append(", retry_after ");
    sql.append(stamp_type);
    sql.append(
        "); CREATE INDEX IF NOT EXISTS idx_crap_jobs_status ON _crap_jobs(status); CREATE INDEX IF NOT EXISTS idx_crap_jobs_queue ON _crap_jobs(queue, status); CREATE INDEX IF NOT EXISTS idx_crap_jobs_slug ON _crap_jobs(slug, status);",
    );
    sql
}

/// Adds a column to the table of jobs unless it is there.
pub open spec fn unless_column_step(
    s: SessionView,
    columns: Seq<Seq<char>>,
    column: Seq<char>,
    sql: Seq<char>,
) -> Step<()> {
    if columns.contains(column) {
        (s, Ok(()))
    } else {
        within(
            batch_ddl_step(s, sql),
            "Failed to add "@ + column + " column to _crap_jobs"@,
        )
    }
}

fn unless_column(conn: &mut Session, columns: &Vec<String>, column: &str, sql: &str) -> (r: Result<
    (),
    DbError,
>)
    ensures
        (final(conn)@, out(r)) == unless_column_step(
            old(conn)@,
            columns.deep_view(),
            column@,
            sql@,
        ),
{
    if contains(columns, column) {
        return Ok(());
    }
    let added = conn.execute_batch_ddl(sql.to_owned());
    add_context(added, cat3("Failed to add ", column, " column to _crap_jobs").as_str())
}

/// Adds the columns of later releases to the table of jobs.
pub open spec fn later_job_columns_step(s: SessionView, columns: Seq<Seq<char>>) -> Step<()> {
    let (s1, r1) = unless_column_step(
        s,
        columns,
        "retry_after"@,
        "ALTER TABLE _crap_jobs ADD COLUMN retry_after TEXT"@,
    );
    match r1 {
        Err(e) => (s1, Err(e)),
        Ok(_) => {
            let (s2, r2) = unless_column_step(
                s1,
                columns,
                "priority"@,
                "ALTER TABLE _crap_jobs ADD COLUMN priority INTEGER NOT NULL DEFAULT 0"@,
            );
            match r2 {
                Err(e) => (s2, Err(e)),
                Ok(_) => unless_column_step(
                    s2,
                    columns,
                    "unique_key"@,
                    "ALTER TABLE _crap_jobs ADD COLUMN unique_key TEXT"@,
                ),
            }
        },
    }
}

/// The indexes over columns of later releases. A job's key is unique among those
/// that wait or run; one that is done does not stand in the way of another.
pub open spec fn later_job_indexes_sql() -> Seq<char> {
    "CREATE INDEX IF NOT EXISTS idx_crap_jobs_priority ON _crap_jobs(status, queue, priority DESC, created_at); CREATE UNIQUE INDEX IF NOT EXISTS idx_crap_jobs_unique_active ON _crap_jobs(slug, unique_key) WHERE unique_key IS NOT NULL AND status IN ('pending', 'running');"@
}

/// Creates the table of jobs, or brings an older one to the columns and indexes it
/// has now.
pub open spec fn create_jobs_step(s: SessionView, stamp: Seq<char>, stamp_type: Seq<char>) -> Step<
    (),
> {
    let (s1, r1) = within(
        batch_ddl_step(s, jobs_table_sql(stamp, stamp_type)),
        "Failed to create _crap_jobs table"@,
    );
    match r1 {
        Err(e) => (s1, Err(e)),
        Ok(_) => {
            let (s2, columns) = table_columns_step(s1, "_crap_jobs"@);
            match columns {
                Err(e) => (s2, Err(e)),
                Ok(columns) => {
                    let (s3, r3) = later_job_columns_step(s2, columns);
                    match r3 {
                        Err(e) => (s3, Err(e)),
                        Ok(_) => within(
                            batch_ddl_step(s3, later_job_indexes_sql()),
                            "Failed to create alpha.9 indexes on _crap_jobs"@,
                        ),
                    }
                },
            }
        },
    }
}

/// Creates the table of jobs, or brings an older one to the columns and indexes it
/// has now. May be run again and again.
pub fn create_jobs_table(conn: &mut Session, ts_default: &str, ts_type: &str) -> (r: Result<
    (),
    DbError,
>)
    ensures
        (final(conn)@, out(r)) == create_jobs_step(old(conn)@, ts_default@, ts_type@),
{
    let created = conn.execute_batch_ddl(jobs_table_statement(ts_default, ts_type));
    add_context(created, "Failed to create _crap_jobs table")?;
    let columns = get_table_columns(conn, "_crap_jobs")?;
    unless_column(
        conn,
        &columns,
        "retry_after",
        "ALTER TABLE _crap_jobs ADD COLUMN retry_after TEXT",
    )?;
    unless_column(
        conn,
        &columns,
        "priority",
        "ALTER TABLE _crap_jobs ADD COLUMN priority INTEGER NOT NULL DEFAULT 0",
    )?;
    unless_column(
        conn,
        &columns,
        "unique_key",
        "ALTER TABLE _crap_jobs ADD COLUMN unique_key TEXT",
    )?;
    let indexed = conn.execute_batch_ddl(
        "CREATE INDEX IF NOT EXISTS idx_crap_jobs_priority ON _crap_jobs(status, queue, priority DESC, created_at); CREATE UNIQUE INDEX IF NOT EXISTS idx_crap_jobs_unique_active ON _crap_jobs(slug, unique_key) WHERE unique_key IS NOT NULL AND status IN ('pending', 'running');".to_owned(),
    );
    add_context(indexed, "Failed to create alpha.9 indexes on _crap_jobs")
}

/// Who put a job into the queue.
#[derive(Debug, Clone, Copy, PartialEq, Eq, Structural)]
pub enum ScheduledBy {
    /// The system itself.
    System,
}

/// How often a job is tried.
#[derive(Debug, Clone, Copy, PartialEq, Eq, Structural)]
pub enum Attempts {
    /// As often as a job is where the configuration of its queue is not at hand.
    Fallback,
}

/// An image to convert.
#[derive(Debug, Clone, PartialEq, Eq)]
pub struct ImageConvertJob {
    pub collection: String,
    pub document_id: String,
    pub source_path: String,
    pub target_path: String,
    pub format: String,
    pub quality: u8,
    pub url_column: String,
    pub url_value: String,
}

/// The mathematical value of an [`ImageConvertJob`].
#[verifier::ext_equal]
pub ghost struct ImageConvertJobView {
    pub collection: Seq<char>,
    pub document_id: Seq<char>,
    pub source_path: Seq<char>,
    pub target_path: Seq<char>,
    pub format: Seq<char>,
    pub quality: u8,
    pub url_column: Seq<char>,
    pub url_value: Seq<char>,
}

impl DeepView for ImageConvertJob {
    type V = ImageConvertJobView;

    open spec fn deep_view(&self) -> ImageConvertJobView {
        ImageConvertJobView {
            collection: self.collection@,
            document_id: self.document_id@,
            source_path: self.source_path@,
            target_path: self.target_path@,
            format: self.format@,
            quality: self.quality,
            url_column: self.url_column@,
            url_value: self.url_value@,
        }
    }
}

/// The text in a column, or the empty one.
pub open spec fn text_or_empty(row: DbRowView, at: int) -> Seq<char> {
    match row.text_at(at) {
        Some(text) => text,
        None => Seq::empty(),
    }
}

fn text_or_default(row: &DbRow, at: usize) -> (r: String)
    ensures
        r@ == text_or_empty(row.deep_view(), at as int),
{
    match row.text_at(at) {
        Some(text) => text,
        None => String::new(),
    }
}

/// The quality a row of the old queue asks for: 80, where it names none that
/// there is.
pub open spec fn quality_of(row: DbRowView) -> u8 {
    match row.i64_at(5) {
        Some(n) => if 0 <= n <= 255 {
            n as u8
        } else {
            80
        },
        None => 80,
    }
}

/// The job a row of the old queue stands for.
pub open spec fn job_of(row: DbRowView) -> ImageConvertJobView {
    ImageConvertJobView {
        collection: text_or_empty(row, 0),
        document_id: text_or_empty(row, 1),
        source_path: text_or_empty(row, 2),
        target_path: text_or_empty(row, 3),
        format: text_or_empty(row, 4),
        quality: quality_of(row),
        url_column: text_or_empty(row, 6),
        url_value: text_or_empty(row, 7),
    }
}

/// The jobs the rows of the old queue stand for.
pub open spec fn jobs_of(rows: Seq<DbRowView>) -> Seq<ImageConvertJobView> {
    Seq::new(rows.len(), |i: int| job_of(rows[i]))
}

fn read_job(row: &DbRow) -> (r: ImageConvertJob)
    ensures
        r.deep_view() == job_of(row.deep_view()),
{
    let quality: u8 = match row.i64_at(5) {
        Some(n) => if 0 <= n && n <= 255 {
            n as u8
        } else {
            80
        },
        None => 80,
    };
    ImageConvertJob {
        collection: text_or_default(row, 0),
        document_id: text_or_default(row, 1),
        source_path: text_or_default(row, 2),
        target_path: text_or_default(row, 3),
        format: text_or_default(row, 4),
        quality,
        url_column: text_or_default(row, 6),
        url_value: text_or_default(row, 7),
    }
}

fn read_jobs(rows: &Vec<DbRow>) -> (r: Vec<ImageConvertJob>)
    ensures
        r.deep_view() == jobs_of(rows.deep_view()),
{
    let ghost wanted = jobs_of(rows.deep_view());
    let mut jobs: Vec<ImageConvertJob> = Vec::new();
    let mut i: usize = 0;
    while i < rows.len()
        invariant
            i <= rows.len(),
            wanted == jobs_of(rows.deep_view()),
            jobs.deep_view() =~= wanted.take(i as int),
        decreases rows.len() - i,
    {
        assert(rows.deep_view()[i as int] == rows@[i as int].deep_view());
        push_item(&mut jobs, read_job(&rows[i]));
        i += 1;
    }
    assert(jobs.deep_view() =~= wanted);
    jobs
}

/// The request that makes each image a job of the system's, at the priority jobs have
/// by themselves.
pub open spec fn image_jobs_request(jobs: Seq<ImageConvertJobView>) -> RequestView {
    RequestView::EnqueueImageConversions {
        job: "_system_image_convert"@,
        queue: "images"@,
        scheduled_by: ScheduledBy::System,
        attempts: Attempts::Fallback,
        priority: 0,
        jobs,
    }
}

/// Puts jobs into the queue, where there are any.
pub open spec fn enqueue_step(s: SessionView, jobs: Seq<ImageConvertJobView>) -> Step<()> {
    if jobs.len() == 0 {
        (s, Ok(()))
    } else {
        within(
            ask_done(s, image_jobs_request(jobs)),
            "Failed to insert drained image-convert job"@,
        )
    }
}

/// Asks whether there is an old queue of image conversions.
pub open spec fn old_queue_sql() -> Seq<char> {
    "SELECT name FROM sqlite_master WHERE type='table' AND name='_crap_image_queue'"@
}

/// Reads what waits in the old queue of image conversions.
pub open spec fn queued_images_sql() -> Seq<char> {
    "SELECT collection, document_id, source_path, target_path, format, quality, url_column, url_value FROM _crap_image_queue WHERE status IN ('pending', 'processing', 'failed')"@
}

/// The session after the line on how many images were moved, where any was.
pub open spec fn drained(s: SessionView, n: nat) -> SessionView {
    if n > 0 {
        s.noted(
            "Drained "@ + decimal(n)
                + " legacy image-queue entries into _crap_jobs (table dropped)"@,
        )
    } else {
        s
    }
}

/// Moves what waits in the old queue of image conversions into the table of jobs
/// and drops the queue.
pub open spec fn drain_queue_step(s: SessionView) -> Step<()> {
    let (s1, rows) = query_all_step(s, queued_images_sql(), Seq::empty());
    match rows {
        Err(e) => (s1, Err(e)),
        Ok(rows) => {
            let (s2, r2) = enqueue_step(s1, jobs_of(rows));
            match r2 {
                Err(e) => (s2, Err(e)),
                Ok(_) => {
                    let (s3, r3) = within(
                        batch_ddl_step(s2, "DROP TABLE IF EXISTS _crap_image_queue"@),
                        "Failed to drop legacy _crap_image_queue table"@,
                    );
                    match r3 {
                        Err(e) => (s3, Err(e)),
                        Ok(_) => (drained(s3, rows.len()), Ok(())),
                    }
                },
            }
        },
    }
}

/// Drains the old queue of image conversions where there is one, which is on
/// SQLite only. A database that cannot tell has none.
pub open spec fn drain_step(s: SessionView) -> Step<()> {
    if s.dialect != Dialect::Sqlite {
        (s, Ok(()))
    } else {
        let (s1, found) = query_all_step(s, old_queue_sql(), Seq::empty());
        match found {
            Err(ErrorView::Backend(_)) => (s1, Ok(())),
            Err(e) => (s1, Err(e)),
            Ok(found) => if found.len() == 0 {
                (s1, Ok(()))
            } else {
                drain_queue_step(s1)
            },
        }
    }
}

/// Moves what waits in the old queue of image conversions into the table of jobs
/// and drops the queue. What was being converted is put there anew: nobody works
/// on the old queue any more.
pub fn drain_legacy_image_queue(conn: &mut Session) -> (r: Result<(), DbError>)
    ensures
        (final(conn)@, out(r)) == drain_step(old(conn)@),
{
    if conn.is_postgres() {
        return Ok(());
    }
    let found = conn.query_all(
        "SELECT name FROM sqlite_master WHERE type='table' AND name='_crap_image_queue'".to_owned(),
        no_params(),
    );
    let found = match found {
        Err(DbError::Backend(_)) => {
            return Ok(());
        },
        Err(e) => {
            return Err(e);
        },
        Ok(found) => found,
    };
    if found.len() == 0 {
        return Ok(());
    }
    let rows = conn.query_all(
        "SELECT collection, document_id, source_path, target_path, format, quality, url_column, url_value FROM _crap_image_queue WHERE status IN ('pending', 'processing', 'failed')".to_owned(),
        no_params(),
    )?;
    let jobs = read_jobs(&rows);
    let moved: usize = jobs.len();
    if jobs.len() > 0 {
        let enqueued = conn.ask_done(
            Request::EnqueueImageConversions {
                job: "_system_image_convert".to_owned(),
                queue: "images".to_owned(),
                scheduled_by: ScheduledBy::System,
                attempts: Attempts::Fallback,
                priority: 0,
                jobs,
            },
        );
        add_context(enqueued, "Failed to insert drained image-convert job")?;
    }
    let dropped = conn.execute_batch_ddl("DROP TABLE IF EXISTS _crap_image_queue".to_owned());
    add_context(dropped, "Failed to drop legacy _crap_image_queue table")?;
    if moved > 0 {
        let count = decimal_text(moved as u64);
        conn.note(
            cat3(
                "Drained ",
                count.as_str(),
                " legacy image-queue entries into _crap_jobs (table dropped)",
            ),
        );
    }
    Ok(())
}

/// Creates the plain tables.
pub open spec fn plain_tables_step(s: SessionView) -> Step<()> {
    let stamp = s.dialect.timestamp_default();
    let (s1, r1) = within(
        batch_ddl_step(s, meta_table_sql(stamp)),
        "Failed to create _crap_meta table"@,
    );
    match r1 {
        Err(e) => (s1, Err(e)),
        Ok(_) => {
            let (s2, r2) = within(
        batch_ddl_step(s1, migrations_table_sql(stamp)),
        "Failed to create _crap_migrations table"@,
    );
            match r2 {
                Err(e) => (s2, Err(e)),
                Ok(_) => {
                    let (s3, r3) = within(
        batch_ddl_step(s2, cron_table_sql(stamp)),
        "Failed to create _crap_cron_fired table"@,
    );
                    match r3 {
                        Err(e) => (s3, Err(e)),
                        Ok(_) => within(
                            batch_ddl_step(
                                s3,
                                "CREATE TABLE IF NOT EXISTS _crap_user_settings (user_id TEXT PRIMARY KEY, settings TEXT NOT NULL DEFAULT '{}');"@,
                            ),
                            "Failed to create _crap_user_settings table"@,
                        ),
                    }
                },
            }
        },
    }
}

/// Creates every table the library keeps for itself.
pub open spec fn system_tables_step(s: SessionView) -> Step<()> {
    let (s1, r1) = plain_tables_step(s);
    match r1 {
        Err(e) => (s1, Err(e)),
        Ok(_) => {
            let (s2, r2) = create_jobs_step(s1, s.dialect.timestamp_default(), "TEXT"@);
            match r2 {
                Err(e) => (s2, Err(e)),
                Ok(_) => drain_step(s2),
            }
        },
    }
}

/// Creates every table the library keeps for itself, and drains the old queue of
/// image conversions.
pub fn create_system_tables(conn: &mut Session) -> (r: Result<(), DbError>)
    ensures
        (final(conn)@, out(r)) == system_tables_step(old(conn)@),
{
    let stamp = conn.dialect().timestamp_column_default();
    let stamp_type = conn.dialect().timestamp_column_type();
    let created = conn.execute_batch_ddl(
        cat3(
            "CREATE TABLE IF NOT EXISTS _crap_meta (key TEXT PRIMARY KEY, value TEXT NOT NULL, updated_at ",
            stamp,
            ");",
        ),
    );
    add_context(created, "Failed to create _crap_meta table")?;
    let created = conn.execute_batch_ddl(
        cat3(
            "CREATE TABLE IF NOT EXISTS _crap_migrations (filename TEXT PRIMARY KEY, applied_at ",
            stamp,
            ");",
        ),
    );
    add_context(created, "Failed to create _crap_migrations table")?;
    let created = conn.execute_batch_ddl(
        cat3(
            "CREATE TABLE IF NOT EXISTS _crap_cron_fired (slug TEXT PRIMARY KEY, fired_at ",
            stamp,
            ");",
        ),
    );
    add_context(created, "Failed to create _crap_cron_fired table")?;
    let created = conn.execute_batch_ddl(
        "CREATE TABLE IF NOT EXISTS _crap_user_settings (user_id TEXT PRIMARY KEY, settings TEXT NOT NULL DEFAULT '{}');".to_owned(),
    );
    add_context(created, "Failed to create _crap_user_settings table")?;
    create_jobs_table(conn, stamp, stamp_type)?;
    drain_legacy_image_queue(conn)
}

/// A table of jobs that has every column is not altered: creating it again sends the
/// statements that do nothing where there is nothing to do, and no other.
pub proof fn creating_the_jobs_again_alters_nothing(s: SessionView, columns: Seq<Seq<char>>)
    requires
        columns.contains("retry_after"@),
        columns.contains("priority"@),
        columns.contains("unique_key"@),
    ensures
        later_job_columns_step(s, columns) == (s, Ok::<(), ErrorView>(())),
{
}

/// Every row of the old queue becomes one job, in order, and the queue goes only once
/// the jobs are in the table of jobs: what is sent is the reading, then the jobs where
/// there are any, then the drop.
pub proof fn every_queued_image_becomes_a_job(s: SessionView, rows: Seq<DbRowView>)
    requires
        query_all_step(s, queued_images_sql(), Seq::empty()).1 == Ok::<
            Seq<DbRowView>,
            ErrorView,
        >(rows),
    ensures
        jobs_of(rows).len() == rows.len(),
        forall|i: int| 0 <= i < rows.len() ==> #[trigger] jobs_of(rows)[i] == job_of(rows[i]),
        ({
            let read = query_all_step(s, queued_images_sql(), Seq::empty()).0;
            let enqueued = enqueue_step(read, jobs_of(rows));
            let whole = drain_queue_step(s);
            &&& rows.len() == 0 ==> enqueued == (read, Ok::<(), ErrorView>(()))
            &&& rows.len() > 0 ==> enqueued.0.sent == read.sent.push(
                image_jobs_request(jobs_of(rows)),
            )
            &&& enqueued.1 is Err ==> whole == enqueued
            &&& enqueued.1 is Ok ==> whole.0.sent == enqueued.0.sent.push(
                RequestView::ExecuteBatch {
                    sql: ddl_text(s.dialect, "DROP TABLE IF EXISTS _crap_image_queue"@),
                },
            )
        }),
{
}

/// A database without the old queue is left alone, and so is one on Postgres, which
/// never had it.
pub proof fn a_drained_queue_is_left_alone(s: SessionView)
    ensures
        s.dialect == Dialect::Postgres ==> drain_step(s) == (s, Ok::<(), ErrorView>(())),
        s.dialect == Dialect::Sqlite && query_all_step(s, old_queue_sql(), Seq::empty()).1 == Ok::<
            Seq<DbRowView>,
            ErrorView,
        >(Seq::empty()) ==> drain_step(s) == (
            query_all_step(s, old_queue_sql(), Seq::empty()).0,
            Ok::<(), ErrorView>(()),
        ),
{
}

} // verus!
