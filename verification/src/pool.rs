//! Where connections come from.
use crate::postgres;
use crate::session::{Dialect, Request, RequestView, Session, SessionView, Step, ask_done, within};
use crate::text::{cat5, cat9, decimal, decimal_text, signed_decimal, signed_decimal_text};
use crate::value::{DbError, add_context, out};
use vstd::prelude::*;

verus! {

/// A pool of connections: some for reading, some for writing.
///
/// SQLite has one writer at a time and any number of readers. With a pool for
/// each, writers wait for one another and never for a reader's connection.
/// Postgres has one pool for both.
#[derive(Debug, Clone, Copy, PartialEq, Eq, Structural)]
pub struct DbPool {
    dialect: Dialect,
}

impl View for DbPool {
    type V = Dialect;

    closed spec fn view(&self) -> Dialect {
        self.dialect
    }
}

impl DeepView for DbPool {
    type V = Dialect;

    open spec fn deep_view(&self) -> Dialect {
        self@
    }
}

/// Takes a connection for reading.
pub open spec fn get_step(s: SessionView) -> Step<()> {
    ask_done(s, RequestView::Connect { write: false })
}

/// Takes a connection for writing.
pub open spec fn write_step(s: SessionView) -> Step<()> {
    ask_done(s, RequestView::Connect { write: true })
}

/// Takes a connection for an operation that cannot do without.
pub open spec fn connect_step(s: SessionView, write: bool) -> Step<()> {
    within(
        if write {
            write_step(s)
        } else {
            get_step(s)
        },
        "Failed to get DB connection"@,
    )
}

impl DbPool {
    /// Takes a connection for an operation that cannot do without.
    pub(crate) fn connect(&self, conn: &mut Session, write: bool) -> (r: Result<(), DbError>)
        ensures
            (final(conn)@, out(r)) == connect_step(old(conn)@, write),
    {
        let taken = if write {
            self.write(conn)
        } else {
            self.get(conn)
        };
        add_context(taken, "Failed to get DB connection")
    }

    /// A pool over connections of one kind that are open already.
    pub fn from_backend(dialect: Dialect) -> (r: DbPool)
        ensures
            r@ == dialect,
    {
        DbPool { dialect }
    }

    /// Takes a connection for reading, which the session's requests are answered
    /// over from then on.
    pub fn get(&self, conn: &mut Session) -> (r: Result<(), DbError>)
        ensures
            (final(conn)@, out(r)) == get_step(old(conn)@),
    {
        conn.ask_done(Request::Connect { write: false })
    }

    /// Takes a connection for writing, which the session's requests are answered
    /// over from then on. Whoever begins a transaction that writes takes it here,
    /// so as not to use up a connection for reading.
    pub fn write(&self, conn: &mut Session) -> (r: Result<(), DbError>)
        ensures
            (final(conn)@, out(r)) == write_step(old(conn)@),
    {
        conn.ask_done(Request::Connect { write: true })
    }

    /// The word for the kind of database.
    pub fn kind(&self) -> (r: &'static str)
        ensures
            r@ == self@.word(),
    {
        self.dialect.kind()
    }
}

/// How to reach the database.
#[derive(Debug, Clone, PartialEq, Eq)]
pub struct DatabaseConfig {
    pub backend: Dialect,
    /// The file of a SQLite database.
    pub path: String,
    /// The address of a Postgres database.
    pub url: Option<String>,
    pub pool_max_size: u32,
    pub write_pool_max_size: u32,
    /// In seconds.
    pub connection_timeout: u64,
    /// In milliseconds.
    pub busy_timeout: u64,
    pub cache_size: i64,
    pub mmap_size: u64,
    pub wal_autocheckpoint: u32,
    pub stmt_cache_capacity: u64,
}

/// The statements run on each new SQLite connection.
pub open spec fn pragmas(config: DatabaseConfig) -> Seq<char> {
    "PRAGMA journal_mode = WAL; PRAGMA synchronous = NORMAL; PRAGMA foreign_keys = ON; PRAGMA busy_timeout = "@
        + decimal(config.busy_timeout as nat) + "; PRAGMA wal_autocheckpoint = "@ + decimal(
        config.wal_autocheckpoint as nat,
    ) + "; PRAGMA cache_size = "@ + signed_decimal(config.cache_size as int)
        + "; PRAGMA mmap_size = "@ + decimal(config.mmap_size as nat)
        + "; PRAGMA temp_store = MEMORY;"@
}

/// The statements run on each new SQLite connection: changes are written ahead,
/// foreign keys are enforced, and the sizes and waits are those configured.
pub fn sqlite_pragmas(config: &DatabaseConfig) -> (r: String)
    ensures
        r@ == pragmas(*config),
{
    let busy = decimal_text(config.busy_timeout);
    let checkpoint = decimal_text(config.wal_autocheckpoint as u64);
    let cache = signed_decimal_text(config.cache_size);
    let mmap = decimal_text(config.mmap_size);
    cat9(
        "PRAGMA journal_mode = WAL; PRAGMA synchronous = NORMAL; PRAGMA foreign_keys = ON; PRAGMA busy_timeout = ",
        busy.as_str(),
        "; PRAGMA wal_autocheckpoint = ",
        checkpoint.as_str(),
        "; PRAGMA cache_size = ",
        cache.as_str(),
        "; PRAGMA mmap_size = ",
        mmap.as_str(),
        "; PRAGMA temp_store = MEMORY;",
    )
}

/// Opens one pool of SQLite connections.
pub open spec fn open_sqlite_step(
    s: SessionView,
    write: bool,
    config_dir: Seq<char>,
    max_size: u32,
    config: DatabaseConfig,
) -> Step<()> {
    within(
        ask_done(
            s,
            RequestView::OpenSqlitePool {
                write,
                config_dir,
                path: config.path@,
                max_size: max_size as u64,
                timeout: config.connection_timeout,
                pragmas: pragmas(config),
                statements: config.stmt_cache_capacity,
            },
        ),
        "Failed to create connection pool"@,
    )
}

fn build_sqlite_pool(
    conn: &mut Session,
    write: bool,
    config_dir: &str,
    max_size: u32,
    config: &DatabaseConfig,
) -> (r: Result<(), DbError>)
    ensures
        (final(conn)@, out(r)) == open_sqlite_step(
            old(conn)@,
            write,
            config_dir@,
            max_size,
            *config,
        ),
{
    let opened = conn.ask_done(
        Request::OpenSqlitePool {
            write,
            config_dir: config_dir.to_owned(),
            path: config.path.clone(),
            max_size: max_size as u64,
            timeout: config.connection_timeout,
            pragmas: sqlite_pragmas(config),
            statements: config.stmt_cache_capacity,
        },
    );
    add_context(opened, "Failed to create connection pool")
}

/// Opens the pools of a SQLite database: many connections for reading, few for
/// writing.
pub open spec fn create_sqlite_step(
    s: SessionView,
    config_dir: Seq<char>,
    config: DatabaseConfig,
) -> Step<Dialect> {
    let (s1, made) = ask_done(
        s,
        RequestView::CreateDatabaseDirectory { config_dir, path: config.path@ },
    );
    match made {
        Err(e) => (s1, Err(e)),
        Ok(_) => {
            let (s2, read) = open_sqlite_step(s1, false, config_dir, config.pool_max_size, config);
            match read {
                Err(e) => (s2, Err(e)),
                Ok(_) => {
                    let (s3, write) = open_sqlite_step(
                        s2,
                        true,
                        config_dir,
                        config.write_pool_max_size,
                        config,
                    );
                    match write {
                        Err(e) => (s3, Err(e)),
                        Ok(_) => (
                            s3.noted(
                                "SQLite pools created (read="@ + decimal(
                                    config.pool_max_size as nat,
                                ) + ", write="@ + decimal(config.write_pool_max_size as nat)
                                    + ")"@,
                            ),
                            Ok(Dialect::Sqlite),
                        ),
                    }
                },
            }
        },
    }
}

fn create_sqlite_pool(conn: &mut Session, config_dir: &str, config: &DatabaseConfig) -> (r: Result<
    DbPool,
    DbError,
>)
    ensures
        (final(conn)@, out(r)) == create_sqlite_step(old(conn)@, config_dir@, *config),
{
    conn.ask_done(
        Request::CreateDatabaseDirectory {
            config_dir: config_dir.to_owned(),
            path: config.path.clone(),
        },
    )?;
    build_sqlite_pool(conn, false, config_dir, config.pool_max_size, config)?;
    build_sqlite_pool(conn, true, config_dir, config.write_pool_max_size, config)?;
    let read = decimal_text(config.pool_max_size as u64);
    let write = decimal_text(config.write_pool_max_size as u64);
    conn.note(
        cat5(
            "SQLite pools created (read=",
            read.as_str(),
            ", write=",
            write.as_str(),
            ")",
        ),
    );
    Ok(DbPool::from_backend(Dialect::Sqlite))
}

/// Opens the pools of the configured database.
pub open spec fn create_pool_step(
    s: SessionView,
    config_dir: Seq<char>,
    config: DatabaseConfig,
) -> Step<Dialect> {
    match config.backend {
        Dialect::Sqlite => create_sqlite_step(s, config_dir, config),
        Dialect::Postgres => postgres::create_pool_step(s, config),
    }
}

/// Opens the pools of the configured database. The directory matters to SQLite
/// only, where a relative path is taken from it on.
pub fn create_pool(conn: &mut Session, config_dir: &str, config: &DatabaseConfig) -> (r: Result<
    DbPool,
    DbError,
>)
    ensures
        (final(conn)@, out(r)) == create_pool_step(old(conn)@, config_dir@, *config),
{
    match config.backend {
        Dialect::Sqlite => create_sqlite_pool(conn, config_dir, config),
        Dialect::Postgres => postgres::create_pool(conn, config),
    }
}

} // verus!
