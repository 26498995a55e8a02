use cms_db::pool::{create_pool, sqlite_pragmas, DatabaseConfig, DbPool};
use cms_db::postgres::{
    open_pool, pg_column_to_dbvalue, pg_row_to_dbrow, CachedClient, PgCell, PgConnection,
};
use cms_db::session::{Dialect, Reply, Request, Session};
use cms_db::value::{DbError, DbRow, DbValue};
use r2d2::{Pool, PooledConnection};
use r2d2_sqlite::SqliteConnectionManager;
use std::cell::RefCell;
use std::time::Duration;

/// Runs statements on every connection as it is opened.
#[derive(Debug)]
struct OnOpen {
    pragmas: String,
    statements: usize,
}

impl r2d2::CustomizeConnection<rusqlite::Connection, rusqlite::Error> for OnOpen {
    fn on_acquire(&self, conn: &mut rusqlite::Connection) -> Result<(), rusqlite::Error> {
        conn.execute_batch(&self.pragmas)?;
        conn.set_prepared_statement_cache_capacity(self.statements);
        Ok(())
    }
}

type Connection = PooledConnection<SqliteConnectionManager>;

/// The pools of a database, opened as the library asks for it.
struct Opened {
    kind: DbPool,
    read: Pool<SqliteConnectionManager>,
    write: Pool<SqliteConnectionManager>,
    /// Keeps the database alive while no pooled connection is open.
    _first: rusqlite::Connection,
    sent: Vec<String>,
    notes: Vec<String>,
}

impl Opened {
    fn get(&self) -> Result<Connection, r2d2::Error> {
        self.read.get()
    }

    fn write(&self) -> Result<Connection, r2d2::Error> {
        self.write.get()
    }

    fn kind(&self) -> &str {
        self.kind.kind()
    }
}

fn default_config() -> DatabaseConfig {
    DatabaseConfig {
        backend: Dialect::Sqlite,
        path: "data/crap.db".to_string(),
        url: None,
        pool_max_size: 16,
        write_pool_max_size: 4,
        connection_timeout: 5,
        busy_timeout: 30000,
        cache_size: -2000,
        mmap_size: 0,
        wal_autocheckpoint: 1000,
        stmt_cache_capacity: 128,
    }
}

fn open(name: &str, config: &DatabaseConfig) -> Opened {
    open_at(&format!("file:{name}?mode=memory&cache=shared"), config)
}

fn open_at(file: &str, config: &DatabaseConfig) -> Opened {
    let first = rusqlite::Connection::open(file).unwrap();
    let pools: RefCell<Vec<(bool, Pool<SqliteConnectionManager>)>> = RefCell::new(Vec::new());
    let mut session = Session::new(Dialect::Sqlite);
    let kind = loop {
        session.rewind();
        let made = create_pool(&mut session, "/srv/site", config);
        let reply = match session.pending() {
            None => break made.expect("create_pool failed"),
            Some(Request::CreateDatabaseDirectory { .. }) => Reply::Done,
            Some(Request::OpenSqlitePool { write, max_size, timeout, pragmas, statements, .. }) => {
                let pool = Pool::builder()
                    .max_size(*max_size as u32)
                    .min_idle(None)
                    .connection_timeout(Duration::from_secs(*timeout))
                    .connection_customizer(Box::new(OnOpen {
                        pragmas: pragmas.clone(),
                        statements: *statements as usize,
                    }))
                    .test_on_check_out(false)
                    .build(SqliteConnectionManager::file(file))
                    .unwrap();
                pools.borrow_mut().push((*write, pool));
                Reply::Done
            }
            Some(other) => panic!("{other:?} was not expected"),
        };
        session.answer(reply);
    };
    let sent = session.sent().iter().map(|r| format!("{r:?}")).collect();
    let pools = pools.into_inner();
    assert_eq!(pools.len(), 2);
    assert!(!pools[0].0 && pools[1].0, "the pool for reading is opened first");
    Opened {
        kind,
        read: pools[0].1.clone(),
        write: pools[1].1.clone(),
        _first: first,
        sent,
        notes: session.notes().clone(),
    }
}

fn temp_pool(name: &str) -> Opened {
    open(name, &default_config())
}

fn integer(conn: &Connection, sql: &str) -> i64 {
    conn.query_row(sql, [], |row| row.get(0)).unwrap()
}

#[test]
fn create_pool_succeeds_with_temp_dir() {
    let pool = temp_pool("create_pool_succeeds");
    let conn = pool.get().expect("failed to get connection from pool");
    drop(conn);
}

#[test]
fn write_pool_hands_out_usable_connections() {
    let pool = temp_pool("write_pool_hands_out");
    let conn = pool.write().expect("failed to get write connection");
    drop(conn);
}

#[test]
fn read_and_write_pools_share_the_same_database() {
    let pool = temp_pool("pools_share");

    let wconn = pool.write().expect("write connection");
    wconn
        .execute_batch(
            "CREATE TABLE t (id INTEGER PRIMARY KEY, v TEXT);
             INSERT INTO t (v) VALUES ('hello');",
        )
        .expect("write via write pool");
    drop(wconn);

    let rconn = pool.get().expect("read connection");
    let v: String =
        rconn.query_row("SELECT v FROM t WHERE id = 1", [], |row| row.get(0)).expect("select");
    assert_eq!(v, "hello", "read pool must see what the write pool wrote");
}

/// The two pools are independent: with the one connection for writing held, a
/// second is not to be had, while one for reading still is.
#[test]
fn exhausting_the_write_pool_does_not_block_reads() {
    let mut config = default_config();
    config.pool_max_size = 8;
    config.write_pool_max_size = 1;
    config.connection_timeout = 1;
    let pool = open("exhausting", &config);

    let _held = pool.write().expect("first write connection");

    assert!(
        pool.write().is_err(),
        "write pool of size 1 must be exhausted while its connection is held"
    );

    let rconn = pool.get().expect("read connection must still be available");
    drop(rconn);
}

#[test]
fn foreign_keys_are_enabled() {
    let pool = temp_pool("foreign_keys");
    let conn = pool.get().expect("failed to get connection");
    assert_eq!(integer(&conn, "PRAGMA foreign_keys"), 1, "foreign_keys should be ON (1)");
}

#[test]
fn synchronous_is_normal() {
    let pool = temp_pool("synchronous");
    let conn = pool.get().expect("failed to get connection");
    assert_eq!(integer(&conn, "PRAGMA synchronous"), 1, "synchronous should be NORMAL (1)");
}

#[test]
fn busy_timeout_is_applied() {
    let mut config = default_config();
    config.busy_timeout = 12345;
    let pool = open("busy_timeout", &config);
    let conn = pool.get().expect("failed to get connection");
    assert_eq!(
        integer(&conn, "PRAGMA busy_timeout"),
        12345,
        "busy_timeout should match configured value"
    );
}

#[test]
fn pool_kind_returns_sqlite() {
    let pool = temp_pool("kind");
    assert_eq!(pool.kind(), "sqlite");
}

#[test]
fn wal_autocheckpoint_is_set() {
    let pool = temp_pool("wal_autocheckpoint");
    let conn = pool.get().expect("failed to get connection");
    assert_eq!(
        integer(&conn, "PRAGMA wal_autocheckpoint"),
        1000,
        "wal_autocheckpoint should be 1000"
    );
}

/// Deleting a parent row through a pooled connection deletes the rows that
/// refer to it.
#[test]
fn fk_cascade_fires_on_pooled_connection_delete() {
    let pool = temp_pool("fk_cascade");
    let conn = pool.get().expect("failed to get connection");

    conn.execute_batch(
        "CREATE TABLE posts (id TEXT PRIMARY KEY);
         CREATE TABLE _versions_posts (
            id TEXT PRIMARY KEY,
            _parent TEXT NOT NULL REFERENCES posts(id) ON DELETE CASCADE,
            snapshot TEXT
         );
         INSERT INTO posts (id) VALUES ('p1'), ('p2');
         INSERT INTO _versions_posts VALUES \
            ('v1', 'p1', '{}'), \
            ('v2', 'p1', '{}'), \
            ('v3', 'p2', '{}');",
    )
    .unwrap();

    let before = integer(&conn, "SELECT COUNT(*) AS c FROM _versions_posts");
    assert_eq!(before, 3, "fixture: 3 versions before delete");

    conn.execute("DELETE FROM posts WHERE id = 'p1'", []).unwrap();

    let after = integer(&conn, "SELECT COUNT(*) AS c FROM _versions_posts");
    assert_eq!(
        after, 1,
        "FK cascade must remove v1 + v2 when p1 is deleted; only v3 (p2's version) should remain"
    );
}

/// What a deletion took with it is gone for every other connection too.
#[test]
fn fk_cascade_visible_across_pool_connections() {
    let pool = temp_pool("fk_cascade_across");
    let writer = pool.get().expect("writer connection");

    writer
        .execute_batch(
            "CREATE TABLE posts (id TEXT PRIMARY KEY);
             CREATE TABLE _versions_posts (
                id TEXT PRIMARY KEY,
                _parent TEXT NOT NULL REFERENCES posts(id) ON DELETE CASCADE,
                snapshot TEXT
             );
             INSERT INTO posts (id) VALUES ('p1');
             INSERT INTO _versions_posts VALUES ('v1', 'p1', '{}');",
        )
        .unwrap();

    writer.execute("DELETE FROM posts WHERE id = 'p1'", []).unwrap();
    drop(writer);

    let reader = pool.get().expect("reader connection");
    let count = integer(&reader, "SELECT COUNT(*) AS c FROM _versions_posts");
    assert_eq!(count, 0, "orphaned version row must be gone after cascade");
}

#[test]
fn creates_database_directory_if_missing() {
    let mut config = default_config();
    config.path = "nested/sub/crap.db".to_string();
    let pool = open("directory", &config);
    drop(pool.get().expect("failed to get connection"));
    let expected = Request::CreateDatabaseDirectory {
        config_dir: "/srv/site".to_string(),
        path: "nested/sub/crap.db".to_string(),
    };
    assert_eq!(pool.sent.len(), 3);
    assert_eq!(pool.sent[0], format!("{expected:?}"));
    for opened in &pool.sent[1..] {
        assert!(opened.contains("\"nested/sub/crap.db\""), "{opened}");
    }
    assert_eq!(pool.notes, ["SQLite pools created (read=16, write=4)"]);
}

#[test]
fn wal_mode_is_set() {
    let pool = open_at("/tmp/cms_db_wal_mode_is_set.db", &default_config());
    let conn = pool.get().expect("failed to get connection");
    let mode: String = conn
        .query_row("PRAGMA journal_mode", [], |row| row.get("journal_mode"))
        .expect("PRAGMA journal_mode failed");
    assert_eq!(mode, "wal", "journal_mode should be WAL");
}

#[test]
fn the_pragmas_are_those_configured() {
    let mut config = default_config();
    config.busy_timeout = 12345;
    config.cache_size = -64000;
    config.mmap_size = 268435456;
    assert_eq!(
        sqlite_pragmas(&config),
        "PRAGMA journal_mode = WAL; PRAGMA synchronous = NORMAL; PRAGMA foreign_keys = ON; \
         PRAGMA busy_timeout = 12345; PRAGMA wal_autocheckpoint = 1000; \
         PRAGMA cache_size = -64000; PRAGMA mmap_size = 268435456; PRAGMA temp_store = MEMORY;"
    );
}

#[test]
fn a_postgres_pool_needs_an_address() {
    let mut config = default_config();
    config.backend = Dialect::Postgres;
    let mut session = Session::new(Dialect::Postgres);
    assert_eq!(
        create_pool(&mut session, "/srv/site", &config),
        Err(DbError::Refused("database.url is required for postgres backend".to_string()))
    );
    assert!(session.pending().is_none());

    config.url = Some("postgres://localhost/site".to_string());
    session.rewind();
    assert_eq!(create_pool(&mut session, "/srv/site", &config), Err(DbError::Pending));
    assert_eq!(
        session.pending(),
        Some(&Request::OpenPostgresPool {
            url: "postgres://localhost/site".to_string(),
            max_size: 16,
        })
    );
    session.answer(Reply::Done);
    session.rewind();
    let pool = create_pool(&mut session, "/srv/site", &config).unwrap();
    assert_eq!(pool.kind(), "postgres");
    assert_eq!(
        session.notes(),
        &vec!["Postgres pool created (max_size=16, statement cache enabled)".to_string()]
    );

    let mut session = Session::new(Dialect::Postgres);
    session.answer(Reply::Failed("no room".to_string()));
    session.rewind();
    let text = "Failed to create Postgres connection pool: no room";
    assert_eq!(
        create_pool(&mut session, "/srv/site", &config),
        Err(DbError::Backend(text.to_string()))
    );
}

#[test]
fn a_postgres_address_that_does_not_parse_is_refused() {
    for (url, fault) in [
        ("postgres://localhost:port/site", "invalid value for option `port`"),
        ("postgres://[::1/site", "invalid value for option `host`"),
        ("postgres://localhost/site?application_name", "unterminated parameter"),
        ("site", "unexpected EOF"),
    ] {
        let mut config = default_config();
        config.backend = Dialect::Postgres;
        config.url = Some(url.to_string());
        let mut session = Session::new(Dialect::Postgres);
        let refused = create_pool(&mut session, "/srv/site", &config).unwrap_err();
        assert_eq!(
            refused,
            DbError::Refused(format!(
                "Invalid postgres URL: invalid connection string: {fault}"
            ))
        );
        assert!(session.pending().is_none(), "nothing is asked for {url}");
    }

    let mut session = Session::new(Dialect::Postgres);
    let refused = open_pool(&mut session, "anything", 1, Some("it is no address".to_string()));
    let text = "Invalid postgres URL: it is no address";
    assert_eq!(refused, Err(DbError::Refused(text.to_string())));
    assert_eq!(open_pool(&mut session, "anything", 1, None), Err(DbError::Pending));
    assert_eq!(
        session.pending(),
        Some(&Request::OpenPostgresPool { url: "anything".to_string(), max_size: 1 })
    );
}

#[test]
fn readers_and_writers_take_their_own_connections() {
    let pool = DbPool::from_backend(Dialect::Sqlite);
    for write in [false, true] {
        let mut session = Session::new(Dialect::Sqlite);
        let taken = if write { pool.write(&mut session) } else { pool.get(&mut session) };
        assert_eq!(taken, Err(DbError::Pending));
        assert_eq!(session.pending(), Some(&Request::Connect { write }));
    }
}

#[test]
fn postgres_writes_its_own_sql() {
    let pg = PgConnection;
    assert_eq!(pg.placeholder(12), "$12");
    assert_eq!(pg.kind(), "postgres");
    assert_eq!(pg.now_expr(), "to_char(NOW(), 'YYYY-MM-DD\"T\"HH24:MI:SS.MS\"Z\"')");
    assert_eq!(pg.greatest_expr("a", "b"), "GREATEST(a, b)");
    assert_eq!(
        pg.date_offset_expr(-3600, 2),
        (
            "to_char(NOW() + make_interval(secs => $2), 'YYYY-MM-DD\"T\"HH24:MI:SS.MS\"Z\"')"
                .to_string(),
            -3600
        )
    );
    assert_eq!(pg.json_extract_expr("data", "title"), "data::jsonb->>'title'");
    assert_eq!(pg.json_each_source("tags", "t"), "jsonb_array_elements_text(tags) AS t");
    assert_eq!(
        pg.build_insert_ignore("t", "a, b", "$1, $2"),
        "INSERT INTO \"t\" (a, b) VALUES ($1, $2) ON CONFLICT DO NOTHING"
    );
    assert_eq!(
        pg.build_upsert(
            "meta",
            &vec!["key".to_string(), "value".to_string(), "at".to_string()],
            "$1, $2, $3",
            "key"
        ),
        "INSERT INTO \"meta\" (\"key\", \"value\", \"at\") VALUES ($1, $2, $3) ON CONFLICT \
         (\"key\") DO UPDATE SET \"value\" = EXCLUDED.\"value\", \"at\" = EXCLUDED.\"at\""
    );
    assert!(pg.supports_fts());
    assert!(pg.supports_drop_column());
    assert_eq!(pg.like_operator(), "ILIKE");
    assert!(pg.sidecar_extensions().is_empty());
    assert_eq!(pg.normalize_timestamp("2026-01-01 10:00:00"), "2026-01-01 10:00:00");
    assert_eq!(
        pg.vacuum_into("/tmp/copy.db").unwrap_err().message(),
        "VACUUM INTO is not supported for PostgreSQL. Use pg_dump for database backups."
    );
}

#[test]
fn postgres_cells_become_values() {
    for (cell, value) in [
        (PgCell::Bool(Some(true)), DbValue::Integer(1)),
        (PgCell::Bool(Some(false)), DbValue::Integer(0)),
        (PgCell::Bool(None), DbValue::Null),
        (PgCell::Int2(Some(-3)), DbValue::Integer(-3)),
        (PgCell::Int4(Some(70000)), DbValue::Integer(70000)),
        (PgCell::Int8(Some(i64::MIN)), DbValue::Integer(i64::MIN)),
        (PgCell::Float(Some(1.5f64.to_bits())), DbValue::Real(1.5f64.to_bits())),
        (PgCell::Float(None), DbValue::Null),
        (PgCell::Bytes(Some(vec![1, 2])), DbValue::Blob(vec![1, 2])),
        (PgCell::Json(Some("{}".to_string())), DbValue::Text("{}".to_string())),
        (PgCell::Text(Some("x".to_string())), DbValue::Text("x".to_string())),
        (PgCell::Text(None), DbValue::Null),
    ] {
        assert_eq!(pg_column_to_dbvalue(cell), value);
    }
    let row = pg_row_to_dbrow(vec![
        ("id".to_string(), PgCell::Text(Some("p1".to_string()))),
        ("n".to_string(), PgCell::Int4(Some(4))),
    ]);
    assert_eq!(
        row,
        DbRow::new(
            vec!["id".to_string(), "n".to_string()],
            vec![DbValue::Text("p1".to_string()), DbValue::Integer(4)]
        )
    );
    assert_eq!(row.get_i64("n"), Ok(4));
    assert_eq!(row.get_string("id"), Ok("p1".to_string()));
    assert_eq!(row.get_string("n"), Err(DbError::NoText { column: "n".to_string() }));
    assert_eq!(row.get_i64("id"), Err(DbError::NoInteger { column: "id".to_string() }));
}

#[test]
fn a_prepared_statement_is_found_under_its_text() {
    let mut cache: CachedClient<u32> = CachedClient::new();
    assert_eq!(cache.prepared("SELECT 1"), None);
    cache.keep("SELECT 1", 1);
    cache.keep("SELECT 2", 2);
    assert_eq!(cache.prepared("SELECT 1"), Some(&1));
    assert_eq!(cache.prepared("SELECT 2"), Some(&2));
    cache.keep("SELECT 1", 3);
    assert_eq!(cache.prepared("SELECT 1"), Some(&3));
    assert_eq!(cache.prepared("SELECT 2"), Some(&2));
    assert_eq!(cache.prepared("select 1"), None);
}
