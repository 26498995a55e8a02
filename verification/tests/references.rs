#![allow(dead_code, unused_imports)]

use cms_db::definition::{
    BlockDefinition, CollectionDefinition, FieldDefinition, FieldTab, FieldType, GlobalDefinition,
    LocaleConfig, Registry, RelationshipConfig, VersionsConfig,
};
use cms_db::migrate::helpers::column_specs::collect_column_specs;
use cms_db::migrate::helpers::versions::sync_versions_table as sync_versions_of;
use cms_db::migrate::join_tables::orchestrator::sync_join_tables as sync_join_tables_of;
use cms_db::pool::DbPool;
use cms_db::session::{Dialect, Reply, Request, Session};
use cms_db::value::{DbError, DbRow, DbValue};
use std::cell::RefCell;
use std::collections::HashSet;
use std::rc::Rc;
use cms_db::migrate::reference_cardinality::{Shape, ref_leaves};


/// A SQLite database in memory, and what it takes to answer requests over it.
struct Db {
    raw: rusqlite::Connection,
    warnings: RefCell<Vec<String>>,
    notes: RefCell<Vec<String>>,
}

/// A connection to such a database.
#[derive(Clone)]
struct Conn(Rc<Db>);

/// Where such connections come from.
struct Pool(Conn);

/// The definitions a run is about, where it needs them.
struct World<'a> {
    registry: Option<&'a Registry>,
    config: LocaleConfig,
}

impl Pool {
    fn get(&self) -> Result<Conn, DbError> {
        Ok(self.0.clone())
    }
}

fn in_memory_pool() -> ((), Pool) {
    let raw = rusqlite::Connection::open_in_memory().unwrap();
    raw.execute_batch("PRAGMA foreign_keys = ON;").unwrap();
    raw.execute_batch(
        "CREATE TABLE _crap_meta (key TEXT PRIMARY KEY, value TEXT NOT NULL, updated_at TEXT)",
    )
    .unwrap();
    let db = Db { raw, warnings: RefCell::new(Vec::new()), notes: RefCell::new(Vec::new()) };
    ((), Pool(Conn(Rc::new(db))))
}

fn to_sqlite(value: &DbValue) -> rusqlite::types::Value {
    match value {
        DbValue::Null => rusqlite::types::Value::Null,
        DbValue::Integer(n) => rusqlite::types::Value::Integer(*n),
        DbValue::Real(bits) => rusqlite::types::Value::Real(f64::from_bits(*bits)),
        DbValue::Text(s) => rusqlite::types::Value::Text(s.clone()),
        DbValue::Blob(b) => rusqlite::types::Value::Blob(b.clone()),
    }
}

fn from_sqlite(value: rusqlite::types::Value) -> DbValue {
    match value {
        rusqlite::types::Value::Null => DbValue::Null,
        rusqlite::types::Value::Integer(n) => DbValue::Integer(n),
        rusqlite::types::Value::Real(f) => DbValue::Real(f.to_bits()),
        rusqlite::types::Value::Text(s) => DbValue::Text(s),
        rusqlite::types::Value::Blob(b) => DbValue::Blob(b),
    }
}

impl Conn {
    fn rows(&self, sql: &str, params: &[DbValue]) -> rusqlite::Result<Vec<DbRow>> {
        let mut statement = self.0.raw.prepare(sql)?;
        let columns: Vec<String> = statement.column_names().iter().map(|c| c.to_string()).collect();
        let width = columns.len();
        let mut rows = statement.query(rusqlite::params_from_iter(params.iter().map(to_sqlite)))?;
        let mut found = Vec::new();
        while let Some(row) = rows.next()? {
            let mut values = Vec::new();
            for i in 0..width {
                values.push(from_sqlite(row.get::<usize, rusqlite::types::Value>(i)?));
            }
            found.push(DbRow::new(columns.clone(), values));
        }
        Ok(found)
    }

    fn query_all(&self, sql: &str, params: &[DbValue]) -> Result<Vec<DbRow>, DbError> {
        self.rows(sql, params).map_err(|e| DbError::Backend(e.to_string()))
    }

    fn query_one(&self, sql: &str, params: &[DbValue]) -> Result<Option<DbRow>, DbError> {
        Ok(self.query_all(sql, params)?.into_iter().next())
    }

    fn execute(&self, sql: &str, params: &[DbValue]) -> Result<usize, DbError> {
        self.0
            .raw
            .execute(sql, rusqlite::params_from_iter(params.iter().map(to_sqlite)))
            .map_err(|e| DbError::Backend(e.to_string()))
    }

    fn execute_batch(&self, sql: &str) -> Result<(), DbError> {
        self.0.raw.execute_batch(sql).map_err(|e| DbError::Backend(e.to_string()))
    }

    fn execute_ddl(&self, sql: &str, params: &[DbValue]) -> Result<usize, DbError> {
        self.execute(sql, params)
    }

    fn index_names(&self, table: &str, prefix: &str) -> Result<Vec<String>, DbError> {
        self.run(|s| cms_db::migrate::helpers::introspection::index_names(s, table, prefix))
    }

    /// Runs an operation that needs no definitions.
    fn run<T>(&self, operation: impl FnMut(&mut Session) -> Result<T, DbError>) -> Result<T, DbError> {
        let world = World { registry: None, config: LocaleConfig::disabled() };
        self.run_in(&world, operation)
    }

    /// Runs an operation over and over, answering one more request each time.
    fn run_in<T>(
        &self,
        world: &World,
        mut operation: impl FnMut(&mut Session) -> Result<T, DbError>,
    ) -> Result<T, DbError> {
        let mut session = Session::new(Dialect::Sqlite);
        loop {
            session.rewind();
            let result = operation(&mut session);
            let reply = match session.pending() {
                None => {
                    self.0.warnings.borrow_mut().extend(session.warnings().iter().cloned());
                    self.0.notes.borrow_mut().extend(session.notes().iter().cloned());
                    return result;
                }
                Some(request) => self.perform(world, request),
            };
            session.answer(reply);
        }
    }

    fn texts(&self, sql: &str, params: &[DbValue]) -> Result<Vec<String>, DbError> {
        Ok(self.query_all(sql, params)?.iter().filter_map(|r| r.text_at(0)).collect())
    }

    fn perform(&self, world: &World, request: &Request) -> Reply {
        match self.answer(world, request) {
            Ok(reply) => reply,
            Err(e) => Reply::Failed(e.message()),
        }
    }

    fn answer(&self, world: &World, request: &Request) -> Result<Reply, DbError> {
        Ok(match request {
            Request::QueryAll { sql, params } => Reply::Rows(self.query_all(sql, params)?),
            Request::QueryOne { sql, params } => Reply::Row(self.query_one(sql, params)?),
            Request::Execute { sql, params } => Reply::Count(self.execute(sql, params)? as u64),
            Request::ExecuteMany { sql, rows } => {
                let mut count = 0;
                for params in rows {
                    count += self.execute(sql, params)? as u64;
                }
                Reply::Count(count)
            }
            Request::ExecuteBatch { sql } => {
                self.execute_batch(sql)?;
                Reply::Done
            }
            Request::TableExists { table } => Reply::Flag(
                !self
                    .query_all(
                        "SELECT 1 FROM sqlite_master WHERE type = 'table' AND name = ?1",
                        &[DbValue::Text(table.clone())],
                    )?
                    .is_empty(),
            ),
            Request::TableColumns { table } => Reply::Names(self.texts(
                "SELECT name FROM pragma_table_info(?1)",
                &[DbValue::Text(table.clone())],
            )?),
            Request::TableColumnTypes { table } => Reply::Types(
                self.query_all(
                    "SELECT name, type FROM pragma_table_info(?1)",
                    &[DbValue::Text(table.clone())],
                )?
                .iter()
                .map(|r| (r.text_at(0).unwrap(), r.text_at(1).unwrap()))
                .collect(),
            ),
            Request::IndexNames { table, prefix } => Reply::Names(
                self.texts(
                    "SELECT name FROM sqlite_master WHERE type = 'index' AND tbl_name = ?1",
                    &[DbValue::Text(table.clone())],
                )?
                .into_iter()
                .filter(|n| n.starts_with(prefix.as_str()))
                .collect(),
            ),
            Request::ListUserTables => Reply::Names(self.texts(
                "SELECT name FROM sqlite_master WHERE type = 'table' AND name NOT LIKE 'sqlite_%'",
                &[],
            )?),
            Request::HeldLocales { table } => Reply::Names(
                self.texts(&format!("SELECT DISTINCT _locale FROM \"{table}\""), &[])?,
            ),
            Request::DeleteRowsOutsideLocales { table, locales } => {
                let marks: Vec<String> = (1..=locales.len()).map(|i| format!("?{i}")).collect();
                let params: Vec<DbValue> =
                    locales.iter().map(|l| DbValue::Text(l.clone())).collect();
                let sql =
                    format!("DELETE FROM \"{table}\" WHERE _locale NOT IN ({})", marks.join(", "));
                Reply::Count(self.execute(&sql, &params)? as u64)
            }
            Request::Begin => {
                self.execute_batch("BEGIN IMMEDIATE")?;
                Reply::Done
            }
            Request::Commit => {
                self.execute_batch("COMMIT")?;
                Reply::Done
            }
            Request::Rollback => {
                self.execute_batch("ROLLBACK")?;
                Reply::Done
            }
            Request::BackfillRefCounts => {
                self.count_references(world)?;
                Reply::Done
            }
            Request::NeedsRebuild { .. } => Reply::Flag(false),
            Request::SyncCollection { slug } => {
                let registry = world.registry.unwrap();
                let def = registry.collections.iter().find(|d| d.slug == *slug).unwrap();
                self.sync_collection_table(world, slug, def)?;
                Reply::Done
            }
            Request::SyncGlobal { slug } => {
                let registry = world.registry.unwrap();
                let def = registry.globals.iter().find(|d| d.slug == *slug).unwrap();
                let table = cms_db::names::global_table(slug);
                if !table_exists(self, &table)? {
                    create_parent_table(self, &table, &def.fields, &world.config)?;
                }
                self.run(|s| sync_join_tables_of(s, &table, &def.fields, &world.config))?;
                Reply::Done
            }
            Request::EnqueueImageConversions { job: name, queue, jobs, .. } => {
                for (i, job) in jobs.iter().enumerate() {
                    self.execute(
                        "INSERT INTO _crap_jobs (id, slug, queue, data) VALUES (?1, ?2, ?3, ?4)",
                        &[
                            DbValue::Text(format!("image{i}")),
                            DbValue::Text(name.clone()),
                            DbValue::Text(queue.clone()),
                            DbValue::Text(format!("{}:{}", job.source_path, job.quality)),
                        ],
                    )?;
                }
                Reply::Done
            }
            Request::SearchIndexShape { slug } => {
                let names = searched(world, slug);
                Reply::IndexShape { fingerprint: names.join(","), indexed: !names.is_empty() }
            }
            Request::SearchIndexExists { slug } => {
                Reply::Flag(table_exists(self, &format!("_fts_{slug}"))?)
            }
            Request::SyncSearchIndex { slug } => {
                self.execute_batch(&format!("DROP TABLE IF EXISTS \"_fts_{slug}\""))?;
                let names = searched(world, slug);
                if !names.is_empty() {
                    self.execute_batch(&format!(
                        "CREATE TABLE \"_fts_{slug}\" AS SELECT id, {} FROM \"{slug}\"",
                        names.join(", ")
                    ))?;
                }
                Reply::Done
            }
            Request::StoreNestedValues { values, .. } => Reply::Names(
                values
                    .iter()
                    .map(|v| in_utc(v).replace("\"featured\":\"on\"", "\"featured\":true"))
                    .collect(),
            ),
            Request::ConvertTimezoneDates { values, .. } => {
                Reply::Names(values.iter().map(|v| in_utc(v)).collect())
            }
            _ => Reply::Done,
        })
    }

    /// Counts how often each document is referred to.
    fn count_references(&self, world: &World) -> Result<(), DbError> {
        let registry = world.registry.unwrap();
        for target in &registry.collections {
            let mut counts = Vec::new();
            for def in &registry.collections {
                for field in &def.fields {
                    let rc = match &field.relationship {
                        Some(rc) if rc.collection == target.slug => rc,
                        _ => continue,
                    };
                    let own = get_table_columns(self, &def.slug)?;
                    let (table, column) = if rc.has_many {
                        (format!("{}_{}", def.slug, field.name), "related_id")
                    } else if own.contains(&field.name) {
                        (def.slug.clone(), field.name.as_str())
                    } else {
                        continue;
                    };
                    counts.push(format!(
                        "(SELECT COUNT(*) FROM \"{table}\" j WHERE j.\"{column}\" = \"{}\".id)",
                        target.slug
                    ));
                }
            }
            if !counts.is_empty() {
                self.execute_batch(&format!(
                    "UPDATE \"{}\" SET _ref_count = {}",
                    target.slug,
                    counts.join(" + ")
                ))?;
            }
        }
        Ok(())
    }

    /// Creates a collection's own table where there is none, and syncs what
    /// belongs to it.
    fn sync_collection_table(
        &self,
        world: &World,
        slug: &str,
        def: &CollectionDefinition,
    ) -> Result<(), DbError> {
        if !table_exists(self, slug)? {
            create_parent_table(self, slug, &def.fields, &world.config)?;
        } else {
            let existing = get_table_columns(self, slug)?;
            for (name, kind) in parent_columns(&def.fields, &world.config)? {
                if !existing.contains(&name) {
                    self.execute_batch(&format!(
                        "ALTER TABLE \"{slug}\" ADD COLUMN \"{name}\" {kind}"
                    ))?;
                }
            }
        }
        self.run(|s| sync_join_tables_of(s, slug, &def.fields, &world.config))?;
        if def.versions.is_some() {
            self.run(|s| sync_versions_of(s, slug))?;
        }
        Ok(())
    }
}

/// The names of a collection's text fields.
fn searched(world: &World, slug: &str) -> Vec<String> {
    let registry = world.registry.unwrap();
    let def = registry.collections.iter().find(|d| d.slug == *slug).unwrap();
    def.fields
        .iter()
        .filter(|f| f.field_type == FieldType::Text)
        .map(|f| f.name.clone())
        .collect()
}

/// Nine in the morning in Berlin in January, as stored.
fn in_utc(value: &str) -> String {
    value.replace("\"2024-01-15T09:00\"", "\"2024-01-15T08:00:00.000Z\"")
}

/// The columns of the table a collection's or global's own values are kept in.
fn parent_columns(
    fields: &Vec<FieldDefinition>,
    config: &LocaleConfig,
) -> Result<Vec<(String, String)>, DbError> {
    let mut columns = Vec::new();
    for spec in collect_column_specs(fields, config) {
        let names = if spec.is_localized {
            config
                .locales
                .iter()
                .map(|l| cms_db::names::locale_column(&spec.col_name, l))
                .collect::<Result<Vec<String>, DbError>>()?
        } else {
            vec![spec.col_name.clone()]
        };
        for name in names {
            columns.push((name, spec.ddl_type(Dialect::Sqlite).to_string()));
        }
    }
    Ok(columns)
}

/// Creates the table a collection's or global's own values are kept in.
fn create_parent_table(
    conn: &Conn,
    table: &str,
    fields: &Vec<FieldDefinition>,
    config: &LocaleConfig,
) -> Result<(), DbError> {
    let mut columns = vec!["id TEXT PRIMARY KEY".to_string()];
    for (name, kind) in parent_columns(fields, config)? {
        columns.push(format!("\"{name}\" {kind}"));
    }
    columns.push("_ref_count INTEGER DEFAULT 0".to_string());
    columns.push("created_at TEXT".to_string());
    columns.push("updated_at TEXT".to_string());
    conn.execute_batch(&format!("CREATE TABLE \"{table}\" ({})", columns.join(", ")))
}

fn create_collection_table(
    conn: &Conn,
    slug: &str,
    def: &CollectionDefinition,
    config: &LocaleConfig,
) -> Result<(), DbError> {
    create_parent_table(conn, slug, &def.fields, config)
}

/// Sets the parts of a field one after another.
struct FieldBuilder(FieldDefinition);

impl FieldBuilder {
    fn localized(mut self, localized: bool) -> Self {
        self.0.localized = localized;
        self
    }

    fn has_many(mut self, has_many: bool) -> Self {
        self.0.has_many = has_many;
        self
    }

    fn timezone(mut self, timezone: bool) -> Self {
        self.0.timezone = timezone;
        self
    }

    fn languages(mut self, languages: Vec<String>) -> Self {
        self.0.languages = languages;
        self
    }

    fn relationship(mut self, relationship: RelationshipConfig) -> Self {
        self.0.relationship = Some(relationship);
        self
    }

    fn fields(mut self, fields: Vec<FieldDefinition>) -> Self {
        self.0.fields = fields;
        self
    }

    fn tabs(mut self, tabs: Vec<FieldTab>) -> Self {
        self.0.tabs = tabs;
        self
    }

    fn blocks(mut self, blocks: Vec<BlockDefinition>) -> Self {
        self.0.blocks = blocks;
        self
    }

    fn build(self) -> FieldDefinition {
        self.0
    }
}

trait Build {
    fn builder(name: &str, field_type: FieldType) -> FieldBuilder;
}

impl Build for FieldDefinition {
    fn builder(name: &str, field_type: FieldType) -> FieldBuilder {
        FieldBuilder(FieldDefinition::new(name, field_type))
    }
}

fn no_locale() -> LocaleConfig {
    LocaleConfig::disabled()
}

fn locale_en_de() -> LocaleConfig {
    LocaleConfig {
        default_locale: "en".to_string(),
        locales: vec!["en".to_string(), "de".to_string()],
        fallback: true,
    }
}

fn simple_collection(slug: &str, fields: Vec<FieldDefinition>) -> CollectionDefinition {
    let mut def = CollectionDefinition::new(slug);
    def.fields = fields;
    def
}

fn text_field(name: &str) -> FieldDefinition {
    FieldDefinition::builder(name, FieldType::Text).build()
}

fn table_exists(conn: &Conn, name: &str) -> Result<bool, DbError> {
    conn.run(|s| cms_db::migrate::helpers::introspection::table_exists(s, name))
}

fn get_table_columns(conn: &Conn, table: &str) -> Result<HashSet<String>, DbError> {
    let columns =
        conn.run(|s| cms_db::migrate::helpers::introspection::get_table_columns(s, table))?;
    Ok(columns.into_iter().collect())
}

fn sync_join_tables(
    conn: &Conn,
    slug: &str,
    fields: &Vec<FieldDefinition>,
    config: &LocaleConfig,
) -> Result<(), DbError> {
    conn.run(|s| sync_join_tables_of(s, slug, fields, config))
}

/// A registry's definitions, synced with the database behind a pool.
fn sync_all(pool: &Pool, registry: &Registry, config: &LocaleConfig) -> Result<(), DbError> {
    let world = World { registry: Some(registry), config: config.copy() };
    let source = DbPool::from_backend(Dialect::Sqlite);
    pool.get()?.run_in(&world, |s| cms_db::migrate::sync::sync_all(&source, s, registry, config))
}

fn find_related_ids(
    conn: &Conn,
    slug: &str,
    field: &str,
    parent: &str,
    locale: Option<&str>,
) -> Result<Vec<String>, DbError> {
    let mut params = vec![DbValue::Text(parent.to_string())];
    let mut filter = String::new();
    if let Some(locale) = locale {
        params.push(DbValue::Text(locale.to_string()));
        filter = " AND _locale = ?2".to_string();
    }
    conn.texts(
        &format!(
            "SELECT related_id FROM \"{slug}_{field}\" WHERE parent_id = ?1{filter} ORDER BY _order"
        ),
        &params,
    )
}

fn set_related_ids(
    conn: &Conn,
    slug: &str,
    field: &str,
    parent: &str,
    ids: &[String],
    locale: Option<&str>,
) -> Result<(), DbError> {
    for (i, id) in ids.iter().enumerate() {
        let mut columns = "parent_id, related_id, _order".to_string();
        let mut values = "?1, ?2, ?3".to_string();
        let mut params = vec![
            DbValue::Text(parent.to_string()),
            DbValue::Text(id.clone()),
            DbValue::Integer(i as i64),
        ];
        if let Some(locale) = locale {
            columns.push_str(", _locale");
            values.push_str(", ?4");
            params.push(DbValue::Text(locale.to_string()));
        }
        conn.execute(
            &format!("INSERT INTO \"{slug}_{field}\" ({columns}) VALUES ({values})"),
            &params,
        )?;
    }
    Ok(())
}

/// Access to the table of keys and values.
#[allow(non_camel_case_types)]
struct meta {}

impl meta {
    fn get(conn: &Conn, key: &str) -> Result<Option<String>, DbError> {
        conn.run(|s| cms_db::migrate::meta::get(s, key))
    }

    fn upsert(conn: &Conn, key: &str, value: &str) -> Result<(), DbError> {
        conn.run(|s| cms_db::migrate::meta::upsert(s, key, value))
    }
}

fn memory_conn() -> Conn {
    in_memory_pool().1.get().unwrap()
}

fn meta_key(table: &str) -> String {
    format!("reference_cardinality:{table}")
}

/// Syncs the search index of `posts`, where the given fields are searched.
fn sync(pool: &Pool, searchable: &[&str]) {
    let conn = pool.get().unwrap();
    let registry = search_registry(searchable);
    let world = World { registry: Some(&registry), config: no_locale() };
    conn.run_in(&world, |s| cms_db::migrate::search_index::sync_search_indexes(s, &registry))
        .unwrap();
}

fn search_registry(searchable: &[&str]) -> Registry {
    let mut registry = Registry::new();
    registry.register_collection(simple_collection(
        "posts",
        searchable.iter().map(|f| text_field(f)).collect(),
    ));
    registry
}

fn invalidate(conn: &Conn, slug: &str) -> Result<(), DbError> {
    conn.run(|s| cms_db::migrate::search_index::invalidate(s, slug))
}


fn author(has_many: bool) -> FieldDefinition {
    FieldDefinition::builder("author", FieldType::Relationship)
        .relationship(RelationshipConfig::new("users", has_many))
        .build()
}

fn registry(author: FieldDefinition) -> Registry {
    let mut registry = Registry::new();
    registry.register_collection(simple_collection("users", vec![]));
    registry.register_collection(simple_collection("posts", vec![author]));

    registry
}

fn ref_count(pool: &Pool, id: &str) -> i64 {
    pool.get()
        .unwrap()
        .query_one(
            "SELECT _ref_count FROM users WHERE id = ?1",
            &[DbValue::Text(id.into())],
        )
        .unwrap()
        .unwrap()
        .get_i64("_ref_count")
        .unwrap()
}

fn junction_rows(pool: &Pool) -> Vec<(String, String)> {
    pool.get()
        .unwrap()
        .query_all(
            "SELECT parent_id, related_id FROM posts_author ORDER BY parent_id",
            &[],
        )
        .unwrap()
        .iter()
        .map(|r| (r.text_at(0).unwrap(), r.text_at(1).unwrap()))
        .collect()
}

fn column_value(pool: &Pool, id: &str) -> Option<String> {
    pool.get()
        .unwrap()
        .query_one(
            "SELECT author FROM posts WHERE id = ?1",
            &[DbValue::Text(id.into())],
        )
        .unwrap()
        .unwrap()
        .text_at(0)
}

#[test]
fn turning_has_many_on_carries_the_column_into_the_junction() {
    let (_dir, pool) = in_memory_pool();
    sync_all(&pool, &registry(author(false)), &no_locale()).unwrap();

    pool.get()
        .unwrap()
        .execute_batch(
            "INSERT INTO users (id) VALUES ('u1'), ('u2');
             INSERT INTO posts (id, author) VALUES ('p1', 'u1'), ('p2', 'u2'), ('p3', NULL);",
        )
        .unwrap();

    sync_all(&pool, &registry(author(true)), &no_locale()).unwrap();

    assert_eq!(
        junction_rows(&pool),
        vec![("p1".into(), "u1".into()), ("p2".into(), "u2".into())]
    );
    assert_eq!(
        ref_count(&pool, "u1"),
        1,
        "the carried value keeps counting"
    );
}

/// The reverse: a has-many field turned has-one fills its column from the
/// junction when every document holds at most one value.
#[test]
fn turning_has_many_off_carries_the_junction_into_the_column() {
    let (_dir, pool) = in_memory_pool();
    sync_all(&pool, &registry(author(true)), &no_locale()).unwrap();

    pool.get()
        .unwrap()
        .execute_batch(
            "INSERT INTO users (id) VALUES ('u1');
             INSERT INTO posts (id) VALUES ('p1'), ('p2');
             INSERT INTO posts_author (parent_id, related_id, _order) VALUES ('p1', 'u1', 0);",
        )
        .unwrap();

    sync_all(&pool, &registry(author(false)), &no_locale()).unwrap();

    assert_eq!(column_value(&pool, "p1").as_deref(), Some("u1"));
    assert_eq!(column_value(&pool, "p2"), None);
    assert_eq!(ref_count(&pool, "u1"), 1);
}

/// A document holding two values cannot turn has-one without losing one:
/// the sync is refused, naming it, and nothing changes.
#[test]
fn turning_has_many_off_with_several_values_is_refused() {
    let (_dir, pool) = in_memory_pool();
    sync_all(&pool, &registry(author(true)), &no_locale()).unwrap();

    pool.get()
        .unwrap()
        .execute_batch(
            "INSERT INTO users (id) VALUES ('u1'), ('u2');
             INSERT INTO posts (id) VALUES ('p1');
             INSERT INTO posts_author (parent_id, related_id, _order) \
                 VALUES ('p1', 'u1', 0), ('p1', 'u2', 1);",
        )
        .unwrap();

    let err = sync_all(&pool, &registry(author(false)), &no_locale())
        .unwrap_err()
        .message();

    assert!(err.contains("p1") && err.contains("author"), "{err}");
    assert_eq!(junction_rows(&pool).len(), 2, "nothing changed");
}

/// Flipping back and forth carries the current values each time: an edit
/// made while has-one is what the junction holds afterwards.
#[test]
fn flipping_back_carries_the_latest_values() {
    let (_dir, pool) = in_memory_pool();
    sync_all(&pool, &registry(author(true)), &no_locale()).unwrap();

    pool.get()
        .unwrap()
        .execute_batch(
            "INSERT INTO users (id) VALUES ('u1'), ('u2');
             INSERT INTO posts (id) VALUES ('p1');
             INSERT INTO posts_author (parent_id, related_id, _order) VALUES ('p1', 'u1', 0);",
        )
        .unwrap();

    sync_all(&pool, &registry(author(false)), &no_locale()).unwrap();
    pool.get()
        .unwrap()
        .execute("UPDATE posts SET author = 'u2' WHERE id = 'p1'", &[])
        .unwrap();
    sync_all(&pool, &registry(author(true)), &no_locale()).unwrap();

    assert_eq!(junction_rows(&pool), vec![("p1".into(), "u2".into())]);
}

/// A polymorphic value round-trips through `collection/id` and the
/// junction's `related_collection`.
#[test]
fn polymorphic_values_carry_both_ways() {
    let poly = |has_many: bool| {
        let mut rc = RelationshipConfig::new("users", has_many);
        rc.polymorphic = vec!["users".into(), "pages".into()];

        FieldDefinition::builder("author", FieldType::Relationship)
            .relationship(rc)
            .build()
    };

    let reg = |has_many: bool| {
        let mut registry = registry(poly(has_many));
        registry.register_collection(simple_collection("pages", vec![]));

        registry
    };

    let (_dir, pool) = in_memory_pool();
    sync_all(&pool, &reg(false), &no_locale()).unwrap();

    pool.get()
        .unwrap()
        .execute_batch(
            "INSERT INTO pages (id) VALUES ('g1');
             INSERT INTO posts (id, author) VALUES ('p1', 'pages/g1');",
        )
        .unwrap();

    sync_all(&pool, &reg(true), &no_locale()).unwrap();

    let row = pool
        .get()
        .unwrap()
        .query_one(
            "SELECT related_id, related_collection FROM posts_author",
            &[],
        )
        .unwrap()
        .unwrap();
    assert_eq!(row.text_at(0).as_deref(), Some("g1"));
    assert_eq!(row.text_at(1).as_deref(), Some("pages"));

    pool.get()
        .unwrap()
        .execute("UPDATE posts SET author = NULL", &[])
        .unwrap();
    sync_all(&pool, &reg(false), &no_locale()).unwrap();

    assert_eq!(column_value(&pool, "p1").as_deref(), Some("pages/g1"));
}

/// A localized field carries each locale's value into its own rows.
#[test]
fn localized_values_carry_per_locale() {
    let localized = |has_many: bool| {
        let mut field = author(has_many);
        field.localized = true;

        field
    };

    let (_dir, pool) = in_memory_pool();
    sync_all(&pool, &registry(localized(false)), &locale_en_de()).unwrap();

    pool.get()
        .unwrap()
        .execute_batch(
            "INSERT INTO users (id) VALUES ('u1'), ('u2');
             INSERT INTO posts (id, author__en, author__de) VALUES ('p1', 'u1', 'u2');",
        )
        .unwrap();

    sync_all(&pool, &registry(localized(true)), &locale_en_de()).unwrap();

    let rows: Vec<(String, String)> = pool
        .get()
        .unwrap()
        .query_all(
            "SELECT _locale, related_id FROM posts_author ORDER BY _locale",
            &[],
        )
        .unwrap()
        .iter()
        .map(|r| (r.text_at(0).unwrap(), r.text_at(1).unwrap()))
        .collect();

    assert_eq!(
        rows,
        vec![("de".into(), "u2".into()), ("en".into(), "u1".into())]
    );
}

/// Changing `has_many` and `localized` in one go is refused rather than
/// guessed at.
#[test]
fn changing_has_many_with_localized_is_refused() {
    let (_dir, pool) = in_memory_pool();
    sync_all(&pool, &registry(author(false)), &locale_en_de()).unwrap();

    let mut both = author(true);
    both.localized = true;

    let err = sync_all(&pool, &registry(both), &locale_en_de())
        .unwrap_err()
        .message();

    assert!(err.contains("one of those changes"), "{err}");
}

#[test]
fn shapes_round_trip_through_their_recorded_form() {
    for has_many in [false, true] {
        for localized in [false, true] {
            for polymorphic in [false, true] {
                let shape = Shape {
                    has_many,
                    localized,
                    polymorphic,
                };

                assert_eq!(Shape::decode(&shape.encode()), Some(shape));
            }
        }
    }

    assert_eq!(Shape::decode("sometimes"), None);
}

/// A table seen for the first time only records its shape.
#[test]
fn the_first_boot_records_the_shape() {
    let (_dir, pool) = in_memory_pool();
    sync_all(&pool, &registry(author(false)), &no_locale()).unwrap();

    let conn = pool.get().unwrap();
    assert_eq!(
        meta::get(&conn, &meta_key("posts")).unwrap().as_deref(),
        Some("author=one")
    );
}

/// A reference inside an array row is stored in the row, not the table:
/// only the group's reference is the table's own.
#[test]
fn leaves_inside_array_rows_are_not_the_tables_own() {
    let fields = vec![
        FieldDefinition::builder("items", FieldType::Array)
            .fields(vec![author(false)])
            .build(),
        FieldDefinition::builder("meta", FieldType::Group)
            .fields(vec![author(true)])
            .build(),
    ];
    let leaves = ref_leaves(&fields, &no_locale());
    let paths: Vec<&str> = leaves.iter().map(|l| l.path.as_str()).collect();

    assert_eq!(paths, vec!["meta__author"]);
}

/// How many documents the index holds.
fn indexed(pool: &Pool) -> i64 {
    pool.get()
        .unwrap()
        .query_one("SELECT COUNT(*) FROM _fts_posts", &[])
        .unwrap()
        .and_then(|row| row.i64_at(0))
        .unwrap()
}

#[test]
fn an_unchanged_index_is_not_rebuilt() {
    let (_dir, pool) = in_memory_pool();
    pool.get()
        .unwrap()
        .execute_batch(
            "CREATE TABLE posts (id TEXT PRIMARY KEY, title TEXT, body TEXT); \
             INSERT INTO posts (id, title, body) VALUES ('p0', 'Zero', 'x'), \
             ('p1', 'Hello', 'World');",
        )
        .unwrap();

    sync(&pool, &["title"]);
    assert_eq!(indexed(&pool), 2);

    // A marker only a rebuild would undo: the index loses a document.
    pool.get()
        .unwrap()
        .execute("DELETE FROM _fts_posts WHERE id = 'p0'", &[])
        .unwrap();

    sync(&pool, &["title"]);
    assert_eq!(indexed(&pool), 1, "an unchanged index is kept");

    sync(&pool, &["title", "body"]);
    assert_eq!(indexed(&pool), 2, "a changed shape rebuilds the index");
}

/// A stale mark, or an index table gone missing, rebuilds the index.
#[test]
fn a_stale_or_missing_index_is_rebuilt() {
    let (_dir, pool) = in_memory_pool();
    pool.get()
        .unwrap()
        .execute_batch(
            "CREATE TABLE posts (id TEXT PRIMARY KEY, title TEXT, body TEXT); \
             INSERT INTO posts (id, title) VALUES ('p1', 'Hello');",
        )
        .unwrap();

    sync(&pool, &["title"]);
    {
        let conn = pool.get().unwrap();
        conn.execute("UPDATE posts SET title = 'Rewritten'", &[])
            .unwrap();
        invalidate(&conn, "posts").unwrap();
    }

    sync(&pool, &["title"]);
    let title = pool
        .get()
        .unwrap()
        .query_one("SELECT title FROM _fts_posts WHERE id = 'p1'", &[])
        .unwrap()
        .and_then(|row| row.text_at(0));
    assert_eq!(title.as_deref(), Some("Rewritten"));

    pool.get()
        .unwrap()
        .execute_batch("DROP TABLE _fts_posts")
        .unwrap();
    sync(&pool, &["title"]);
    assert_eq!(indexed(&pool), 1, "a missing index table is rebuilt");
}

#[test]
fn values_carried_there_and_back_are_the_same_and_said() {
    let (_dir, pool) = in_memory_pool();
    sync_all(&pool, &registry(author(false)), &no_locale()).unwrap();
    let conn = pool.get().unwrap();
    conn.execute_batch(
        "INSERT INTO users (id) VALUES ('u1'), ('u2');
         INSERT INTO posts (id, author) VALUES ('p1', 'u1'), ('p2', 'u2'), ('p3', NULL);",
    )
    .unwrap();
    sync_all(&pool, &registry(author(true)), &no_locale()).unwrap();
    let rows = junction_rows(&pool);
    sync_all(&pool, &registry(author(false)), &no_locale()).unwrap();

    assert_eq!(column_value(&pool, "p1").as_deref(), Some("u1"));
    assert_eq!(column_value(&pool, "p2").as_deref(), Some("u2"));
    assert_eq!(column_value(&pool, "p3"), None);
    assert_eq!(junction_rows(&pool), rows);
    let notes = conn.0.notes.borrow();
    let carried: Vec<&String> = notes.iter().filter(|n| n.starts_with("Carried")).collect();
    assert_eq!(
        carried,
        [
            "Carried 2 value(s) of 'posts.author' into 'posts_author' (turned has-many)",
            "Carried 'posts_author' into 'posts.author' (turned has-one)",
        ]
    );
}
