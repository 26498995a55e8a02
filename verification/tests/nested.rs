#![allow(dead_code, unused_imports)]

use cms_db::definition::{
    BlockDefinition, CollectionDefinition, FieldDefinition, FieldTab, FieldType, GlobalDefinition,
    LocaleConfig, Registry, RelationshipConfig, VersionsConfig,
};
use cms_db::migrate::helpers::column_specs::collect_column_specs;
use cms_db::migrate::helpers::versions::sync_versions_table as sync_versions_of;
use cms_db::migrate::join_tables::orchestrator::sync_join_tables as sync_join_tables_of;
use cms_db::pool::DbPool;
use cms_db::session::{Dialect, Reply, Request, Session};
use cms_db::value::{DbError, DbRow, DbValue};
use std::cell::RefCell;
use std::collections::HashSet;
use std::rc::Rc;
use cms_db::migrate::helpers::paged::PAGE_SIZE;
use serde_json::Value;


/// A SQLite database in memory, and what it takes to answer requests over it.
struct Db {
    raw: rusqlite::Connection,
    warnings: RefCell<Vec<String>>,
}

/// A connection to such a database.
#[derive(Clone)]
struct Conn(Rc<Db>);

/// Where such connections come from.
struct Pool(Conn);

/// The definitions a run is about, where it needs them.
struct World<'a> {
    registry: Option<&'a Registry>,
    config: LocaleConfig,
}

impl Pool {
    fn get(&self) -> Result<Conn, DbError> {
        Ok(self.0.clone())
    }
}

fn in_memory_pool() -> ((), Pool) {
    let raw = rusqlite::Connection::open_in_memory().unwrap();
    raw.execute_batch("PRAGMA foreign_keys = ON;").unwrap();
    raw.execute_batch(
        "CREATE TABLE _crap_meta (key TEXT PRIMARY KEY, value TEXT NOT NULL, updated_at TEXT)",
    )
    .unwrap();
    let db = Db { raw, warnings: RefCell::new(Vec::new()) };
    ((), Pool(Conn(Rc::new(db))))
}

fn to_sqlite(value: &DbValue) -> rusqlite::types::Value {
    match value {
        DbValue::Null => rusqlite::types::Value::Null,
        DbValue::Integer(n) => rusqlite::types::Value::Integer(*n),
        DbValue::Real(bits) => rusqlite::types::Value::Real(f64::from_bits(*bits)),
        DbValue::Text(s) => rusqlite::types::Value::Text(s.clone()),
        DbValue::Blob(b) => rusqlite::types::Value::Blob(b.clone()),
    }
}

fn from_sqlite(value: rusqlite::types::Value) -> DbValue {
    match value {
        rusqlite::types::Value::Null => DbValue::Null,
        rusqlite::types::Value::Integer(n) => DbValue::Integer(n),
        rusqlite::types::Value::Real(f) => DbValue::Real(f.to_bits()),
        rusqlite::types::Value::Text(s) => DbValue::Text(s),
        rusqlite::types::Value::Blob(b) => DbValue::Blob(b),
    }
}

impl Conn {
    fn rows(&self, sql: &str, params: &[DbValue]) -> rusqlite::Result<Vec<DbRow>> {
        let mut statement = self.0.raw.prepare(sql)?;
        let columns: Vec<String> = statement.column_names().iter().map(|c| c.to_string()).collect();
        let width = columns.len();
        let mut rows = statement.query(rusqlite::params_from_iter(params.iter().map(to_sqlite)))?;
        let mut found = Vec::new();
        while let Some(row) = rows.next()? {
            let mut values = Vec::new();
            for i in 0..width {
                values.push(from_sqlite(row.get::<usize, rusqlite::types::Value>(i)?));
            }
            found.push(DbRow::new(columns.clone(), values));
        }
        Ok(found)
    }

    fn query_all(&self, sql: &str, params: &[DbValue]) -> Result<Vec<DbRow>, DbError> {
        self.rows(sql, params).map_err(|e| DbError::Backend(e.to_string()))
    }

    fn query_one(&self, sql: &str, params: &[DbValue]) -> Result<Option<DbRow>, DbError> {
        Ok(self.query_all(sql, params)?.into_iter().next())
    }

    fn execute(&self, sql: &str, params: &[DbValue]) -> Result<usize, DbError> {
        self.0
            .raw
            .execute(sql, rusqlite::params_from_iter(params.iter().map(to_sqlite)))
            .map_err(|e| DbError::Backend(e.to_string()))
    }

    fn execute_batch(&self, sql: &str) -> Result<(), DbError> {
        self.0.raw.execute_batch(sql).map_err(|e| DbError::Backend(e.to_string()))
    }

    fn execute_ddl(&self, sql: &str, params: &[DbValue]) -> Result<usize, DbError> {
        self.execute(sql, params)
    }

    fn index_names(&self, table: &str, prefix: &str) -> Result<Vec<String>, DbError> {
        self.run(|s| cms_db::migrate::helpers::introspection::index_names(s, table, prefix))
    }

    /// Runs an operation that needs no definitions.
    fn run<T>(&self, operation: impl FnMut(&mut Session) -> Result<T, DbError>) -> Result<T, DbError> {
        let world = World { registry: None, config: LocaleConfig::disabled() };
        self.run_in(&world, operation)
    }

    /// Runs an operation over and over, answering one more request each time.
    fn run_in<T>(
        &self,
        world: &World,
        mut operation: impl FnMut(&mut Session) -> Result<T, DbError>,
    ) -> Result<T, DbError> {
        let mut session = Session::new(Dialect::Sqlite);
        loop {
            session.rewind();
            let result = operation(&mut session);
            let reply = match session.pending() {
                None => {
                    self.0.warnings.borrow_mut().extend(session.warnings().iter().cloned());
                    return result;
                }
                Some(request) => self.perform(world, request),
            };
            session.answer(reply);
        }
    }

    fn texts(&self, sql: &str, params: &[DbValue]) -> Result<Vec<String>, DbError> {
        Ok(self.query_all(sql, params)?.iter().filter_map(|r| r.text_at(0)).collect())
    }

    fn perform(&self, world: &World, request: &Request) -> Reply {
        match self.answer(world, request) {
            Ok(reply) => reply,
            Err(e) => Reply::Failed(e.message()),
        }
    }

    fn answer(&self, world: &World, request: &Request) -> Result<Reply, DbError> {
        Ok(match request {
            Request::QueryAll { sql, params } => Reply::Rows(self.query_all(sql, params)?),
            Request::QueryOne { sql, params } => Reply::Row(self.query_one(sql, params)?),
            Request::Execute { sql, params } => Reply::Count(self.execute(sql, params)? as u64),
            Request::ExecuteMany { sql, rows } => {
                let mut count = 0;
                for params in rows {
                    count += self.execute(sql, params)? as u64;
                }
                Reply::Count(count)
            }
            Request::ExecuteBatch { sql } => {
                self.execute_batch(sql)?;
                Reply::Done
            }
            Request::TableExists { table } => Reply::Flag(
                !self
                    .query_all(
                        "SELECT 1 FROM sqlite_master WHERE type = 'table' AND name = ?1",
                        &[DbValue::Text(table.clone())],
                    )?
                    .is_empty(),
            ),
            Request::TableColumns { table } => Reply::Names(self.texts(
                "SELECT name FROM pragma_table_info(?1)",
                &[DbValue::Text(table.clone())],
            )?),
            Request::TableColumnTypes { table } => Reply::Types(
                self.query_all(
                    "SELECT name, type FROM pragma_table_info(?1)",
                    &[DbValue::Text(table.clone())],
                )?
                .iter()
                .map(|r| (r.text_at(0).unwrap(), r.text_at(1).unwrap()))
                .collect(),
            ),
            Request::IndexNames { table, prefix } => Reply::Names(
                self.texts(
                    "SELECT name FROM sqlite_master WHERE type = 'index' AND tbl_name = ?1",
                    &[DbValue::Text(table.clone())],
                )?
                .into_iter()
                .filter(|n| n.starts_with(prefix.as_str()))
                .collect(),
            ),
            Request::ListUserTables => Reply::Names(self.texts(
                "SELECT name FROM sqlite_master WHERE type = 'table' AND name NOT LIKE 'sqlite_%'",
                &[],
            )?),
            Request::HeldLocales { table } => Reply::Names(
                self.texts(&format!("SELECT DISTINCT _locale FROM \"{table}\""), &[])?,
            ),
            Request::DeleteRowsOutsideLocales { table, locales } => {
                let marks: Vec<String> = (1..=locales.len()).map(|i| format!("?{i}")).collect();
                let params: Vec<DbValue> =
                    locales.iter().map(|l| DbValue::Text(l.clone())).collect();
                let sql =
                    format!("DELETE FROM \"{table}\" WHERE _locale NOT IN ({})", marks.join(", "));
                Reply::Count(self.execute(&sql, &params)? as u64)
            }
            Request::Begin => {
                self.execute_batch("BEGIN IMMEDIATE")?;
                Reply::Done
            }
            Request::Commit => {
                self.execute_batch("COMMIT")?;
                Reply::Done
            }
            Request::Rollback => {
                self.execute_batch("ROLLBACK")?;
                Reply::Done
            }
            Request::BackfillRefCounts => {
                self.count_references(world)?;
                Reply::Done
            }
            Request::NeedsRebuild { .. } => Reply::Flag(false),
            Request::SyncCollection { slug } => {
                let registry = world.registry.unwrap();
                let def = registry.collections.iter().find(|d| d.slug == *slug).unwrap();
                self.sync_collection_table(world, slug, def)?;
                Reply::Done
            }
            Request::SyncGlobal { slug } => {
                let registry = world.registry.unwrap();
                let def = registry.globals.iter().find(|d| d.slug == *slug).unwrap();
                let table = cms_db::names::global_table(slug);
                if !table_exists(self, &table)? {
                    create_parent_table(self, &table, &def.fields, &world.config)?;
                }
                self.run(|s| sync_join_tables_of(s, &table, &def.fields, &world.config))?;
                Reply::Done
            }
            Request::EnqueueImageConversions { job: name, queue, jobs, .. } => {
                for (i, job) in jobs.iter().enumerate() {
                    self.execute(
                        "INSERT INTO _crap_jobs (id, slug, queue, data) VALUES (?1, ?2, ?3, ?4)",
                        &[
                            DbValue::Text(format!("image{i}")),
                            DbValue::Text(name.clone()),
                            DbValue::Text(queue.clone()),
                            DbValue::Text(format!("{}:{}", job.source_path, job.quality)),
                        ],
                    )?;
                }
                Reply::Done
            }
            Request::SearchIndexShape { slug } => {
                let names = searched(world, slug);
                Reply::IndexShape { fingerprint: names.join(","), indexed: !names.is_empty() }
            }
            Request::SearchIndexExists { slug } => {
                Reply::Flag(table_exists(self, &format!("_fts_{slug}"))?)
            }
            Request::SyncSearchIndex { slug } => {
                self.execute_batch(&format!("DROP TABLE IF EXISTS \"_fts_{slug}\""))?;
                let names = searched(world, slug);
                if !names.is_empty() {
                    self.execute_batch(&format!(
                        "CREATE TABLE \"_fts_{slug}\" AS SELECT id, {} FROM \"{slug}\"",
                        names.join(", ")
                    ))?;
                }
                Reply::Done
            }
            Request::StoreNestedValues { values, .. } => Reply::Names(
                values
                    .iter()
                    .map(|v| in_utc(v).replace("\"featured\":\"on\"", "\"featured\":true"))
                    .collect(),
            ),
            Request::ConvertTimezoneDates { values, .. } => {
                Reply::Names(values.iter().map(|v| in_utc(v)).collect())
            }
            _ => Reply::Done,
        })
    }

    /// Counts how often each document is referred to.
    fn count_references(&self, world: &World) -> Result<(), DbError> {
        let registry = world.registry.unwrap();
        for target in &registry.collections {
            let mut counts = Vec::new();
            for def in &registry.collections {
                for field in &def.fields {
                    let rc = match &field.relationship {
                        Some(rc) if rc.collection == target.slug => rc,
                        _ => continue,
                    };
                    let own = get_table_columns(self, &def.slug)?;
                    let (table, column) = if rc.has_many {
                        (format!("{}_{}", def.slug, field.name), "related_id")
                    } else if own.contains(&field.name) {
                        (def.slug.clone(), field.name.as_str())
                    } else {
                        continue;
                    };
                    counts.push(format!(
                        "(SELECT COUNT(*) FROM \"{table}\" j WHERE j.\"{column}\" = \"{}\".id)",
                        target.slug
                    ));
                }
            }
            if !counts.is_empty() {
                self.execute_batch(&format!(
                    "UPDATE \"{}\" SET _ref_count = {}",
                    target.slug,
                    counts.join(" + ")
                ))?;
            }
        }
        Ok(())
    }

    /// Creates a collection's own table where there is none, and syncs what
    /// belongs to it.
    fn sync_collection_table(
        &self,
        world: &World,
        slug: &str,
        def: &CollectionDefinition,
    ) -> Result<(), DbError> {
        if !table_exists(self, slug)? {
            create_parent_table(self, slug, &def.fields, &world.config)?;
        } else {
            let existing = get_table_columns(self, slug)?;
            for (name, kind) in parent_columns(&def.fields, &world.config)? {
                if !existing.contains(&name) {
                    self.execute_batch(&format!(
                        "ALTER TABLE \"{slug}\" ADD COLUMN \"{name}\" {kind}"
                    ))?;
                }
            }
        }
        self.run(|s| sync_join_tables_of(s, slug, &def.fields, &world.config))?;
        if def.versions.is_some() {
            self.run(|s| sync_versions_of(s, slug))?;
        }
        Ok(())
    }
}

/// The names of a collection's text fields.
fn searched(world: &World, slug: &str) -> Vec<String> {
    let registry = world.registry.unwrap();
    let def = registry.collections.iter().find(|d| d.slug == *slug).unwrap();
    def.fields
        .iter()
        .filter(|f| f.field_type == FieldType::Text)
        .map(|f| f.name.clone())
        .collect()
}

/// Nine in the morning in Berlin in January, as stored.
fn in_utc(value: &str) -> String {
    value.replace("\"2024-01-15T09:00\"", "\"2024-01-15T08:00:00.000Z\"")
}

/// The columns of the table a collection's or global's own values are kept in.
fn parent_columns(
    fields: &Vec<FieldDefinition>,
    config: &LocaleConfig,
) -> Result<Vec<(String, String)>, DbError> {
    let mut columns = Vec::new();
    for spec in collect_column_specs(fields, config) {
        let names = if spec.is_localized {
            config
                .locales
                .iter()
                .map(|l| cms_db::names::locale_column(&spec.col_name, l))
                .collect::<Result<Vec<String>, DbError>>()?
        } else {
            vec![spec.col_name.clone()]
        };
        for name in names {
            columns.push((name, spec.ddl_type(Dialect::Sqlite).to_string()));
        }
    }
    Ok(columns)
}

/// Creates the table a collection's or global's own values are kept in.
fn create_parent_table(
    conn: &Conn,
    table: &str,
    fields: &Vec<FieldDefinition>,
    config: &LocaleConfig,
) -> Result<(), DbError> {
    let mut columns = vec!["id TEXT PRIMARY KEY".to_string()];
    for (name, kind) in parent_columns(fields, config)? {
        columns.push(format!("\"{name}\" {kind}"));
    }
    columns.push("_ref_count INTEGER DEFAULT 0".to_string());
    columns.push("created_at TEXT".to_string());
    columns.push("updated_at TEXT".to_string());
    conn.execute_batch(&format!("CREATE TABLE \"{table}\" ({})", columns.join(", ")))
}

fn create_collection_table(
    conn: &Conn,
    slug: &str,
    def: &CollectionDefinition,
    config: &LocaleConfig,
) -> Result<(), DbError> {
    create_parent_table(conn, slug, &def.fields, config)
}

/// Sets the parts of a field one after another.
struct FieldBuilder(FieldDefinition);

impl FieldBuilder {
    fn localized(mut self, localized: bool) -> Self {
        self.0.localized = localized;
        self
    }

    fn has_many(mut self, has_many: bool) -> Self {
        self.0.has_many = has_many;
        self
    }

    fn timezone(mut self, timezone: bool) -> Self {
        self.0.timezone = timezone;
        self
    }

    fn languages(mut self, languages: Vec<String>) -> Self {
        self.0.languages = languages;
        self
    }

    fn relationship(mut self, relationship: RelationshipConfig) -> Self {
        self.0.relationship = Some(relationship);
        self
    }

    fn fields(mut self, fields: Vec<FieldDefinition>) -> Self {
        self.0.fields = fields;
        self
    }

    fn tabs(mut self, tabs: Vec<FieldTab>) -> Self {
        self.0.tabs = tabs;
        self
    }

    fn blocks(mut self, blocks: Vec<BlockDefinition>) -> Self {
        self.0.blocks = blocks;
        self
    }

    fn build(self) -> FieldDefinition {
        self.0
    }
}

trait Build {
    fn builder(name: &str, field_type: FieldType) -> FieldBuilder;
}

impl Build for FieldDefinition {
    fn builder(name: &str, field_type: FieldType) -> FieldBuilder {
        FieldBuilder(FieldDefinition::new(name, field_type))
    }
}

fn no_locale() -> LocaleConfig {
    LocaleConfig::disabled()
}

fn locale_en_de() -> LocaleConfig {
    LocaleConfig {
        default_locale: "en".to_string(),
        locales: vec!["en".to_string(), "de".to_string()],
        fallback: true,
    }
}

fn simple_collection(slug: &str, fields: Vec<FieldDefinition>) -> CollectionDefinition {
    let mut def = CollectionDefinition::new(slug);
    def.fields = fields;
    def
}

fn text_field(name: &str) -> FieldDefinition {
    FieldDefinition::builder(name, FieldType::Text).build()
}

fn table_exists(conn: &Conn, name: &str) -> Result<bool, DbError> {
    conn.run(|s| cms_db::migrate::helpers::introspection::table_exists(s, name))
}

fn get_table_columns(conn: &Conn, table: &str) -> Result<HashSet<String>, DbError> {
    let columns =
        conn.run(|s| cms_db::migrate::helpers::introspection::get_table_columns(s, table))?;
    Ok(columns.into_iter().collect())
}

fn sync_join_tables(
    conn: &Conn,
    slug: &str,
    fields: &Vec<FieldDefinition>,
    config: &LocaleConfig,
) -> Result<(), DbError> {
    conn.run(|s| sync_join_tables_of(s, slug, fields, config))
}

/// A registry's definitions, synced with the database behind a pool.
fn sync_all(pool: &Pool, registry: &Registry, config: &LocaleConfig) -> Result<(), DbError> {
    let world = World { registry: Some(registry), config: config.copy() };
    let source = DbPool::from_backend(Dialect::Sqlite);
    pool.get()?.run_in(&world, |s| cms_db::migrate::sync::sync_all(&source, s, registry, config))
}

fn find_related_ids(
    conn: &Conn,
    slug: &str,
    field: &str,
    parent: &str,
    locale: Option<&str>,
) -> Result<Vec<String>, DbError> {
    let mut params = vec![DbValue::Text(parent.to_string())];
    let mut filter = String::new();
    if let Some(locale) = locale {
        params.push(DbValue::Text(locale.to_string()));
        filter = " AND _locale = ?2".to_string();
    }
    conn.texts(
        &format!(
            "SELECT related_id FROM \"{slug}_{field}\" WHERE parent_id = ?1{filter} ORDER BY _order"
        ),
        &params,
    )
}

fn set_related_ids(
    conn: &Conn,
    slug: &str,
    field: &str,
    parent: &str,
    ids: &[String],
    locale: Option<&str>,
) -> Result<(), DbError> {
    for (i, id) in ids.iter().enumerate() {
        let mut columns = "parent_id, related_id, _order".to_string();
        let mut values = "?1, ?2, ?3".to_string();
        let mut params = vec![
            DbValue::Text(parent.to_string()),
            DbValue::Text(id.clone()),
            DbValue::Integer(i as i64),
        ];
        if let Some(locale) = locale {
            columns.push_str(", _locale");
            values.push_str(", ?4");
            params.push(DbValue::Text(locale.to_string()));
        }
        conn.execute(
            &format!("INSERT INTO \"{slug}_{field}\" ({columns}) VALUES ({values})"),
            &params,
        )?;
    }
    Ok(())
}

/// Access to the table of keys and values.
#[allow(non_camel_case_types)]
struct meta {}

impl meta {
    fn get(conn: &Conn, key: &str) -> Result<Option<String>, DbError> {
        conn.run(|s| cms_db::migrate::meta::get(s, key))
    }

    fn upsert(conn: &Conn, key: &str, value: &str) -> Result<(), DbError> {
        conn.run(|s| cms_db::migrate::meta::upsert(s, key, value))
    }
}

fn memory_conn() -> Conn {
    in_memory_pool().1.get().unwrap()
}

const MIGRATION_VERSION: &str = "1";
const RETIRED_META_KEY: &str = "legacy_timestamps_normalized";
/// Berlin is UTC+1 in January.
const LOCAL: &str = "2024-01-15T09:00";
const UTC: &str = "2024-01-15T08:00:00.000Z";

fn convert_nested_values(conn: &Conn, registry: &Registry) -> Result<(), DbError> {
    conn.run(|s| cms_db::migrate::nested_values::convert_if_needed(s, registry))
}

fn convert_nested_dates(conn: &Conn, registry: &Registry) -> Result<(), DbError> {
    conn.run(|s| cms_db::migrate::nested_timezone_dates::convert_if_needed(s, registry))
}

fn normalize_if_needed(conn: &Conn, registry: &Registry) -> Result<(), DbError> {
    conn.run(|s| cms_db::migrate::legacy_timestamps::normalize_if_needed(s, registry))
}

fn registry_of(def: CollectionDefinition) -> Registry {
    let mut registry = Registry::new();
    registry.register_collection(def);
    registry
}

fn registry_with(slugs: &[&str]) -> Registry {
    let mut registry = Registry::new();
    for slug in slugs {
        registry.register_collection(CollectionDefinition::new(slug));
    }
    registry
}

fn registry_with_posts() -> Registry {
    registry_with(&["posts"])
}

fn local_meta() -> String {
    "{\"featured\":\"on\",\"starts\":\"2024-01-15T09:00\",\"starts_tz\":\"Europe/Berlin\"}"
        .to_string()
}

fn truth() -> Value {
    Value::Bool(true)
}

/// A connection with the given tables.
fn conn_with(ddl: &str) -> Conn {
    let conn = memory_conn();
    conn.execute_batch(ddl).unwrap();
    conn
}


fn starts() -> FieldDefinition {
    FieldDefinition::builder("starts", FieldType::Date)
        .timezone(true)
        .build()
}

fn stored_starts(conn: &Conn, sql: &str) -> Value {
    stored_json(conn, sql)["starts"].clone()
}

fn stored_json(conn: &Conn, sql: &str) -> Value {
    let raw: String = conn.0.raw.query_row(sql, [], |r| r.get(0)).unwrap();

    serde_json::from_str::<Value>(&raw).unwrap()
}

/// An array field whose row holds a `meta` group with a timezone date and
/// a checkbox.
fn items_with_meta() -> FieldDefinition {
    FieldDefinition::builder("items", FieldType::Array)
        .fields(vec![
            FieldDefinition::builder("meta", FieldType::Group)
                .fields(vec![
                    starts(),
                    FieldDefinition::builder("featured", FieldType::Checkbox).build(),
                ])
                .build(),
        ])
        .build()
}

/// A checkbox inside a group of an array row is stored as `true`/`false`.
#[test]
fn converts_a_checkbox_in_an_array_row() {
    let conn = conn_with(
        "CREATE TABLE posts (id TEXT PRIMARY KEY);
         CREATE TABLE posts_items (id TEXT PRIMARY KEY, parent_id TEXT, _order INTEGER, meta TEXT);",
    );
    conn.0.raw
        .execute(
            "INSERT INTO posts_items VALUES ('r1', 'p1', 0, ?1)",
            [&local_meta()],
        )
        .unwrap();

    let mut def = CollectionDefinition::new("posts");
    def.fields = vec![items_with_meta()];
    convert_nested_values(&conn, &registry_of(def)).unwrap();

    let meta = stored_json(&conn, "SELECT meta FROM posts_items WHERE id = 'r1'");
    assert_eq!(meta["featured"], truth());
    assert_eq!(meta["starts"], UTC);
}

/// A nested array and blocks inside an array row are converted row by row.
#[test]
fn converts_arrays_and_blocks_nested_in_an_array_row() {
    let conn = conn_with(
        "CREATE TABLE posts (id TEXT PRIMARY KEY);
         CREATE TABLE posts_items (id TEXT PRIMARY KEY, parent_id TEXT, _order INTEGER, slots TEXT, content TEXT);",
    );
    let slots = format!("[{}]", local_meta());
    let content = format!("[{}]", local_meta().replacen('{', "{\"_block_type\":\"event\",", 1));
    conn.0.raw
        .execute(
            "INSERT INTO posts_items VALUES ('r1', 'p1', 0, ?1, ?2)",
            [&slots, &content],
        )
        .unwrap();

    let mut def = CollectionDefinition::new("posts");
    def.fields = vec![
        FieldDefinition::builder("items", FieldType::Array)
            .fields(vec![
                FieldDefinition::builder("slots", FieldType::Array)
                    .fields(vec![starts()])
                    .build(),
                FieldDefinition::builder("content", FieldType::Blocks)
                    .blocks(vec![BlockDefinition::new("event", vec![starts()])])
                    .build(),
            ])
            .build(),
    ];
    convert_nested_values(&conn, &registry_of(def)).unwrap();

    assert_eq!(
        stored_json(&conn, "SELECT slots FROM posts_items WHERE id = 'r1'")[0]["starts"],
        UTC
    );
    assert_eq!(
        stored_json(&conn, "SELECT content FROM posts_items WHERE id = 'r1'")[0]["starts"],
        UTC
    );
}

/// A global's join table (`_global_{slug}_{field}`) is converted.
#[test]
fn converts_a_global_join_table() {
    let conn = conn_with(
        "CREATE TABLE _global_site (id TEXT PRIMARY KEY);
         CREATE TABLE _global_site_items (id TEXT PRIMARY KEY, parent_id TEXT, _order INTEGER, meta TEXT);",
    );
    conn.0.raw
        .execute(
            "INSERT INTO _global_site_items VALUES ('r1', 'default', 0, ?1)",
            [&local_meta()],
        )
        .unwrap();

    let mut def = GlobalDefinition::new("site");
    def.fields = vec![items_with_meta()];
    let mut registry = Registry::new();
    registry.register_global(def);

    convert_nested_values(&conn, &registry).unwrap();

    assert_eq!(
        stored_starts(&conn, "SELECT meta FROM _global_site_items WHERE id = 'r1'"),
        UTC
    );
}

/// An array inside a group owns a join table keyed with the group prefix
/// (`posts_grp__items`), which is converted.
#[test]
fn converts_a_group_prefixed_join_table() {
    let conn = conn_with(
        "CREATE TABLE posts (id TEXT PRIMARY KEY);
         CREATE TABLE posts_grp__items (id TEXT PRIMARY KEY, parent_id TEXT, _order INTEGER, meta TEXT);",
    );
    conn.0.raw
        .execute(
            "INSERT INTO posts_grp__items VALUES ('r1', 'p1', 0, ?1)",
            [&local_meta()],
        )
        .unwrap();

    let mut def = CollectionDefinition::new("posts");
    def.fields = vec![
        FieldDefinition::builder("grp", FieldType::Group)
            .fields(vec![items_with_meta()])
            .build(),
    ];
    convert_nested_values(&conn, &registry_of(def)).unwrap();

    assert_eq!(
        stored_starts(&conn, "SELECT meta FROM posts_grp__items WHERE id = 'r1'"),
        UTC
    );
}

/// Tables with more rows than a page are converted to their last row, the
/// array and the blocks table alike.
#[test]
fn converts_every_row_past_the_first_page() {
    let conn = conn_with(
        "CREATE TABLE posts (id TEXT PRIMARY KEY);
         CREATE TABLE posts_items (id TEXT PRIMARY KEY, parent_id TEXT, _order INTEGER, meta TEXT);
         CREATE TABLE posts_content (id TEXT PRIMARY KEY, parent_id TEXT, _order INTEGER, _block_type TEXT, data TEXT);",
    );
    let rows = PAGE_SIZE * 2 + 1;
    let local = local_meta();

    for i in 0..rows {
        let id = format!("r{i:05}");
        conn.0.raw
            .execute(
                "INSERT INTO posts_items VALUES (?1, 'p1', 0, ?2)",
                [&id, &local],
            )
            .unwrap();
        conn.0.raw
            .execute(
                "INSERT INTO posts_content VALUES (?1, 'p1', 0, 'event', ?2)",
                [&id, &local],
            )
            .unwrap();
    }

    let mut def = CollectionDefinition::new("posts");
    def.fields = vec![
        items_with_meta(),
        FieldDefinition::builder("content", FieldType::Blocks)
            .blocks(vec![BlockDefinition::new("event", vec![starts()])])
            .build(),
    ];
    convert_nested_values(&conn, &registry_of(def)).unwrap();

    for sql in [
        "SELECT COUNT(*) FROM posts_items WHERE json_extract(meta, '$.starts') = ?1",
        "SELECT COUNT(*) FROM posts_content WHERE json_extract(data, '$.starts') = ?1",
    ] {
        let count: i64 = conn.0.raw.query_row(sql, [UTC], |r| r.get(0)).unwrap();
        assert_eq!(count, i64::try_from(rows).unwrap(), "{sql}");
    }
}

#[test]
fn removes_the_replaced_conversions_meta_rows() {
    let conn = conn_with("CREATE TABLE posts (id TEXT PRIMARY KEY);");
    conn.0.raw
        .execute_batch(
            "INSERT INTO _crap_meta (key, value) VALUES ('nested_timezone_dates:posts', '1');
             INSERT INTO _crap_meta (key, value) VALUES ('nested_timezone_dates:site', '1');",
        )
        .unwrap();

    let mut def = CollectionDefinition::new("posts");
    def.fields = vec![items_with_meta()];
    let mut site = GlobalDefinition::new("site");
    site.fields = vec![items_with_meta()];
    let mut registry = Registry::new();
    registry.register_collection(def);
    registry.register_global(site);

    convert_nested_values(&conn, &registry).unwrap();

    for key in ["nested_timezone_dates:posts", "nested_timezone_dates:site"] {
        assert_eq!(meta::get(&conn, key).unwrap(), None, "{key}");
    }
}

/// Existing group-in-array-row JSON and blocks `data` are converted once;
/// the mark stops a second pass.
#[test]
fn nested_values_converts_existing_nested_rows_once() {
    let conn = memory_conn();
    conn.0.raw
        .execute_batch(
            "CREATE TABLE posts (id TEXT PRIMARY KEY);
             CREATE TABLE posts_items (id TEXT PRIMARY KEY, parent_id TEXT, _order INTEGER, meta TEXT);
             CREATE TABLE posts_content (id TEXT PRIMARY KEY, parent_id TEXT, _order INTEGER, _block_type TEXT, data TEXT);",
        )
        .unwrap();
    let local =
        local_meta();
    conn.0.raw
        .execute(
            "INSERT INTO posts_items VALUES ('r1', 'p1', 0, ?1)",
            [&local],
        )
        .unwrap();
    conn.0.raw
        .execute(
            "INSERT INTO posts_content VALUES ('b1', 'p1', 0, 'event', ?1)",
            [&local],
        )
        .unwrap();

    let mut def = CollectionDefinition::new("posts");
    def.fields = vec![
        FieldDefinition::builder("items", FieldType::Array)
            .fields(vec![
                FieldDefinition::builder("meta", FieldType::Group)
                    .fields(vec![starts()])
                    .build(),
            ])
            .build(),
        FieldDefinition::builder("content", FieldType::Blocks)
            .blocks(vec![BlockDefinition::new(
                "event",
                vec![
                    starts(),
                    FieldDefinition::builder("featured", FieldType::Checkbox).build(),
                ],
            )])
            .build(),
    ];
    let registry = registry_of(def);

    convert_nested_values(&conn, &registry).unwrap();

    assert_eq!(
        stored_starts(&conn, "SELECT meta FROM posts_items WHERE id = 'r1'"),
        UTC
    );
    assert_eq!(
        stored_starts(&conn, "SELECT data FROM posts_content WHERE id = 'b1'"),
        UTC
    );
    let data: String = conn.0.raw.query_row("SELECT data FROM posts_content WHERE id = 'b1'", [], |r| {
            r.get(0)
        })
        .unwrap();
    assert_eq!(
        serde_json::from_str::<Value>(&data).unwrap()["featured"],
        truth()
    );
    assert_eq!(
        meta::get(&conn, &"nested_values:posts").unwrap().as_deref(),
        Some(MIGRATION_VERSION)
    );

    conn.0.raw
        .execute(
            "UPDATE posts_content SET data = ?1 WHERE id = 'b1'",
            [&local],
        )
        .unwrap();
    convert_nested_values(&conn, &registry).unwrap();

    assert_eq!(
        stored_starts(&conn, "SELECT data FROM posts_content WHERE id = 'b1'"),
        LOCAL,
        "the mark must stop a second pass"
    );
}

/// Existing group-in-array-row JSON and blocks `data` are converted once;
/// the mark stops a second pass.
#[test]
fn nested_timezone_dates_converts_existing_nested_rows_once() {
    let conn = memory_conn();
    conn.0.raw
        .execute_batch(
            "CREATE TABLE posts (id TEXT PRIMARY KEY);
             CREATE TABLE posts_items (id TEXT PRIMARY KEY, parent_id TEXT, _order INTEGER, meta TEXT);
             CREATE TABLE posts_content (id TEXT PRIMARY KEY, parent_id TEXT, _order INTEGER, _block_type TEXT, data TEXT);",
        )
        .unwrap();
    let local = local_meta();
    conn.0.raw
        .execute(
            "INSERT INTO posts_items VALUES ('r1', 'p1', 0, ?1)",
            [&local],
        )
        .unwrap();
    conn.0.raw
        .execute(
            "INSERT INTO posts_content VALUES ('b1', 'p1', 0, 'event', ?1)",
            [&local],
        )
        .unwrap();

    let mut def = CollectionDefinition::new("posts");
    def.fields = vec![
        FieldDefinition::builder("items", FieldType::Array)
            .fields(vec![
                FieldDefinition::builder("meta", FieldType::Group)
                    .fields(vec![starts()])
                    .build(),
            ])
            .build(),
        FieldDefinition::builder("content", FieldType::Blocks)
            .blocks(vec![BlockDefinition::new("event", vec![starts()])])
            .build(),
    ];
    let registry = registry_of(def);

    convert_nested_dates(&conn, &registry).unwrap();

    assert_eq!(
        stored_starts(&conn, "SELECT meta FROM posts_items WHERE id = 'r1'"),
        UTC
    );
    assert_eq!(
        stored_starts(&conn, "SELECT data FROM posts_content WHERE id = 'b1'"),
        UTC
    );
    assert_eq!(
        meta::get(&conn, &"nested_timezone_dates:posts").unwrap().as_deref(),
        Some(MIGRATION_VERSION)
    );

    conn.0.raw
        .execute(
            "UPDATE posts_content SET data = ?1 WHERE id = 'b1'",
            [&local],
        )
        .unwrap();
    convert_nested_dates(&conn, &registry).unwrap();

    assert_eq!(
        stored_starts(&conn, "SELECT data FROM posts_content WHERE id = 'b1'"),
        LOCAL,
        "the mark must stop a second pass"
    );
}

fn created_at(conn: &Conn, table: &str, id: &str) -> String {
    conn.0.raw
        .query_row(
            &format!("SELECT created_at FROM {table} WHERE id = ?1"),
            [id],
            |r| r.get(0),
        )
        .unwrap()
}

/// Legacy values are rewritten in place once; current values and other
/// tables' columns are untouched, and the mark keeps a later run from
/// scanning again.
#[test]
fn legacy_timestamps_are_rewritten_once() {
    let conn = memory_conn();
    conn.0.raw
        .execute_batch(
            "CREATE TABLE posts (id TEXT PRIMARY KEY, created_at TEXT, updated_at TEXT);
             CREATE TABLE _crap_jobs (id TEXT PRIMARY KEY, created_at TEXT, completed_at TEXT);
             INSERT INTO posts VALUES ('old', '2024-01-15 12:30:45', '2024-01-15 12:31:00');
             INSERT INTO posts VALUES ('new', '2024-02-01T08:00:00.123Z', NULL);
             INSERT INTO _crap_jobs VALUES ('j1', '2024-01-15 09:00:00', '2024-01-15 09:00:05');",
        )
        .unwrap();
    let registry = registry_with_posts();

    normalize_if_needed(&conn, &registry).unwrap();

    assert_eq!(
        created_at(&conn, "posts", "old"),
        "2024-01-15T12:30:45.000Z"
    );
    assert_eq!(
        created_at(&conn, "posts", "new"),
        "2024-02-01T08:00:00.123Z"
    );
    assert_eq!(
        created_at(&conn, "_crap_jobs", "j1"),
        "2024-01-15T09:00:00.000Z"
    );
    assert_eq!(
        meta::get(&conn, &"legacy_timestamps:posts").unwrap().as_deref(),
        Some(MIGRATION_VERSION)
    );

    conn.0.raw
        .execute_batch("INSERT INTO posts VALUES ('later', '2024-03-01 00:00:00', NULL);")
        .unwrap();
    normalize_if_needed(&conn, &registry).unwrap();

    assert_eq!(
        created_at(&conn, "posts", "later"),
        "2024-03-01 00:00:00",
        "the mark must stop a second scan"
    );
}

#[test]
fn a_collection_defined_later_is_still_rewritten() {
    let conn = memory_conn();
    conn.0.raw
        .execute_batch(
            "CREATE TABLE posts (id TEXT PRIMARY KEY, created_at TEXT);
             CREATE TABLE pages (id TEXT PRIMARY KEY, created_at TEXT);
             CREATE TABLE _crap_jobs (id TEXT PRIMARY KEY, created_at TEXT);
             INSERT INTO posts VALUES ('p1', '2024-01-15 12:30:45');
             INSERT INTO pages VALUES ('g1', '2024-01-16 08:00:00');",
        )
        .unwrap();

    // `pages` exists in the database but not in the registry — its Lua
    // definition is added after the first boot.
    normalize_if_needed(&conn, &registry_with(&["posts"])).unwrap();

    assert_eq!(created_at(&conn, "posts", "p1"), "2024-01-15T12:30:45.000Z");
    assert_eq!(created_at(&conn, "pages", "g1"), "2024-01-16 08:00:00");

    normalize_if_needed(&conn, &registry_with(&["posts", "pages"])).unwrap();

    assert_eq!(
        created_at(&conn, "pages", "g1"),
        "2024-01-16T08:00:00.000Z",
        "a collection defined after the first boot must still be rewritten"
    );
}

#[test]
fn removes_the_replaced_passs_gate() {
    let conn = memory_conn();
    conn.0.raw
        .execute_batch(
            "CREATE TABLE _crap_jobs (id TEXT PRIMARY KEY, created_at TEXT);
             INSERT INTO _crap_meta (key, value) VALUES ('legacy_timestamps_normalized', '1');",
        )
        .unwrap();

    normalize_if_needed(&conn, &registry_with(&[])).unwrap();

    assert_eq!(meta::get(&conn, RETIRED_META_KEY).unwrap(), None);
}