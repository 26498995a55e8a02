#![allow(dead_code, unused_imports)]

use cms_db::definition::{
    BlockDefinition, CollectionDefinition, FieldDefinition, FieldTab, FieldType, GlobalDefinition,
    LocaleConfig, Registry, RelationshipConfig, VersionsConfig,
};
use cms_db::migrate::helpers::column_specs::collect_column_specs;
use cms_db::migrate::helpers::versions::sync_versions_table as sync_versions_of;
use cms_db::migrate::join_tables::orchestrator::sync_join_tables as sync_join_tables_of;
use cms_db::pool::DbPool;
use cms_db::session::{Dialect, Reply, Request, Session};
use cms_db::value::{DbError, DbRow, DbValue};
use std::cell::RefCell;
use std::collections::HashSet;
use std::rc::Rc;
use cms_db::migrate::helpers::alter::is_system_column;
use cms_db::migrate::helpers::gate::{field_paths, holds_leaf, versioned_fingerprint};
use cms_db::migrate::helpers::introspection::{ConstraintKind, TableConstraint};
use cms_db::migrate::helpers::paged::{PAGE_SIZE, Scan, first_page, next_page};
use cms_db::migrate::join_tables::junction_shape::{JunctionShape, reconcile_junction_shape};

/// A SQLite database in memory, and what it takes to answer requests over it.
struct Db {
    raw: rusqlite::Connection,
    warnings: RefCell<Vec<String>>,
}

/// A connection to such a database.
#[derive(Clone)]
struct Conn(Rc<Db>);

/// Where such connections come from.
struct Pool(Conn);

/// The definitions a run is about, where it needs them.
struct World<'a> {
    registry: Option<&'a Registry>,
    config: LocaleConfig,
}

impl Pool {
    fn get(&self) -> Result<Conn, DbError> {
        Ok(self.0.clone())
    }
}

fn in_memory_pool() -> ((), Pool) {
    let raw = rusqlite::Connection::open_in_memory().unwrap();
    raw.execute_batch("PRAGMA foreign_keys = ON;").unwrap();
    raw.execute_batch(
        "CREATE TABLE _crap_meta (key TEXT PRIMARY KEY, value TEXT NOT NULL, updated_at TEXT)",
    )
    .unwrap();
    let db = Db { raw, warnings: RefCell::new(Vec::new()) };
    ((), Pool(Conn(Rc::new(db))))
}

fn to_sqlite(value: &DbValue) -> rusqlite::types::Value {
    match value {
        DbValue::Null => rusqlite::types::Value::Null,
        DbValue::Integer(n) => rusqlite::types::Value::Integer(*n),
        DbValue::Real(bits) => rusqlite::types::Value::Real(f64::from_bits(*bits)),
        DbValue::Text(s) => rusqlite::types::Value::Text(s.clone()),
        DbValue::Blob(b) => rusqlite::types::Value::Blob(b.clone()),
    }
}

fn from_sqlite(value: rusqlite::types::Value) -> DbValue {
    match value {
        rusqlite::types::Value::Null => DbValue::Null,
        rusqlite::types::Value::Integer(n) => DbValue::Integer(n),
        rusqlite::types::Value::Real(f) => DbValue::Real(f.to_bits()),
        rusqlite::types::Value::Text(s) => DbValue::Text(s),
        rusqlite::types::Value::Blob(b) => DbValue::Blob(b),
    }
}

impl Conn {
    fn rows(&self, sql: &str, params: &[DbValue]) -> rusqlite::Result<Vec<DbRow>> {
        let mut statement = self.0.raw.prepare(sql)?;
        let columns: Vec<String> = statement.column_names().iter().map(|c| c.to_string()).collect();
        let width = columns.len();
        let mut rows = statement.query(rusqlite::params_from_iter(params.iter().map(to_sqlite)))?;
        let mut found = Vec::new();
        while let Some(row) = rows.next()? {
            let mut values = Vec::new();
            for i in 0..width {
                values.push(from_sqlite(row.get::<usize, rusqlite::types::Value>(i)?));
            }
            found.push(DbRow::new(columns.clone(), values));
        }
        Ok(found)
    }

    fn query_all(&self, sql: &str, params: &[DbValue]) -> Result<Vec<DbRow>, DbError> {
        self.rows(sql, params).map_err(|e| DbError::Backend(e.to_string()))
    }

    fn query_one(&self, sql: &str, params: &[DbValue]) -> Result<Option<DbRow>, DbError> {
        Ok(self.query_all(sql, params)?.into_iter().next())
    }

    fn execute(&self, sql: &str, params: &[DbValue]) -> Result<usize, DbError> {
        self.0
            .raw
            .execute(sql, rusqlite::params_from_iter(params.iter().map(to_sqlite)))
            .map_err(|e| DbError::Backend(e.to_string()))
    }

    fn execute_batch(&self, sql: &str) -> Result<(), DbError> {
        self.0.raw.execute_batch(sql).map_err(|e| DbError::Backend(e.to_string()))
    }

    fn execute_ddl(&self, sql: &str, params: &[DbValue]) -> Result<usize, DbError> {
        self.execute(sql, params)
    }

    fn index_names(&self, table: &str, prefix: &str) -> Result<Vec<String>, DbError> {
        self.run(|s| cms_db::migrate::helpers::introspection::index_names(s, table, prefix))
    }

    /// Runs an operation that needs no definitions.
    fn run<T>(&self, operation: impl FnMut(&mut Session) -> Result<T, DbError>) -> Result<T, DbError> {
        let world = World { registry: None, config: LocaleConfig::disabled() };
        self.run_in(&world, operation)
    }

    /// Runs an operation over and over, answering one more request each time.
    fn run_in<T>(
        &self,
        world: &World,
        mut operation: impl FnMut(&mut Session) -> Result<T, DbError>,
    ) -> Result<T, DbError> {
        let mut session = Session::new(Dialect::Sqlite);
        loop {
            session.rewind();
            let result = operation(&mut session);
            let reply = match session.pending() {
                None => {
                    self.0.warnings.borrow_mut().extend(session.warnings().iter().cloned());
                    return result;
                }
                Some(request) => self.perform(world, request),
            };
            session.answer(reply);
        }
    }

    fn texts(&self, sql: &str, params: &[DbValue]) -> Result<Vec<String>, DbError> {
        Ok(self.query_all(sql, params)?.iter().filter_map(|r| r.text_at(0)).collect())
    }

    fn perform(&self, world: &World, request: &Request) -> Reply {
        match self.answer(world, request) {
            Ok(reply) => reply,
            Err(e) => Reply::Failed(e.message()),
        }
    }

    fn answer(&self, world: &World, request: &Request) -> Result<Reply, DbError> {
        Ok(match request {
            Request::QueryAll { sql, params } => Reply::Rows(self.query_all(sql, params)?),
            Request::QueryOne { sql, params } => Reply::Row(self.query_one(sql, params)?),
            Request::Execute { sql, params } => Reply::Count(self.execute(sql, params)? as u64),
            Request::ExecuteMany { sql, rows } => {
                let mut count = 0;
                for params in rows {
                    count += self.execute(sql, params)? as u64;
                }
                Reply::Count(count)
            }
            Request::ExecuteBatch { sql } => {
                self.execute_batch(sql)?;
                Reply::Done
            }
            Request::TableExists { table } => Reply::Flag(
                !self
                    .query_all(
                        "SELECT 1 FROM sqlite_master WHERE type = 'table' AND name = ?1",
                        &[DbValue::Text(table.clone())],
                    )?
                    .is_empty(),
            ),
            Request::TableColumns { table } => Reply::Names(self.texts(
                "SELECT name FROM pragma_table_info(?1)",
                &[DbValue::Text(table.clone())],
            )?),
            Request::TableColumnTypes { table } => Reply::Types(
                self.query_all(
                    "SELECT name, type FROM pragma_table_info(?1)",
                    &[DbValue::Text(table.clone())],
                )?
                .iter()
                .map(|r| (r.text_at(0).unwrap(), r.text_at(1).unwrap()))
                .collect(),
            ),
            Request::IndexNames { table, prefix } => Reply::Names(
                self.texts(
                    "SELECT name FROM sqlite_master WHERE type = 'index' AND tbl_name = ?1",
                    &[DbValue::Text(table.clone())],
                )?
                .into_iter()
                .filter(|n| n.starts_with(prefix.as_str()))
                .collect(),
            ),
            Request::ListUserTables => Reply::Names(self.texts(
                "SELECT name FROM sqlite_master WHERE type = 'table' AND name NOT LIKE 'sqlite_%'",
                &[],
            )?),
            Request::HeldLocales { table } => Reply::Names(
                self.texts(&format!("SELECT DISTINCT _locale FROM \"{table}\""), &[])?,
            ),
            Request::DeleteRowsOutsideLocales { table, locales } => {
                let marks: Vec<String> = (1..=locales.len()).map(|i| format!("?{i}")).collect();
                let params: Vec<DbValue> =
                    locales.iter().map(|l| DbValue::Text(l.clone())).collect();
                let sql =
                    format!("DELETE FROM \"{table}\" WHERE _locale NOT IN ({})", marks.join(", "));
                Reply::Count(self.execute(&sql, &params)? as u64)
            }
            Request::Begin => {
                self.execute_batch("BEGIN IMMEDIATE")?;
                Reply::Done
            }
            Request::Commit => {
                self.execute_batch("COMMIT")?;
                Reply::Done
            }
            Request::Rollback => {
                self.execute_batch("ROLLBACK")?;
                Reply::Done
            }
            Request::BackfillRefCounts => {
                self.count_references(world)?;
                Reply::Done
            }
            Request::NeedsRebuild { .. } => Reply::Flag(false),
            Request::SyncCollection { slug } => {
                let registry = world.registry.unwrap();
                let def = registry.collections.iter().find(|d| d.slug == *slug).unwrap();
                self.sync_collection_table(world, slug, def)?;
                Reply::Done
            }
            Request::SyncGlobal { slug } => {
                let registry = world.registry.unwrap();
                let def = registry.globals.iter().find(|d| d.slug == *slug).unwrap();
                let table = cms_db::names::global_table(slug);
                if !table_exists(self, &table)? {
                    create_parent_table(self, &table, &def.fields, &world.config)?;
                }
                self.run(|s| sync_join_tables_of(s, &table, &def.fields, &world.config))?;
                Reply::Done
            }
            Request::EnqueueImageConversions { job: name, queue, jobs, .. } => {
                for (i, job) in jobs.iter().enumerate() {
                    self.execute(
                        "INSERT INTO _crap_jobs (id, slug, queue, data) VALUES (?1, ?2, ?3, ?4)",
                        &[
                            DbValue::Text(format!("image{i}")),
                            DbValue::Text(name.clone()),
                            DbValue::Text(queue.clone()),
                            DbValue::Text(format!("{}:{}", job.source_path, job.quality)),
                        ],
                    )?;
                }
                Reply::Done
            }
            Request::SearchIndexShape { slug } => {
                let names = searched(world, slug);
                Reply::IndexShape { fingerprint: names.join(","), indexed: !names.is_empty() }
            }
            Request::SearchIndexExists { slug } => {
                Reply::Flag(table_exists(self, &format!("_fts_{slug}"))?)
            }
            Request::SyncSearchIndex { slug } => {
                self.execute_batch(&format!("DROP TABLE IF EXISTS \"_fts_{slug}\""))?;
                let names = searched(world, slug);
                if !names.is_empty() {
                    self.execute_batch(&format!(
                        "CREATE TABLE \"_fts_{slug}\" AS SELECT id, {} FROM \"{slug}\"",
                        names.join(", ")
                    ))?;
                }
                Reply::Done
            }
            Request::StoreNestedValues { values, .. } => Reply::Names(
                values
                    .iter()
                    .map(|v| in_utc(v).replace("\"featured\":\"on\"", "\"featured\":true"))
                    .collect(),
            ),
            Request::ConvertTimezoneDates { values, .. } => {
                Reply::Names(values.iter().map(|v| in_utc(v)).collect())
            }
            _ => Reply::Done,
        })
    }

    /// Counts how often each document is referred to.
    fn count_references(&self, world: &World) -> Result<(), DbError> {
        let registry = world.registry.unwrap();
        for target in &registry.collections {
            let mut counts = Vec::new();
            for def in &registry.collections {
                for field in &def.fields {
                    let rc = match &field.relationship {
                        Some(rc) if rc.collection == target.slug => rc,
                        _ => continue,
                    };
                    let own = get_table_columns(self, &def.slug)?;
                    let (table, column) = if rc.has_many {
                        (format!("{}_{}", def.slug, field.name), "related_id")
                    } else if own.contains(&field.name) {
                        (def.slug.clone(), field.name.as_str())
                    } else {
                        continue;
                    };
                    counts.push(format!(
                        "(SELECT COUNT(*) FROM \"{table}\" j WHERE j.\"{column}\" = \"{}\".id)",
                        target.slug
                    ));
                }
            }
            if !counts.is_empty() {
                self.execute_batch(&format!(
                    "UPDATE \"{}\" SET _ref_count = {}",
                    target.slug,
                    counts.join(" + ")
                ))?;
            }
        }
        Ok(())
    }

    /// Creates a collection's own table where there is none, and syncs what
    /// belongs to it.
    fn sync_collection_table(
        &self,
        world: &World,
        slug: &str,
        def: &CollectionDefinition,
    ) -> Result<(), DbError> {
        if !table_exists(self, slug)? {
            create_parent_table(self, slug, &def.fields, &world.config)?;
        } else {
            let existing = get_table_columns(self, slug)?;
            for (name, kind) in parent_columns(&def.fields, &world.config)? {
                if !existing.contains(&name) {
                    self.execute_batch(&format!(
                        "ALTER TABLE \"{slug}\" ADD COLUMN \"{name}\" {kind}"
                    ))?;
                }
            }
        }
        self.run(|s| sync_join_tables_of(s, slug, &def.fields, &world.config))?;
        if def.versions.is_some() {
            self.run(|s| sync_versions_of(s, slug))?;
        }
        Ok(())
    }
}

/// The names of a collection's text fields.
fn searched(world: &World, slug: &str) -> Vec<String> {
    let registry = world.registry.unwrap();
    let def = registry.collections.iter().find(|d| d.slug == *slug).unwrap();
    def.fields
        .iter()
        .filter(|f| f.field_type == FieldType::Text)
        .map(|f| f.name.clone())
        .collect()
}

/// Nine in the morning in Berlin in January, as stored.
fn in_utc(value: &str) -> String {
    value.replace("\"2024-01-15T09:00\"", "\"2024-01-15T08:00:00.000Z\"")
}

/// The columns of the table a collection's or global's own values are kept in.
fn parent_columns(
    fields: &Vec<FieldDefinition>,
    config: &LocaleConfig,
) -> Result<Vec<(String, String)>, DbError> {
    let mut columns = Vec::new();
    for spec in collect_column_specs(fields, config) {
        let names = if spec.is_localized {
            config
                .locales
                .iter()
                .map(|l| cms_db::names::locale_column(&spec.col_name, l))
                .collect::<Result<Vec<String>, DbError>>()?
        } else {
            vec![spec.col_name.clone()]
        };
        for name in names {
            columns.push((name, spec.ddl_type(Dialect::Sqlite).to_string()));
        }
    }
    Ok(columns)
}

/// Creates the table a collection's or global's own values are kept in.
fn create_parent_table(
    conn: &Conn,
    table: &str,
    fields: &Vec<FieldDefinition>,
    config: &LocaleConfig,
) -> Result<(), DbError> {
    let mut columns = vec!["id TEXT PRIMARY KEY".to_string()];
    for (name, kind) in parent_columns(fields, config)? {
        columns.push(format!("\"{name}\" {kind}"));
    }
    columns.push("_ref_count INTEGER DEFAULT 0".to_string());
    columns.push("created_at TEXT".to_string());
    columns.push("updated_at TEXT".to_string());
    conn.execute_batch(&format!("CREATE TABLE \"{table}\" ({})", columns.join(", ")))
}

fn create_collection_table(
    conn: &Conn,
    slug: &str,
    def: &CollectionDefinition,
    config: &LocaleConfig,
) -> Result<(), DbError> {
    create_parent_table(conn, slug, &def.fields, config)
}

/// Sets the parts of a field one after another.
struct FieldBuilder(FieldDefinition);

impl FieldBuilder {
    fn localized(mut self, localized: bool) -> Self {
        self.0.localized = localized;
        self
    }

    fn has_many(mut self, has_many: bool) -> Self {
        self.0.has_many = has_many;
        self
    }

    fn timezone(mut self, timezone: bool) -> Self {
        self.0.timezone = timezone;
        self
    }

    fn languages(mut self, languages: Vec<String>) -> Self {
        self.0.languages = languages;
        self
    }

    fn relationship(mut self, relationship: RelationshipConfig) -> Self {
        self.0.relationship = Some(relationship);
        self
    }

    fn fields(mut self, fields: Vec<FieldDefinition>) -> Self {
        self.0.fields = fields;
        self
    }

    fn tabs(mut self, tabs: Vec<FieldTab>) -> Self {
        self.0.tabs = tabs;
        self
    }

    fn blocks(mut self, blocks: Vec<BlockDefinition>) -> Self {
        self.0.blocks = blocks;
        self
    }

    fn build(self) -> FieldDefinition {
        self.0
    }
}

trait Build {
    fn builder(name: &str, field_type: FieldType) -> FieldBuilder;
}

impl Build for FieldDefinition {
    fn builder(name: &str, field_type: FieldType) -> FieldBuilder {
        FieldBuilder(FieldDefinition::new(name, field_type))
    }
}

fn no_locale() -> LocaleConfig {
    LocaleConfig::disabled()
}

fn locale_en_de() -> LocaleConfig {
    LocaleConfig {
        default_locale: "en".to_string(),
        locales: vec!["en".to_string(), "de".to_string()],
        fallback: true,
    }
}

fn simple_collection(slug: &str, fields: Vec<FieldDefinition>) -> CollectionDefinition {
    let mut def = CollectionDefinition::new(slug);
    def.fields = fields;
    def
}

fn text_field(name: &str) -> FieldDefinition {
    FieldDefinition::builder(name, FieldType::Text).build()
}

fn table_exists(conn: &Conn, name: &str) -> Result<bool, DbError> {
    conn.run(|s| cms_db::migrate::helpers::introspection::table_exists(s, name))
}

fn get_table_columns(conn: &Conn, table: &str) -> Result<HashSet<String>, DbError> {
    let columns =
        conn.run(|s| cms_db::migrate::helpers::introspection::get_table_columns(s, table))?;
    Ok(columns.into_iter().collect())
}

fn sync_join_tables(
    conn: &Conn,
    slug: &str,
    fields: &Vec<FieldDefinition>,
    config: &LocaleConfig,
) -> Result<(), DbError> {
    conn.run(|s| sync_join_tables_of(s, slug, fields, config))
}

fn memory_conn() -> Conn {
    in_memory_pool().1.get().unwrap()
}

fn ensure_locale_column(conn: &Conn, table: &str, default_locale: &str) -> Result<(), DbError> {
    conn.run(|s| {
        cms_db::migrate::helpers::column_specs::ensure_locale_column(s, table, default_locale)
    })
}

fn sync_versions_table(conn: &Conn, slug: &str) -> Result<(), DbError> {
    conn.run(|s| sync_versions_of(s, slug))
}

fn table_constraints(
    conn: &Conn,
    table: &str,
    kind: ConstraintKind,
) -> Result<Vec<TableConstraint>, DbError> {
    conn.run(|s| cms_db::migrate::helpers::introspection::table_constraints(s, table, kind))
}

/// Rebuilds a junction that becomes polymorphic.
fn rebuild_junction_table_for_polymorphic(
    conn: &Conn,
    table: &str,
    slug: &str,
    localized: bool,
) -> Result<(), DbError> {
    let locale = if localized { Some("en".to_string()) } else { None };
    let shape = JunctionShape::new(true, locale);
    conn.run(|s| reconcile_junction_shape(s, table, slug, &shape))
}

#[test]
fn helpers_table_exists_false_initially() {
    let (_dir, pool) = in_memory_pool();
    let conn = pool.get().unwrap();
    assert!(!table_exists(&conn, "nonexistent").unwrap());
}

#[test]
fn helpers_table_exists_true_after_create() {
    let (_dir, pool) = in_memory_pool();
    let conn = pool.get().unwrap();
    conn.execute("CREATE TABLE test_table (id TEXT PRIMARY KEY)", &[])
        .unwrap();
    assert!(table_exists(&conn, "test_table").unwrap());
}

#[test]
fn helpers_get_table_columns_returns_column_names() {
    let (_dir, pool) = in_memory_pool();
    let conn = pool.get().unwrap();
    conn.execute("CREATE TABLE t (id TEXT, name TEXT, age INTEGER)", &[])
        .unwrap();
    let cols = get_table_columns(&conn, "t").unwrap();
    assert!(cols.contains("id"));
    assert!(cols.contains("name"));
    assert!(cols.contains("age"));
    assert_eq!(cols.len(), 3);
}

#[test]
fn helpers_has_many_relationship_creates_junction_table() {
    let (_dir, pool) = in_memory_pool();
    let conn = pool.get().unwrap();
    let def = simple_collection(
        "posts",
        vec![
            FieldDefinition::builder("tags", FieldType::Relationship)
                .relationship(RelationshipConfig::new("tags", true))
                .build(),
        ],
    );
    // Need parent table first for FK
    create_collection_table(&conn, "posts", &def, &no_locale())
        .unwrap();
    sync_join_tables(&conn, "posts", &def.fields, &no_locale()).unwrap();

    assert!(table_exists(&conn, "posts_tags").unwrap());
    let cols = get_table_columns(&conn, "posts_tags").unwrap();
    assert!(cols.contains("parent_id"));
    assert!(cols.contains("related_id"));
    assert!(cols.contains("_order"));
}

#[test]
fn helpers_array_field_creates_join_table() {
    let (_dir, pool) = in_memory_pool();
    let conn = pool.get().unwrap();
    let def = simple_collection(
        "posts",
        vec![
            FieldDefinition::builder("items", FieldType::Array)
                .fields(vec![text_field("name")])
                .build(),
        ],
    );
    create_collection_table(&conn, "posts", &def, &no_locale())
        .unwrap();
    sync_join_tables(&conn, "posts", &def.fields, &no_locale()).unwrap();

    assert!(table_exists(&conn, "posts_items").unwrap());
    let cols = get_table_columns(&conn, "posts_items").unwrap();
    assert!(cols.contains("id"));
    assert!(cols.contains("parent_id"));
    assert!(cols.contains("_order"));
    assert!(cols.contains("name"));
}

#[test]
fn helpers_blocks_field_creates_join_table() {
    let (_dir, pool) = in_memory_pool();
    let conn = pool.get().unwrap();
    let def = simple_collection(
        "posts",
        vec![FieldDefinition::builder("content", FieldType::Blocks).build()],
    );
    create_collection_table(&conn, "posts", &def, &no_locale())
        .unwrap();
    sync_join_tables(&conn, "posts", &def.fields, &no_locale()).unwrap();

    assert!(table_exists(&conn, "posts_content").unwrap());
    let cols = get_table_columns(&conn, "posts_content").unwrap();
    assert!(cols.contains("id"));
    assert!(cols.contains("parent_id"));
    assert!(cols.contains("_block_type"));
    assert!(cols.contains("data"));
}

#[test]
fn helpers_blocks_inside_tabs_creates_join_table() {
    let (_dir, pool) = in_memory_pool();
    let conn = pool.get().unwrap();

    let blocks_field = FieldDefinition::builder("content", FieldType::Blocks).build();
    let tabs_field = FieldDefinition::builder("page_settings", FieldType::Tabs)
        .tabs(vec![FieldTab::new("Content", vec![blocks_field])])
        .build();
    let def = simple_collection(
        "posts",
        vec![
            FieldDefinition::builder("title", FieldType::Text).build(),
            tabs_field,
        ],
    );
    create_collection_table(&conn, "posts", &def, &no_locale())
        .unwrap();
    sync_join_tables(&conn, "posts", &def.fields, &no_locale()).unwrap();

    assert!(
        table_exists(&conn, "posts_content").unwrap(),
        "blocks table inside Tabs must be created"
    );
    let cols = get_table_columns(&conn, "posts_content").unwrap();
    assert!(cols.contains("_block_type"));
    assert!(cols.contains("data"));
}

#[test]
fn helpers_array_inside_row_creates_join_table() {
    let (_dir, pool) = in_memory_pool();
    let conn = pool.get().unwrap();

    let array_field = FieldDefinition::builder("items", FieldType::Array)
        .fields(vec![text_field("label"), text_field("value")])
        .build();
    let row_field = FieldDefinition::builder("main_row", FieldType::Row)
        .fields(vec![array_field])
        .build();
    let def = simple_collection("posts", vec![text_field("title"), row_field]);
    create_collection_table(&conn, "posts", &def, &no_locale())
        .unwrap();
    sync_join_tables(&conn, "posts", &def.fields, &no_locale()).unwrap();

    assert!(
        table_exists(&conn, "posts_items").unwrap(),
        "array table inside Row must be created"
    );
    let cols = get_table_columns(&conn, "posts_items").unwrap();
    assert!(cols.contains("parent_id"));
    assert!(cols.contains("label"));
    assert!(cols.contains("value"));
}

#[test]
fn helpers_blocks_inside_collapsible_creates_join_table() {
    let (_dir, pool) = in_memory_pool();
    let conn = pool.get().unwrap();

    let blocks_field = FieldDefinition::builder("content", FieldType::Blocks).build();
    let collapsible_field = FieldDefinition::builder("advanced", FieldType::Collapsible)
        .fields(vec![blocks_field])
        .build();
    let def = simple_collection("posts", vec![text_field("title"), collapsible_field]);
    create_collection_table(&conn, "posts", &def, &no_locale())
        .unwrap();
    sync_join_tables(&conn, "posts", &def.fields, &no_locale()).unwrap();

    assert!(
        table_exists(&conn, "posts_content").unwrap(),
        "blocks table inside Collapsible must be created"
    );
    let cols = get_table_columns(&conn, "posts_content").unwrap();
    assert!(cols.contains("_block_type"));
    assert!(cols.contains("data"));
}

#[test]
fn helpers_localized_has_many_creates_junction_with_locale() {
    let (_dir, pool) = in_memory_pool();
    let conn = pool.get().unwrap();
    let def = simple_collection(
        "posts",
        vec![
            FieldDefinition::builder("tags", FieldType::Relationship)
                .localized(true)
                .relationship(RelationshipConfig::new("tags", true))
                .build(),
        ],
    );
    create_collection_table(&conn, "posts", &def, &locale_en_de())
        .unwrap();
    sync_join_tables(&conn, "posts", &def.fields, &locale_en_de()).unwrap();

    assert!(table_exists(&conn, "posts_tags").unwrap());
    let cols = get_table_columns(&conn, "posts_tags").unwrap();
    assert!(
        cols.contains("_locale"),
        "Localized junction table should have _locale column"
    );
}

#[test]
fn helpers_localized_array_creates_table_with_locale() {
    let (_dir, pool) = in_memory_pool();
    let conn = pool.get().unwrap();
    let def = simple_collection(
        "posts",
        vec![
            FieldDefinition::builder("items", FieldType::Array)
                .localized(true)
                .fields(vec![text_field("label")])
                .build(),
        ],
    );
    create_collection_table(&conn, "posts", &def, &locale_en_de())
        .unwrap();
    sync_join_tables(&conn, "posts", &def.fields, &locale_en_de()).unwrap();

    assert!(table_exists(&conn, "posts_items").unwrap());
    let cols = get_table_columns(&conn, "posts_items").unwrap();
    assert!(cols.contains("_locale"));
}

#[test]
fn helpers_localized_blocks_creates_table_with_locale() {
    let (_dir, pool) = in_memory_pool();
    let conn = pool.get().unwrap();
    let def = simple_collection(
        "posts",
        vec![
            FieldDefinition::builder("content", FieldType::Blocks)
                .localized(true)
                .build(),
        ],
    );
    create_collection_table(&conn, "posts", &def, &locale_en_de())
        .unwrap();
    sync_join_tables(&conn, "posts", &def.fields, &locale_en_de()).unwrap();

    assert!(table_exists(&conn, "posts_content").unwrap());
    let cols = get_table_columns(&conn, "posts_content").unwrap();
    assert!(cols.contains("_locale"));
}

#[test]
fn helpers_ensure_locale_column_adds_to_existing() {
    let (_dir, pool) = in_memory_pool();
    let conn = pool.get().unwrap();
    conn.execute(
        "CREATE TABLE test_join (parent_id TEXT, related_id TEXT)",
        &[],
    )
    .unwrap();

    ensure_locale_column(&conn, "test_join", "en").unwrap();

    let cols = get_table_columns(&conn, "test_join").unwrap();
    assert!(cols.contains("_locale"));

    // Calling again should be a no-op (idempotent)
    ensure_locale_column(&conn, "test_join", "en").unwrap();
}

#[test]
fn helpers_existing_has_many_adds_locale_column() {
    let (_dir, pool) = in_memory_pool();
    let conn = pool.get().unwrap();
    // Create parent and junction table without _locale
    conn.execute("CREATE TABLE posts (id TEXT PRIMARY KEY)", &[])
        .unwrap();
    conn.execute(
        "CREATE TABLE posts_tags (parent_id TEXT, related_id TEXT, _order INTEGER)",
        &[],
    )
    .unwrap();

    let def = simple_collection(
        "posts",
        vec![
            FieldDefinition::builder("tags", FieldType::Relationship)
                .localized(true)
                .relationship(RelationshipConfig::new("tags", true))
                .build(),
        ],
    );
    sync_join_tables(&conn, "posts", &def.fields, &locale_en_de()).unwrap();

    let cols = get_table_columns(&conn, "posts_tags").unwrap();
    assert!(cols.contains("_locale"));
}

#[test]
fn helpers_existing_array_adds_new_subfield_columns() {
    let (_dir, pool) = in_memory_pool();
    let conn = pool.get().unwrap();
    conn.execute("CREATE TABLE posts (id TEXT PRIMARY KEY)", &[])
        .unwrap();
    conn.execute("CREATE TABLE posts_items (id TEXT PRIMARY KEY, parent_id TEXT, _order INTEGER, label TEXT)", &[]).unwrap();

    let def = simple_collection(
        "posts",
        vec![
            FieldDefinition::builder("items", FieldType::Array)
                .fields(vec![text_field("label"), text_field("value")])
                .build(),
        ],
    );
    sync_join_tables(&conn, "posts", &def.fields, &no_locale()).unwrap();

    let cols = get_table_columns(&conn, "posts_items").unwrap();
    assert!(
        cols.contains("value"),
        "New sub-field column should be added"
    );
}

#[test]
fn helpers_existing_blocks_adds_locale_column() {
    let (_dir, pool) = in_memory_pool();
    let conn = pool.get().unwrap();
    conn.execute("CREATE TABLE posts (id TEXT PRIMARY KEY)", &[])
        .unwrap();
    conn.execute(
        "CREATE TABLE posts_content (id TEXT PRIMARY KEY, parent_id TEXT, _order INTEGER, _block_type TEXT, data TEXT)",
        &[],
    ).unwrap();

    let def = simple_collection(
        "posts",
        vec![
            FieldDefinition::builder("content", FieldType::Blocks)
                .localized(true)
                .build(),
        ],
    );
    sync_join_tables(&conn, "posts", &def.fields, &locale_en_de()).unwrap();

    let cols = get_table_columns(&conn, "posts_content").unwrap();
    assert!(cols.contains("_locale"));
}

#[test]
fn helpers_existing_array_adds_locale_column() {
    let (_dir, pool) = in_memory_pool();
    let conn = pool.get().unwrap();
    conn.execute("CREATE TABLE posts (id TEXT PRIMARY KEY)", &[])
        .unwrap();
    conn.execute("CREATE TABLE posts_items (id TEXT PRIMARY KEY, parent_id TEXT, _order INTEGER, label TEXT)", &[]).unwrap();

    let def = simple_collection(
        "posts",
        vec![
            FieldDefinition::builder("items", FieldType::Array)
                .localized(true)
                .fields(vec![text_field("label")])
                .build(),
        ],
    );
    sync_join_tables(&conn, "posts", &def.fields, &locale_en_de()).unwrap();

    let cols = get_table_columns(&conn, "posts_items").unwrap();
    assert!(cols.contains("_locale"));
}

#[test]
fn column_specs_group_containing_row() {
    let fields = vec![
        FieldDefinition::builder("meta", FieldType::Group)
            .fields(vec![
                FieldDefinition::builder("r", FieldType::Row)
                    .fields(vec![text_field("title"), text_field("slug")])
                    .build(),
            ])
            .build(),
    ];
    let specs = collect_column_specs(&fields, &no_locale());
    let names: Vec<&str> = specs.iter().map(|s| s.col_name.as_str()).collect();
    assert!(names.contains(&"meta__title"), "Group→Row: meta__title");
    assert!(names.contains(&"meta__slug"), "Group→Row: meta__slug");
}

#[test]
fn column_specs_group_containing_tabs() {
    let fields = vec![
        FieldDefinition::builder("settings", FieldType::Group)
            .fields(vec![
                FieldDefinition::builder("t", FieldType::Tabs)
                    .tabs(vec![
                        FieldTab::new("General", vec![text_field("theme")]),
                        FieldTab::new("Advanced", vec![text_field("cache_ttl")]),
                    ])
                    .build(),
            ])
            .build(),
    ];
    let specs = collect_column_specs(&fields, &no_locale());
    let names: Vec<&str> = specs.iter().map(|s| s.col_name.as_str()).collect();
    assert!(
        names.contains(&"settings__theme"),
        "Group→Tabs: settings__theme"
    );
    assert!(
        names.contains(&"settings__cache_ttl"),
        "Group→Tabs: settings__cache_ttl"
    );
}

#[test]
fn column_specs_group_tabs_group_three_levels() {
    let fields = vec![
        FieldDefinition::builder("outer", FieldType::Group)
            .fields(vec![
                FieldDefinition::builder("t", FieldType::Tabs)
                    .tabs(vec![FieldTab::new(
                        "Tab",
                        vec![
                            FieldDefinition::builder("inner", FieldType::Group)
                                .fields(vec![text_field("deep")])
                                .build(),
                        ],
                    )])
                    .build(),
            ])
            .build(),
    ];
    let specs = collect_column_specs(&fields, &no_locale());
    let names: Vec<&str> = specs.iter().map(|s| s.col_name.as_str()).collect();
    assert!(
        names.contains(&"outer__inner__deep"),
        "Group→Tabs→Group: outer__inner__deep"
    );
}

#[test]
fn column_specs_group_containing_localized_tabs() {
    let fields = vec![
        FieldDefinition::builder("meta", FieldType::Group)
            .localized(true)
            .fields(vec![
                FieldDefinition::builder("t", FieldType::Tabs)
                    .tabs(vec![FieldTab::new("Content", vec![text_field("title")])])
                    .build(),
            ])
            .build(),
    ];
    let specs = collect_column_specs(&fields, &locale_en_de());
    let names: Vec<&str> = specs.iter().map(|s| s.col_name.as_str()).collect();
    assert!(
        names.contains(&"meta__title"),
        "Localized Group→Tabs: meta__title"
    );
    assert!(
        specs
            .iter()
            .any(|s| s.col_name == "meta__title" && s.is_localized),
        "meta__title should be marked localized via inheritance"
    );
}

#[test]
fn helpers_array_with_tabs_creates_flat_columns() {
    let (_dir, pool) = in_memory_pool();
    let conn = pool.get().unwrap();

    let array_field = FieldDefinition::builder("items", FieldType::Array)
        .fields(vec![
            text_field("plain"),
            FieldDefinition::builder("layout", FieldType::Tabs)
                .tabs(vec![
                    FieldTab::new("General", vec![text_field("title")]),
                    FieldTab::new("Content", vec![text_field("body")]),
                ])
                .build(),
        ])
        .build();
    let def = simple_collection("posts", vec![text_field("name"), array_field]);
    create_collection_table(&conn, "posts", &def, &no_locale())
        .unwrap();
    sync_join_tables(&conn, "posts", &def.fields, &no_locale()).unwrap();

    assert!(table_exists(&conn, "posts_items").unwrap());
    let cols = get_table_columns(&conn, "posts_items").unwrap();
    assert!(cols.contains("plain"), "plain sub-field column");
    assert!(cols.contains("title"), "title from tabs should be promoted");
    assert!(cols.contains("body"), "body from tabs should be promoted");
    assert!(
        !cols.contains("layout"),
        "layout wrapper should NOT be a column"
    );
}

#[test]
fn helpers_group_array_creates_prefixed_join_table() {
    let (_dir, pool) = in_memory_pool();
    let conn = pool.get().unwrap();
    let def = simple_collection(
        "posts",
        vec![
            FieldDefinition::builder("config", FieldType::Group)
                .fields(vec![
                    FieldDefinition::builder("items", FieldType::Array)
                        .fields(vec![
                            text_field("name"),
                            FieldDefinition::builder("score", FieldType::Number).build(),
                        ])
                        .build(),
                ])
                .build(),
        ],
    );
    create_collection_table(&conn, "posts", &def, &no_locale())
        .unwrap();
    sync_join_tables(&conn, "posts", &def.fields, &no_locale()).unwrap();

    assert!(
        table_exists(&conn, "posts_config__items").unwrap(),
        "Group > Array should create prefixed join table posts_config__items"
    );
    let cols = get_table_columns(&conn, "posts_config__items").unwrap();
    assert!(cols.contains("name"), "should have name column");
    assert!(cols.contains("score"), "should have score column");
    assert!(cols.contains("parent_id"));
    assert!(cols.contains("_order"));
}

#[test]
fn helpers_group_blocks_creates_prefixed_join_table() {
    let (_dir, pool) = in_memory_pool();
    let conn = pool.get().unwrap();
    let def = simple_collection(
        "posts",
        vec![
            FieldDefinition::builder("config", FieldType::Group)
                .fields(vec![
                    FieldDefinition::builder("content", FieldType::Blocks).build(),
                ])
                .build(),
        ],
    );
    create_collection_table(&conn, "posts", &def, &no_locale())
        .unwrap();
    sync_join_tables(&conn, "posts", &def.fields, &no_locale()).unwrap();

    assert!(
        table_exists(&conn, "posts_config__content").unwrap(),
        "Group > Blocks should create prefixed join table posts_config__content"
    );
    let cols = get_table_columns(&conn, "posts_config__content").unwrap();
    assert!(
        cols.contains("_block_type"),
        "should have _block_type column"
    );
    assert!(cols.contains("data"), "should have data column");
}

#[test]
fn helpers_group_array_localized_creates_table_with_locale() {
    let (_dir, pool) = in_memory_pool();
    let conn = pool.get().unwrap();
    let def = simple_collection(
        "posts",
        vec![
            FieldDefinition::builder("config", FieldType::Group)
                .fields(vec![
                    FieldDefinition::builder("items", FieldType::Array)
                        .localized(true)
                        .fields(vec![text_field("label")])
                        .build(),
                ])
                .build(),
        ],
    );
    create_collection_table(&conn, "posts", &def, &locale_en_de())
        .unwrap();
    sync_join_tables(&conn, "posts", &def.fields, &locale_en_de()).unwrap();

    assert!(
        table_exists(&conn, "posts_config__items").unwrap(),
        "Group > localized Array should create prefixed join table"
    );
    let cols = get_table_columns(&conn, "posts_config__items").unwrap();
    assert!(
        cols.contains("_locale"),
        "localized Array inside Group should have _locale column"
    );
    assert!(cols.contains("label"));
}

#[test]
fn helpers_group_relationship_creates_prefixed_junction_table() {
    let (_dir, pool) = in_memory_pool();
    let conn = pool.get().unwrap();
    let def = simple_collection(
        "posts",
        vec![
            FieldDefinition::builder("config", FieldType::Group)
                .fields(vec![
                    FieldDefinition::builder("tags", FieldType::Relationship)
                        .relationship(RelationshipConfig::new("tags", true))
                        .build(),
                ])
                .build(),
        ],
    );
    create_collection_table(&conn, "posts", &def, &no_locale())
        .unwrap();
    sync_join_tables(&conn, "posts", &def.fields, &no_locale()).unwrap();

    assert!(
        table_exists(&conn, "posts_config__tags").unwrap(),
        "Group > Relationship should create prefixed junction table"
    );
    let cols = get_table_columns(&conn, "posts_config__tags").unwrap();
    assert!(cols.contains("parent_id"));
    assert!(cols.contains("related_id"));
    assert!(cols.contains("_order"));
}

#[test]
fn helpers_group_group_array_creates_deeply_prefixed_join_table() {
    let (_dir, pool) = in_memory_pool();
    let conn = pool.get().unwrap();
    let def = simple_collection(
        "posts",
        vec![
            FieldDefinition::builder("outer", FieldType::Group)
                .fields(vec![
                    FieldDefinition::builder("inner", FieldType::Group)
                        .fields(vec![
                            FieldDefinition::builder("items", FieldType::Array)
                                .fields(vec![text_field("name")])
                                .build(),
                        ])
                        .build(),
                ])
                .build(),
        ],
    );
    create_collection_table(&conn, "posts", &def, &no_locale())
        .unwrap();
    sync_join_tables(&conn, "posts", &def.fields, &no_locale()).unwrap();

    assert!(
        table_exists(&conn, "posts_outer__inner__items").unwrap(),
        "Group > Group > Array should create double-prefixed join table"
    );
    let cols = get_table_columns(&conn, "posts_outer__inner__items").unwrap();
    assert!(cols.contains("name"));
    assert!(cols.contains("parent_id"));
    assert!(cols.contains("_order"));
}

#[test]
fn helpers_group_group_blocks_creates_deeply_prefixed_join_table() {
    let (_dir, pool) = in_memory_pool();
    let conn = pool.get().unwrap();
    let def = simple_collection(
        "posts",
        vec![
            FieldDefinition::builder("outer", FieldType::Group)
                .fields(vec![
                    FieldDefinition::builder("inner", FieldType::Group)
                        .fields(vec![
                            FieldDefinition::builder("content", FieldType::Blocks).build(),
                        ])
                        .build(),
                ])
                .build(),
        ],
    );
    create_collection_table(&conn, "posts", &def, &no_locale())
        .unwrap();
    sync_join_tables(&conn, "posts", &def.fields, &no_locale()).unwrap();

    assert!(
        table_exists(&conn, "posts_outer__inner__content").unwrap(),
        "Group > Group > Blocks should create double-prefixed join table"
    );
    let cols = get_table_columns(&conn, "posts_outer__inner__content").unwrap();
    assert!(cols.contains("_block_type"));
    assert!(cols.contains("data"));
}

#[test]
fn helpers_array_with_row_creates_flat_columns() {
    let (_dir, pool) = in_memory_pool();
    let conn = pool.get().unwrap();

    let array_field = FieldDefinition::builder("items", FieldType::Array)
        .fields(vec![
            FieldDefinition::builder("row_wrap", FieldType::Row)
                .fields(vec![text_field("x"), text_field("y")])
                .build(),
        ])
        .build();
    let def = simple_collection("posts", vec![array_field]);
    create_collection_table(&conn, "posts", &def, &no_locale())
        .unwrap();
    sync_join_tables(&conn, "posts", &def.fields, &no_locale()).unwrap();

    let cols = get_table_columns(&conn, "posts_items").unwrap();
    assert!(cols.contains("x"), "x from row should be promoted");
    assert!(cols.contains("y"), "y from row should be promoted");
    assert!(
        !cols.contains("row_wrap"),
        "row wrapper should NOT be a column"
    );
}

#[test]
fn helpers_array_date_with_timezone_creates_tz_column() {
    let (_dir, pool) = in_memory_pool();
    let conn = pool.get().unwrap();

    let array_field = FieldDefinition::builder("events", FieldType::Array)
        .fields(vec![
            text_field("title"),
            FieldDefinition::builder("scheduled_at", FieldType::Date)
                .timezone(true)
                .build(),
        ])
        .build();
    let def = simple_collection("posts", vec![array_field]);
    create_collection_table(&conn, "posts", &def, &no_locale())
        .unwrap();
    sync_join_tables(&conn, "posts", &def.fields, &no_locale()).unwrap();

    let cols = get_table_columns(&conn, "posts_events").unwrap();
    assert!(cols.contains("scheduled_at"), "date column should exist");
    assert!(
        cols.contains("scheduled_at_tz"),
        "timezone companion column should exist for Date+timezone in array"
    );
}

#[test]
fn helpers_existing_array_adds_tz_column_on_alter() {
    let (_dir, pool) = in_memory_pool();
    let conn = pool.get().unwrap();

    conn.execute("CREATE TABLE posts (id TEXT PRIMARY KEY)", &[])
        .unwrap();
    conn.execute(
        "CREATE TABLE posts_events (id TEXT PRIMARY KEY, parent_id TEXT, _order INTEGER, title TEXT)",
        &[],
    )
    .unwrap();

    let array_field = FieldDefinition::builder("events", FieldType::Array)
        .fields(vec![
            text_field("title"),
            FieldDefinition::builder("scheduled_at", FieldType::Date)
                .timezone(true)
                .build(),
        ])
        .build();
    let def = simple_collection("posts", vec![array_field]);
    sync_join_tables(&conn, "posts", &def.fields, &no_locale()).unwrap();

    let cols = get_table_columns(&conn, "posts_events").unwrap();
    assert!(cols.contains("scheduled_at"), "date column should be added");
    assert!(
        cols.contains("scheduled_at_tz"),
        "timezone companion column should be added on alter"
    );
}

#[test]
fn helpers_localized_group_array_inherits_locale_column() {
    let (_dir, pool) = in_memory_pool();
    let conn = pool.get().unwrap();

    let def = simple_collection(
        "posts",
        vec![
            FieldDefinition::builder("meta", FieldType::Group)
                .localized(true)
                .fields(vec![
                    FieldDefinition::builder("items", FieldType::Array)
                        .fields(vec![text_field("label")])
                        .build(),
                ])
                .build(),
        ],
    );
    create_collection_table(&conn, "posts", &def, &locale_en_de())
        .unwrap();
    sync_join_tables(&conn, "posts", &def.fields, &locale_en_de()).unwrap();

    let cols = get_table_columns(&conn, "posts_meta__items").unwrap();
    assert!(
        cols.contains("_locale"),
        "Array inside localized Group should inherit _locale column"
    );
}

#[test]
fn helpers_localized_group_blocks_inherits_locale_column() {
    let (_dir, pool) = in_memory_pool();
    let conn = pool.get().unwrap();

    let def = simple_collection(
        "posts",
        vec![
            FieldDefinition::builder("meta", FieldType::Group)
                .localized(true)
                .fields(vec![
                    FieldDefinition::builder("content", FieldType::Blocks).build(),
                ])
                .build(),
        ],
    );
    create_collection_table(&conn, "posts", &def, &locale_en_de())
        .unwrap();
    sync_join_tables(&conn, "posts", &def.fields, &locale_en_de()).unwrap();

    let cols = get_table_columns(&conn, "posts_meta__content").unwrap();
    assert!(
        cols.contains("_locale"),
        "Blocks inside localized Group should inherit _locale column"
    );
}

#[test]
fn helpers_localized_group_has_many_inherits_locale_column() {
    let (_dir, pool) = in_memory_pool();
    let conn = pool.get().unwrap();

    let def = simple_collection(
        "posts",
        vec![
            FieldDefinition::builder("meta", FieldType::Group)
                .localized(true)
                .fields(vec![
                    FieldDefinition::builder("tags", FieldType::Relationship)
                        .relationship(RelationshipConfig::new("tags", true))
                        .build(),
                ])
                .build(),
        ],
    );
    create_collection_table(&conn, "posts", &def, &locale_en_de())
        .unwrap();
    sync_join_tables(&conn, "posts", &def.fields, &locale_en_de()).unwrap();

    let cols = get_table_columns(&conn, "posts_meta__tags").unwrap();
    assert!(
        cols.contains("_locale"),
        "has-many Relationship inside localized Group should inherit _locale column"
    );
}

#[test]
fn versions_table_has_unique_parent_version() {
    let text = |s: &str| DbValue::Text(s.to_string());
    let int = |n: i64| DbValue::Integer(n);

    let (_dir, pool) = in_memory_pool();
    let conn = pool.get().unwrap();
    // Need parent table and row for FK
    conn.execute("CREATE TABLE posts (id TEXT PRIMARY KEY)", &[])
        .unwrap();
    conn.execute("INSERT INTO posts (id) VALUES (?1)", &[text("p1")])
        .unwrap();
    sync_versions_table(&conn, "posts").unwrap();

    // Insert first version — should succeed
    conn.execute(
        "INSERT INTO _versions_posts (id, _parent, _version, _status, snapshot) VALUES (?1, ?2, ?3, ?4, ?5)",
        &[text("v1"), text("p1"), int(1), text("published"), text("{}")],
    ).unwrap();

    // Insert same parent+version — should fail (UNIQUE constraint)
    let err = conn.execute(
        "INSERT INTO _versions_posts (id, _parent, _version, _status, snapshot) VALUES (?1, ?2, ?3, ?4, ?5)",
        &[text("v2"), text("p1"), int(1), text("published"), text("{}")],
    );
    assert!(
        err.is_err(),
        "Duplicate (parent, version) should be rejected"
    );

    // Different version same parent — should succeed
    conn.execute(
        "INSERT INTO _versions_posts (id, _parent, _version, _status, snapshot) VALUES (?1, ?2, ?3, ?4, ?5)",
        &[text("v3"), text("p1"), int(2), text("published"), text("{}")],
    ).unwrap();
}

#[test]
fn version_table_indexes_use_ver_prefix() {
    let (_dir, pool) = in_memory_pool();
    let conn = pool.get().unwrap();
    conn.execute("CREATE TABLE posts (id TEXT PRIMARY KEY)", &[])
        .unwrap();
    sync_versions_table(&conn, "posts").unwrap();

    let indexes: HashSet<String> = conn
        .query_all(
            "SELECT name FROM sqlite_master WHERE type='index' AND tbl_name=?1",
            &[DbValue::Text("_versions_posts".to_string())],
        )
        .unwrap()
        .into_iter()
        .filter_map(|r| r.get_string("name").ok())
        .collect();

    // Must use `idx__ver_` prefix, not bare `idx_{slug}_parent_`
    for idx_name in &indexes {
        assert!(
            !idx_name.starts_with("idx_posts_parent_"),
            "Index '{}' uses bare prefix — should use idx__ver_ namespace",
            idx_name
        );
    }

    assert!(indexes.contains("idx__ver_posts_parent_latest"));
    assert!(indexes.contains("idx__ver_posts_parent_version"));
    assert!(indexes.contains("idx__ver_posts_parent_version_unique"));
}

#[test]
fn helpers_polymorphic_upgrade_rebuilds_primary_key() {
    let text = |s: &str| DbValue::Text(s.to_string());
    let int = |n: i64| DbValue::Integer(n);

    let (_dir, pool) = in_memory_pool();
    let conn = pool.get().unwrap();

    // Step 1: Create a non-polymorphic junction table (simulates old schema)
    conn.execute("CREATE TABLE posts (id TEXT PRIMARY KEY)", &[])
        .unwrap();
    conn.execute(
        "CREATE TABLE posts_related (\
            parent_id TEXT NOT NULL, \
            related_id TEXT NOT NULL, \
            _order INTEGER NOT NULL DEFAULT 0, \
            PRIMARY KEY (parent_id, related_id)\
        )",
        &[],
    )
    .unwrap();

    // Step 2: Insert parent row and junction data
    conn.execute("INSERT INTO posts (id) VALUES ('p1')", &[])
        .unwrap();
    conn.execute(
        "INSERT INTO posts_related (parent_id, related_id, _order) VALUES (?1, ?2, ?3)",
        &[text("p1"), text("r1"), int(0)],
    )
    .unwrap();
    conn.execute(
        "INSERT INTO posts_related (parent_id, related_id, _order) VALUES (?1, ?2, ?3)",
        &[text("p1"), text("r2"), int(1)],
    )
    .unwrap();

    // Step 3: Run the upgrade (simulating schema change to polymorphic)
    let mut rc = RelationshipConfig::new("tags", true);
    rc.polymorphic = vec!["tags".into(), "categories".into()];

    let def = simple_collection(
        "posts",
        vec![
            FieldDefinition::builder("related", FieldType::Relationship)
                .relationship(rc)
                .build(),
        ],
    );
    sync_join_tables(&conn, "posts", &def.fields, &no_locale()).unwrap();

    // Step 4: Verify data is preserved
    let rows = conn
        .query_all("SELECT parent_id, related_id, related_collection, _order FROM posts_related ORDER BY _order", &[])
        .unwrap();
    assert_eq!(rows.len(), 2);
    assert_eq!(rows[0].get_string("parent_id").unwrap(), "p1");
    assert_eq!(rows[0].get_string("related_id").unwrap(), "r1");
    assert_eq!(rows[0].get_string("related_collection").unwrap(), "");
    assert_eq!(rows[1].get_string("related_id").unwrap(), "r2");

    // Step 5: Verify the new PK allows duplicate (parent_id, related_id)
    // with different related_collection values
    conn.execute(
        "INSERT INTO posts_related (parent_id, related_id, related_collection, _order) VALUES (?1, ?2, ?3, ?4)",
        &[text("p1"), text("r1"), text("categories"), int(2)],
    )
    .unwrap();

    let count = conn
        .query_all(
            "SELECT * FROM posts_related WHERE parent_id = ?1 AND related_id = ?2",
            &[text("p1"), text("r1")],
        )
        .unwrap();
    assert_eq!(
        count.len(),
        2,
        "Same (parent_id, related_id) with different related_collection should be allowed"
    );
}

#[test]
fn helpers_polymorphic_upgrade_with_locale_preserves_data() {
    let text = |s: &str| DbValue::Text(s.to_string());
    let int = |n: i64| DbValue::Integer(n);

    let (_dir, pool) = in_memory_pool();
    let conn = pool.get().unwrap();

    // Create a non-polymorphic localized junction table
    conn.execute("CREATE TABLE posts (id TEXT PRIMARY KEY)", &[])
        .unwrap();
    conn.execute(
        "CREATE TABLE posts_related (\
            parent_id TEXT NOT NULL, \
            related_id TEXT NOT NULL, \
            _order INTEGER NOT NULL DEFAULT 0, \
            _locale TEXT NOT NULL DEFAULT 'en', \
            PRIMARY KEY (parent_id, related_id, _locale)\
        )",
        &[],
    )
    .unwrap();

    conn.execute("INSERT INTO posts (id) VALUES ('p1')", &[])
        .unwrap();
    conn.execute(
        "INSERT INTO posts_related (parent_id, related_id, _order, _locale) VALUES (?1, ?2, ?3, ?4)",
        &[text("p1"), text("r1"), int(0), text("en")],
    )
    .unwrap();
    conn.execute(
        "INSERT INTO posts_related (parent_id, related_id, _order, _locale) VALUES (?1, ?2, ?3, ?4)",
        &[text("p1"), text("r1"), int(0), text("de")],
    )
    .unwrap();

    // Upgrade to polymorphic
    let mut rc = RelationshipConfig::new("tags", true);
    rc.polymorphic = vec!["tags".into(), "categories".into()];

    let def = simple_collection(
        "posts",
        vec![
            FieldDefinition::builder("related", FieldType::Relationship)
                .localized(true)
                .relationship(rc)
                .build(),
        ],
    );
    sync_join_tables(&conn, "posts", &def.fields, &locale_en_de()).unwrap();

    // Data preserved
    let rows = conn
        .query_all("SELECT * FROM posts_related ORDER BY _locale", &[])
        .unwrap();
    assert_eq!(rows.len(), 2);

    // related_collection column exists
    let cols = get_table_columns(&conn, "posts_related").unwrap();
    assert!(cols.contains("related_collection"));
    assert!(cols.contains("_locale"));
}

#[test]
fn date_field_with_timezone_produces_two_column_specs() {
    let fields = vec![
        FieldDefinition::builder("event_at", FieldType::Date)
            .timezone(true)
            .build(),
    ];
    let specs = collect_column_specs(&fields, &no_locale());

    assert_eq!(specs.len(), 2, "should produce main + _tz column specs");
    assert_eq!(specs[0].col_name, "event_at");
    assert!(!specs[0].companion_text);
    assert_eq!(specs[1].col_name, "event_at_tz");
    assert!(specs[1].companion_text);
}

#[test]
fn date_field_without_timezone_produces_one_column_spec() {
    let fields = vec![FieldDefinition::builder("published_at", FieldType::Date).build()];
    let specs = collect_column_specs(&fields, &no_locale());

    assert_eq!(specs.len(), 1, "should produce only the main column spec");
    assert_eq!(specs[0].col_name, "published_at");
    assert!(!specs[0].companion_text);
}

#[test]
fn date_timezone_in_group_produces_prefixed_tz_column() {
    let fields = vec![
        FieldDefinition::builder("meta", FieldType::Group)
            .fields(vec![
                FieldDefinition::builder("starts_at", FieldType::Date)
                    .timezone(true)
                    .build(),
            ])
            .build(),
    ];
    let specs = collect_column_specs(&fields, &no_locale());

    assert_eq!(specs.len(), 2);
    assert_eq!(specs[0].col_name, "meta__starts_at");
    assert_eq!(specs[1].col_name, "meta__starts_at_tz");
    assert!(specs[1].companion_text);
}

#[test]
fn helpers_polymorphic_junction_rebuild_preserves_fk() {
    let (_dir, pool) = in_memory_pool();
    let conn = pool.get().unwrap();

    // Create parent table
    conn.execute(
        "CREATE TABLE posts (id TEXT PRIMARY KEY, _ref_count INTEGER DEFAULT 0)",
        &[],
    )
    .unwrap();

    // Create a non-polymorphic junction table with FK
    conn.execute_batch(
        "CREATE TABLE posts_tags (\
            parent_id TEXT NOT NULL REFERENCES posts(id) ON DELETE CASCADE, \
            related_id TEXT NOT NULL, \
            _order INTEGER NOT NULL DEFAULT 0, \
            PRIMARY KEY (parent_id, related_id)\
        )",
    )
    .unwrap();

    // Insert test data
    conn.execute("INSERT INTO posts (id) VALUES ('p1')", &[])
        .unwrap();
    conn.execute(
        "INSERT INTO posts_tags (parent_id, related_id, _order) VALUES ('p1', 'tag1', 0)",
        &[],
    )
    .unwrap();

    // Rebuild for polymorphic upgrade
    rebuild_junction_table_for_polymorphic(&conn, "posts_tags", "posts", false).unwrap();

    // Verify columns
    let cols = get_table_columns(&conn, "posts_tags").unwrap();
    assert!(
        cols.contains("related_collection"),
        "must have related_collection"
    );

    // Verify data migrated
    let rows = conn
        .query_all("SELECT parent_id, related_id FROM posts_tags", &[])
        .unwrap();
    assert_eq!(rows.len(), 1);

    // Verify FK still works: cascade delete should remove junction row
    conn.execute("DELETE FROM posts WHERE id = 'p1'", &[])
        .unwrap();
    let rows = conn.query_all("SELECT * FROM posts_tags", &[]).unwrap();
    assert_eq!(
        rows.len(),
        0,
        "FK ON DELETE CASCADE must be preserved after polymorphic rebuild"
    );
}
#[test]
fn group_containing_row() {
    let fields = vec![
        FieldDefinition::builder("meta", FieldType::Group)
            .fields(vec![
                FieldDefinition::builder("r", FieldType::Row)
                    .fields(vec![text_field("title"), text_field("slug")])
                    .build(),
            ])
            .build(),
    ];
    let specs = collect_column_specs(&fields, &no_locale());
    let names: Vec<&str> = specs.iter().map(|s| s.col_name.as_str()).collect();
    assert!(names.contains(&"meta__title"));
    assert!(names.contains(&"meta__slug"));
}

#[test]
fn group_containing_tabs() {
    let fields = vec![
        FieldDefinition::builder("settings", FieldType::Group)
            .fields(vec![
                FieldDefinition::builder("t", FieldType::Tabs)
                    .tabs(vec![
                        FieldTab::new("General", vec![text_field("theme")]),
                        FieldTab::new("Advanced", vec![text_field("cache_ttl")]),
                    ])
                    .build(),
            ])
            .build(),
    ];
    let specs = collect_column_specs(&fields, &no_locale());
    let names: Vec<&str> = specs.iter().map(|s| s.col_name.as_str()).collect();
    assert!(names.contains(&"settings__theme"));
    assert!(names.contains(&"settings__cache_ttl"));
}

#[test]
fn group_tabs_group_three_levels() {
    let fields = vec![
        FieldDefinition::builder("outer", FieldType::Group)
            .fields(vec![
                FieldDefinition::builder("t", FieldType::Tabs)
                    .tabs(vec![FieldTab::new(
                        "Tab",
                        vec![
                            FieldDefinition::builder("inner", FieldType::Group)
                                .fields(vec![text_field("deep")])
                                .build(),
                        ],
                    )])
                    .build(),
            ])
            .build(),
    ];
    let specs = collect_column_specs(&fields, &no_locale());
    let names: Vec<&str> = specs.iter().map(|s| s.col_name.as_str()).collect();
    assert!(names.contains(&"outer__inner__deep"));
}

#[test]
fn localized_group_tabs_inherits_locale() {
    let fields = vec![
        FieldDefinition::builder("meta", FieldType::Group)
            .localized(true)
            .fields(vec![
                FieldDefinition::builder("t", FieldType::Tabs)
                    .tabs(vec![FieldTab::new("Content", vec![text_field("title")])])
                    .build(),
            ])
            .build(),
    ];
    let specs = collect_column_specs(&fields, &locale_en_de());
    assert!(
        specs
            .iter()
            .any(|s| s.col_name == "meta__title" && s.is_localized)
    );
}

#[test]
fn date_with_timezone_produces_two_specs() {
    let fields = vec![
        FieldDefinition::builder("event_at", FieldType::Date)
            .timezone(true)
            .build(),
    ];
    let specs = collect_column_specs(&fields, &no_locale());
    assert_eq!(specs.len(), 2);
    assert_eq!(specs[0].col_name, "event_at");
    assert!(!specs[0].companion_text);
    assert_eq!(specs[1].col_name, "event_at_tz");
    assert!(specs[1].companion_text);
}

#[test]
fn date_without_timezone_produces_one_spec() {
    let fields = vec![FieldDefinition::builder("published_at", FieldType::Date).build()];
    let specs = collect_column_specs(&fields, &no_locale());
    assert_eq!(specs.len(), 1);
    assert!(!specs[0].companion_text);
}

#[test]
fn date_timezone_in_group_produces_prefixed_tz() {
    let fields = vec![
        FieldDefinition::builder("meta", FieldType::Group)
            .fields(vec![
                FieldDefinition::builder("starts_at", FieldType::Date)
                    .timezone(true)
                    .build(),
            ])
            .build(),
    ];
    let specs = collect_column_specs(&fields, &no_locale());
    assert_eq!(specs.len(), 2);
    assert_eq!(specs[0].col_name, "meta__starts_at");
    assert_eq!(specs[1].col_name, "meta__starts_at_tz");
    assert!(specs[1].companion_text);
}

#[test]
fn code_with_languages_produces_companion_lang_column() {
    let fields = vec![
        FieldDefinition::builder("snippet", FieldType::Code)
            .languages(vec!["javascript".to_string(), "python".to_string()])
            .build(),
    ];
    let specs = collect_column_specs(&fields, &no_locale());
    assert_eq!(specs.len(), 2);
    assert_eq!(specs[0].col_name, "snippet");
    assert!(!specs[0].companion_text);
    assert_eq!(specs[1].col_name, "snippet_lang");
    assert!(specs[1].companion_text);
}

#[test]
fn code_without_languages_produces_one_spec() {
    let fields = vec![
        FieldDefinition::builder("snippet", FieldType::Code)
            .build(),
    ];
    let specs = collect_column_specs(&fields, &no_locale());
    assert_eq!(specs.len(), 1, "no companion column without an allow-list");
    assert_eq!(specs[0].col_name, "snippet");
}

#[test]
fn code_languages_in_group_produces_prefixed_lang_column() {
    let fields = vec![
        FieldDefinition::builder("meta", FieldType::Group)
            .fields(vec![
                FieldDefinition::builder("example", FieldType::Code)
                    .languages(vec!["javascript".to_string()])
                    .build(),
            ])
            .build(),
    ];
    let specs = collect_column_specs(&fields, &no_locale());
    assert_eq!(specs.len(), 2);
    assert_eq!(specs[0].col_name, "meta__example");
    assert_eq!(specs[1].col_name, "meta__example_lang");
    assert!(specs[1].companion_text);
}

#[test]
fn rows_before_localization_belong_to_the_default_locale_code() {
    let (_dir, pool) = in_memory_pool();
    let conn = pool.get().unwrap();
    conn.execute(
        "CREATE TABLE test_join (parent_id TEXT, related_id TEXT)",
        &[],
    )
    .unwrap();
    conn.execute(
        "INSERT INTO test_join (parent_id, related_id) VALUES ('p1', 'r1')",
        &[],
    )
    .unwrap();

    ensure_locale_column(&conn, "test_join", "en-US").unwrap();

    let row = conn
        .query_one("SELECT _locale FROM test_join", &[])
        .unwrap()
        .unwrap();
    assert_eq!(row.get_string("_locale").unwrap(), "en-US");
}

#[test]
fn column_specs_ensure_locale_column_adds_to_existing() {
    let (_dir, pool) = in_memory_pool();
    let conn = pool.get().unwrap();
    conn.execute(
        "CREATE TABLE test_join (parent_id TEXT, related_id TEXT)",
        &[],
    )
    .unwrap();
    ensure_locale_column(&conn, "test_join", "en").unwrap();

    let cols = get_table_columns(&conn, "test_join").unwrap();
    assert!(cols.contains("_locale"));

    // Idempotent
    ensure_locale_column(&conn, "test_join", "en").unwrap();
}
/// Every column the framework puts on a table itself is a system column,
/// on a collection table (`_ref_count`, the timestamps) as on a join table
/// (`_order`, `_locale`) — none of them is ever an orphan. A field column
/// is not, whatever it is named.
#[test]
fn system_columns_are_recognized_on_every_kind_of_table() {
    for col in [
        "id",
        "created_at",
        "updated_at",
        "_order",
        "_locale",
        "_block_type",
        "_ref_count",
        "_deleted_at",
    ] {
        assert!(is_system_column(col), "{col} must count as a system column");
    }

    for col in ["title", "parent_id", "related_id", "data"] {
        assert!(!is_system_column(col), "{col} is a definition's column");
    }
}
#[test]
fn unique_parent_version_constraint() {
    let text = |s: &str| DbValue::Text(s.to_string());
    let int = |n: i64| DbValue::Integer(n);

    let (_dir, pool) = in_memory_pool();
    let conn = pool.get().unwrap();
    conn.execute("CREATE TABLE posts (id TEXT PRIMARY KEY)", &[])
        .unwrap();
    conn.execute("INSERT INTO posts (id) VALUES (?1)", &[text("p1")])
        .unwrap();
    sync_versions_table(&conn, "posts").unwrap();

    conn.execute(
        "INSERT INTO _versions_posts (id, _parent, _version, _status, snapshot) VALUES (?1, ?2, ?3, ?4, ?5)",
        &[text("v1"), text("p1"), int(1), text("published"), text("{}")],
    ).unwrap();

    // Duplicate (parent, version) should fail
    let err = conn.execute(
        "INSERT INTO _versions_posts (id, _parent, _version, _status, snapshot) VALUES (?1, ?2, ?3, ?4, ?5)",
        &[text("v2"), text("p1"), int(1), text("published"), text("{}")],
    );
    assert!(err.is_err());

    // Different version same parent should succeed
    conn.execute(
        "INSERT INTO _versions_posts (id, _parent, _version, _status, snapshot) VALUES (?1, ?2, ?3, ?4, ?5)",
        &[text("v3"), text("p1"), int(2), text("published"), text("{}")],
    ).unwrap();
}

#[test]
fn indexes_use_ver_prefix() {
    let (_dir, pool) = in_memory_pool();
    let conn = pool.get().unwrap();
    conn.execute("CREATE TABLE posts (id TEXT PRIMARY KEY)", &[])
        .unwrap();
    sync_versions_table(&conn, "posts").unwrap();

    let indexes: HashSet<String> = conn
        .query_all(
            "SELECT name FROM sqlite_master WHERE type='index' AND tbl_name=?1",
            &[DbValue::Text("_versions_posts".to_string())],
        )
        .unwrap()
        .into_iter()
        .filter_map(|r| r.get_string("name").ok())
        .collect();

    for idx_name in &indexes {
        assert!(!idx_name.starts_with("idx_posts_parent_"));
    }

    assert!(indexes.contains("idx__ver_posts_parent_latest"));
    assert!(indexes.contains("idx__ver_posts_parent_version"));
    assert!(indexes.contains("idx__ver_posts_parent_version_unique"));
}
#[test]
fn introspection_table_exists_false_initially() {
    let (_dir, pool) = in_memory_pool();
    let conn = pool.get().unwrap();
    assert!(!table_exists(&conn, "nonexistent").unwrap());
}

#[test]
fn introspection_table_exists_true_after_create() {
    let (_dir, pool) = in_memory_pool();
    let conn = pool.get().unwrap();
    conn.execute("CREATE TABLE test_table (id TEXT PRIMARY KEY)", &[])
        .unwrap();
    assert!(table_exists(&conn, "test_table").unwrap());
}

#[test]
fn introspection_get_table_columns_returns_column_names() {
    let (_dir, pool) = in_memory_pool();
    let conn = pool.get().unwrap();
    conn.execute("CREATE TABLE t (id TEXT, name TEXT, age INTEGER)", &[])
        .unwrap();
    let cols = get_table_columns(&conn, "t").unwrap();
    assert!(cols.contains("id"));
    assert!(cols.contains("name"));
    assert!(cols.contains("age"));
    assert_eq!(cols.len(), 3);
}

/// The catalog reports a composite primary key in key order, and nothing
/// for a table without one.
#[test]
fn primary_key_columns_are_read_in_key_order() {
    let (_dir, pool) = in_memory_pool();
    let conn = pool.get().unwrap();
    conn.execute_batch(
        "CREATE TABLE j (a TEXT, b TEXT, c TEXT, PRIMARY KEY (b, a)); CREATE TABLE n (a TEXT);",
    )
    .unwrap();

    let pk = table_constraints(&conn, "j", ConstraintKind::PrimaryKey).unwrap();
    assert_eq!(pk.len(), 1);
    assert_eq!(pk[0].columns, vec!["b", "a"]);

    assert!(
        table_constraints(&conn, "n", ConstraintKind::PrimaryKey)
            .unwrap()
            .is_empty()
    );
}

/// Inline `UNIQUE` constraints are reported with their columns; a unique
/// index created on its own and the primary key are not.
#[test]
fn inline_unique_constraints_are_told_apart_from_unique_indexes() {
    let (_dir, pool) = in_memory_pool();
    let conn = pool.get().unwrap();
    conn.execute_batch(
        "CREATE TABLE t (id TEXT PRIMARY KEY, slug TEXT UNIQUE, a TEXT, b TEXT, \
         code TEXT, UNIQUE (a, b)); \
         CREATE UNIQUE INDEX idx_t_code_unique ON t (code);",
    )
    .unwrap();

    let mut columns: Vec<Vec<String>> = table_constraints(&conn, "t", ConstraintKind::Unique)
        .unwrap()
        .into_iter()
        .map(|c| c.columns)
        .collect();
    columns.sort();

    assert_eq!(columns, vec![vec!["a", "b"], vec!["slug"]]);
}
fn field(name: &str, field_type: FieldType) -> FieldDefinition {
    FieldDefinition::builder(name, field_type).build()
}
fn keep_all(_: &FieldDefinition) -> bool {
    true
}
fn text_only(field: &FieldDefinition) -> bool {
    field.field_type == FieldType::Text
}
/// The version leads the value, and two different shapes fingerprint
/// differently while the same shape fingerprints the same.
#[test]
fn the_fingerprint_follows_the_shape() {
    let one = versioned_fingerprint("1", &vec!["posts.title=text".to_string()]);
    let again = versioned_fingerprint("1", &vec!["posts.title=text".to_string()]);
    let other = versioned_fingerprint("1", &vec!["posts.title=number".to_string()]);
    let bumped = versioned_fingerprint("2", &vec!["posts.title=text".to_string()]);

    assert!(one.starts_with("1:"), "{one}");
    assert_eq!(one, again);
    assert_ne!(one, other);
    assert_ne!(one, bumped);
}

/// A leaf carries its type, its list-ness and its zone companion, so
/// retyping a field, turning it into a list or giving it a zone each
/// change the paths.
#[test]
fn a_leaf_path_carries_the_stored_shape() {
    let plain = field("tags", FieldType::Select);
    let list = FieldDefinition::builder("tags", FieldType::Select)
        .has_many(true)
        .build();
    let zoned = FieldDefinition::builder("starts", FieldType::Date)
        .timezone(true)
        .build();

    assert_eq!(field_paths(&vec![plain], &keep_all), "tags:select");
    assert_eq!(field_paths(&vec![list], &keep_all), "tags:select[]");
    assert_eq!(field_paths(&vec![zoned], &keep_all), "starts:date@tz");
}

/// Groups and arrays name their children, blocks name them per block type,
/// and a layout wrapper or tab adds no name of its own.
#[test]
fn nesting_is_named_the_way_storage_is() {
    let group = FieldDefinition::builder("meta", FieldType::Group)
        .fields(vec![field("note", FieldType::Text)])
        .build();
    let wrapper = FieldDefinition::builder("row", FieldType::Row)
        .fields(vec![field("x", FieldType::Text)])
        .build();
    let tabs = FieldDefinition::builder("layout", FieldType::Tabs)
        .tabs(vec![FieldTab::new(
            "One",
            vec![field("y", FieldType::Text)],
        )])
        .build();
    let blocks = FieldDefinition::builder("content", FieldType::Blocks)
        .blocks(vec![BlockDefinition::new(
            "quote",
            vec![field("body", FieldType::Text)],
        )])
        .build();

    assert_eq!(field_paths(&vec![group], &keep_all), "meta(note:text)");
    assert_eq!(field_paths(&vec![wrapper], &keep_all), "x:text");
    assert_eq!(field_paths(&vec![tabs], &keep_all), "y:text");
    assert_eq!(
        field_paths(&vec![blocks], &keep_all),
        "content[quote:body:text]"
    );
}

/// A leaf is found at any depth — through groups, layout wrappers, tabs,
/// arrays and blocks — and only when the predicate accepts it.
#[test]
fn holds_leaf_searches_every_depth() {
    let blocks = FieldDefinition::builder("content", FieldType::Blocks)
        .blocks(vec![BlockDefinition::new(
            "quote",
            vec![field("body", FieldType::Text)],
        )])
        .build();
    let group = FieldDefinition::builder("meta", FieldType::Group)
        .fields(vec![blocks])
        .build();

    let fields = vec![group];
    assert!(holds_leaf(&fields, &text_only));
    assert!(!holds_leaf(&fields, &|f: &FieldDefinition| f.field_type == FieldType::Number));
}

/// A leaf the predicate turns down is left out, so a pass that covers only
/// some types isn't re-run by a change to the others.
#[test]
fn a_turned_down_leaf_is_left_out() {
    let fields = vec![
        field("title", FieldType::Text),
        field("n", FieldType::Number),
    ];

    assert_eq!(field_paths(&fields, &text_only), "title:text");
}
fn conn_with_rows(rows: usize) -> Conn {
    let conn = memory_conn();
    conn.execute_batch("CREATE TABLE posts (id TEXT PRIMARY KEY, body TEXT, _deleted_at TEXT);")
        .unwrap();

    for i in 0..rows {
        conn.execute(
            "INSERT INTO posts (id, body) VALUES (?1, 'v')",
            &[DbValue::Text(format!("r{i:05}"))],
        )
        .unwrap();
    }

    conn
}

/// The ids a walk over the pages of a scan comes by.
fn visited(conn: &Conn, scan: &Scan) -> Vec<String> {
    let mut ids: Vec<String> = Vec::new();
    let mut page = conn.run(|s| first_page(s, scan)).unwrap();

    loop {
        ids.extend(page.rows.iter().filter_map(|r| r.text_at(0)));
        match page.next {
            None => return ids,
            Some(next) => page = conn.run(|s| next_page(s, scan, &next)).unwrap(),
        }
    }
}

/// Every row is visited once, in id order, however many pages it takes.
#[test]
fn visits_every_row_past_the_first_page() {
    let rows = PAGE_SIZE * 2 + 1;
    let conn = conn_with_rows(rows);

    let ids = visited(&conn, &Scan::of_column("posts", "body"));

    let expected: Vec<String> = (0..rows).map(|i| format!("r{i:05}")).collect();
    assert_eq!(ids, expected, "every row once, in id order");
}

/// A row whose last column is NULL is left out, and so is a soft-deleted
/// row when the scan asks for the active ones.
#[test]
fn leaves_out_null_and_soft_deleted_rows() {
    let conn = conn_with_rows(0);
    conn.0.raw
        .execute_batch(
            "INSERT INTO posts VALUES ('kept', 'v', NULL);
             INSERT INTO posts VALUES ('null', NULL, NULL);
             INSERT INTO posts VALUES ('trashed', 'v', '2026-01-01T00:00:00.000Z');",
        )
        .unwrap();

    assert_eq!(
        visited(&conn, &Scan::of_column("posts", "body")),
        vec!["kept".to_string(), "trashed".to_string()]
    );
    let mut active = Scan::of_column("posts", "body");
    active.active_only = true;
    assert_eq!(
        visited(&conn, &active),
        vec!["kept".to_string()]
    );
}

/// A table that isn't there yet has no rows to visit, rather than failing
/// the whole migration.
#[test]
fn a_missing_table_has_no_rows() {
    let conn = conn_with_rows(0);

    assert!(visited(&conn, &Scan::of_column("absent", "body")).is_empty());
}