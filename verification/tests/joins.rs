#![allow(dead_code, unused_imports)]

use cms_db::definition::{
    BlockDefinition, CollectionDefinition, FieldDefinition, FieldTab, FieldType, GlobalDefinition,
    LocaleConfig, Registry, RelationshipConfig, VersionsConfig,
};
use cms_db::migrate::helpers::column_specs::collect_column_specs;
use cms_db::migrate::helpers::versions::sync_versions_table as sync_versions_of;
use cms_db::migrate::join_tables::orchestrator::sync_join_tables as sync_join_tables_of;
use cms_db::pool::DbPool;
use cms_db::session::{Dialect, Reply, Request, Session};
use cms_db::value::{DbError, DbRow, DbValue};
use std::cell::RefCell;
use std::collections::HashSet;
use std::rc::Rc;
use cms_db::migrate::helpers::introspection::{ConstraintKind, TableConstraint};
use cms_db::migrate::join_tables::junction_shape::JunctionShape;
use cms_db::migrate::join_tables::orchestrator::{JoinTableKind, plan_join_tables};
use cms_db::migrate::join_tables::parent_index::{
    MAX_NAME_BYTES, row_parent_index_name,
};
use cms_db::names::quote_ident;
use std::collections::HashMap;


/// A SQLite database in memory, and what it takes to answer requests over it.
struct Db {
    raw: rusqlite::Connection,
    warnings: RefCell<Vec<String>>,
}

/// A connection to such a database.
#[derive(Clone)]
struct Conn(Rc<Db>);

/// Where such connections come from.
struct Pool(Conn);

/// The definitions a run is about, where it needs them.
struct World<'a> {
    registry: Option<&'a Registry>,
    config: LocaleConfig,
}

impl Pool {
    fn get(&self) -> Result<Conn, DbError> {
        Ok(self.0.clone())
    }
}

fn in_memory_pool() -> ((), Pool) {
    let raw = rusqlite::Connection::open_in_memory().unwrap();
    raw.execute_batch("PRAGMA foreign_keys = ON;").unwrap();
    raw.execute_batch(
        "CREATE TABLE _crap_meta (key TEXT PRIMARY KEY, value TEXT NOT NULL, updated_at TEXT)",
    )
    .unwrap();
    let db = Db { raw, warnings: RefCell::new(Vec::new()) };
    ((), Pool(Conn(Rc::new(db))))
}

fn to_sqlite(value: &DbValue) -> rusqlite::types::Value {
    match value {
        DbValue::Null => rusqlite::types::Value::Null,
        DbValue::Integer(n) => rusqlite::types::Value::Integer(*n),
        DbValue::Real(bits) => rusqlite::types::Value::Real(f64::from_bits(*bits)),
        DbValue::Text(s) => rusqlite::types::Value::Text(s.clone()),
        DbValue::Blob(b) => rusqlite::types::Value::Blob(b.clone()),
    }
}

fn from_sqlite(value: rusqlite::types::Value) -> DbValue {
    match value {
        rusqlite::types::Value::Null => DbValue::Null,
        rusqlite::types::Value::Integer(n) => DbValue::Integer(n),
        rusqlite::types::Value::Real(f) => DbValue::Real(f.to_bits()),
        rusqlite::types::Value::Text(s) => DbValue::Text(s),
        rusqlite::types::Value::Blob(b) => DbValue::Blob(b),
    }
}

impl Conn {
    fn rows(&self, sql: &str, params: &[DbValue]) -> rusqlite::Result<Vec<DbRow>> {
        let mut statement = self.0.raw.prepare(sql)?;
        let columns: Vec<String> = statement.column_names().iter().map(|c| c.to_string()).collect();
        let width = columns.len();
        let mut rows = statement.query(rusqlite::params_from_iter(params.iter().map(to_sqlite)))?;
        let mut found = Vec::new();
        while let Some(row) = rows.next()? {
            let mut values = Vec::new();
            for i in 0..width {
                values.push(from_sqlite(row.get::<usize, rusqlite::types::Value>(i)?));
            }
            found.push(DbRow::new(columns.clone(), values));
        }
        Ok(found)
    }

    fn query_all(&self, sql: &str, params: &[DbValue]) -> Result<Vec<DbRow>, DbError> {
        self.rows(sql, params).map_err(|e| DbError::Backend(e.to_string()))
    }

    fn query_one(&self, sql: &str, params: &[DbValue]) -> Result<Option<DbRow>, DbError> {
        Ok(self.query_all(sql, params)?.into_iter().next())
    }

    fn execute(&self, sql: &str, params: &[DbValue]) -> Result<usize, DbError> {
        self.0
            .raw
            .execute(sql, rusqlite::params_from_iter(params.iter().map(to_sqlite)))
            .map_err(|e| DbError::Backend(e.to_string()))
    }

    fn execute_batch(&self, sql: &str) -> Result<(), DbError> {
        self.0.raw.execute_batch(sql).map_err(|e| DbError::Backend(e.to_string()))
    }

    fn execute_ddl(&self, sql: &str, params: &[DbValue]) -> Result<usize, DbError> {
        self.execute(sql, params)
    }

    fn index_names(&self, table: &str, prefix: &str) -> Result<Vec<String>, DbError> {
        self.run(|s| cms_db::migrate::helpers::introspection::index_names(s, table, prefix))
    }

    /// Runs an operation that needs no definitions.
    fn run<T>(&self, operation: impl FnMut(&mut Session) -> Result<T, DbError>) -> Result<T, DbError> {
        let world = World { registry: None, config: LocaleConfig::disabled() };
        self.run_in(&world, operation)
    }

    /// Runs an operation over and over, answering one more request each time.
    fn run_in<T>(
        &self,
        world: &World,
        mut operation: impl FnMut(&mut Session) -> Result<T, DbError>,
    ) -> Result<T, DbError> {
        let mut session = Session::new(Dialect::Sqlite);
        loop {
            session.rewind();
            let result = operation(&mut session);
            let reply = match session.pending() {
                None => {
                    self.0.warnings.borrow_mut().extend(session.warnings().iter().cloned());
                    return result;
                }
                Some(request) => self.perform(world, request),
            };
            session.answer(reply);
        }
    }

    fn texts(&self, sql: &str, params: &[DbValue]) -> Result<Vec<String>, DbError> {
        Ok(self.query_all(sql, params)?.iter().filter_map(|r| r.text_at(0)).collect())
    }

    fn perform(&self, world: &World, request: &Request) -> Reply {
        match self.answer(world, request) {
            Ok(reply) => reply,
            Err(e) => Reply::Failed(e.message()),
        }
    }

    fn answer(&self, world: &World, request: &Request) -> Result<Reply, DbError> {
        Ok(match request {
            Request::QueryAll { sql, params } => Reply::Rows(self.query_all(sql, params)?),
            Request::QueryOne { sql, params } => Reply::Row(self.query_one(sql, params)?),
            Request::Execute { sql, params } => Reply::Count(self.execute(sql, params)? as u64),
            Request::ExecuteMany { sql, rows } => {
                let mut count = 0;
                for params in rows {
                    count += self.execute(sql, params)? as u64;
                }
                Reply::Count(count)
            }
            Request::ExecuteBatch { sql } => {
                self.execute_batch(sql)?;
                Reply::Done
            }
            Request::TableExists { table } => Reply::Flag(
                !self
                    .query_all(
                        "SELECT 1 FROM sqlite_master WHERE type = 'table' AND name = ?1",
                        &[DbValue::Text(table.clone())],
                    )?
                    .is_empty(),
            ),
            Request::TableColumns { table } => Reply::Names(self.texts(
                "SELECT name FROM pragma_table_info(?1)",
                &[DbValue::Text(table.clone())],
            )?),
            Request::TableColumnTypes { table } => Reply::Types(
                self.query_all(
                    "SELECT name, type FROM pragma_table_info(?1)",
                    &[DbValue::Text(table.clone())],
                )?
                .iter()
                .map(|r| (r.text_at(0).unwrap(), r.text_at(1).unwrap()))
                .collect(),
            ),
            Request::IndexNames { table, prefix } => Reply::Names(
                self.texts(
                    "SELECT name FROM sqlite_master WHERE type = 'index' AND tbl_name = ?1",
                    &[DbValue::Text(table.clone())],
                )?
                .into_iter()
                .filter(|n| n.starts_with(prefix.as_str()))
                .collect(),
            ),
            Request::ListUserTables => Reply::Names(self.texts(
                "SELECT name FROM sqlite_master WHERE type = 'table' AND name NOT LIKE 'sqlite_%'",
                &[],
            )?),
            Request::HeldLocales { table } => Reply::Names(
                self.texts(&format!("SELECT DISTINCT _locale FROM \"{table}\""), &[])?,
            ),
            Request::DeleteRowsOutsideLocales { table, locales } => {
                let marks: Vec<String> = (1..=locales.len()).map(|i| format!("?{i}")).collect();
                let params: Vec<DbValue> =
                    locales.iter().map(|l| DbValue::Text(l.clone())).collect();
                let sql =
                    format!("DELETE FROM \"{table}\" WHERE _locale NOT IN ({})", marks.join(", "));
                Reply::Count(self.execute(&sql, &params)? as u64)
            }
            Request::Begin => {
                self.execute_batch("BEGIN IMMEDIATE")?;
                Reply::Done
            }
            Request::Commit => {
                self.execute_batch("COMMIT")?;
                Reply::Done
            }
            Request::Rollback => {
                self.execute_batch("ROLLBACK")?;
                Reply::Done
            }
            Request::BackfillRefCounts => {
                self.count_references(world)?;
                Reply::Done
            }
            Request::NeedsRebuild { .. } => Reply::Flag(false),
            Request::SyncCollection { slug } => {
                let registry = world.registry.unwrap();
                let def = registry.collections.iter().find(|d| d.slug == *slug).unwrap();
                self.sync_collection_table(world, slug, def)?;
                Reply::Done
            }
            Request::SyncGlobal { slug } => {
                let registry = world.registry.unwrap();
                let def = registry.globals.iter().find(|d| d.slug == *slug).unwrap();
                let table = cms_db::names::global_table(slug);
                if !table_exists(self, &table)? {
                    create_parent_table(self, &table, &def.fields, &world.config)?;
                }
                self.run(|s| sync_join_tables_of(s, &table, &def.fields, &world.config))?;
                Reply::Done
            }
            Request::EnqueueImageConversions { job: name, queue, jobs, .. } => {
                for (i, job) in jobs.iter().enumerate() {
                    self.execute(
                        "INSERT INTO _crap_jobs (id, slug, queue, data) VALUES (?1, ?2, ?3, ?4)",
                        &[
                            DbValue::Text(format!("image{i}")),
                            DbValue::Text(name.clone()),
                            DbValue::Text(queue.clone()),
                            DbValue::Text(format!("{}:{}", job.source_path, job.quality)),
                        ],
                    )?;
                }
                Reply::Done
            }
            Request::SearchIndexShape { slug } => {
                let names = searched(world, slug);
                Reply::IndexShape { fingerprint: names.join(","), indexed: !names.is_empty() }
            }
            Request::SearchIndexExists { slug } => {
                Reply::Flag(table_exists(self, &format!("_fts_{slug}"))?)
            }
            Request::SyncSearchIndex { slug } => {
                self.execute_batch(&format!("DROP TABLE IF EXISTS \"_fts_{slug}\""))?;
                let names = searched(world, slug);
                if !names.is_empty() {
                    self.execute_batch(&format!(
                        "CREATE TABLE \"_fts_{slug}\" AS SELECT id, {} FROM \"{slug}\"",
                        names.join(", ")
                    ))?;
                }
                Reply::Done
            }
            Request::StoreNestedValues { values, .. } => Reply::Names(
                values
                    .iter()
                    .map(|v| in_utc(v).replace("\"featured\":\"on\"", "\"featured\":true"))
                    .collect(),
            ),
            Request::ConvertTimezoneDates { values, .. } => {
                Reply::Names(values.iter().map(|v| in_utc(v)).collect())
            }
            _ => Reply::Done,
        })
    }

    /// Counts how often each document is referred to.
    fn count_references(&self, world: &World) -> Result<(), DbError> {
        let registry = world.registry.unwrap();
        for target in &registry.collections {
            let mut counts = Vec::new();
            for def in &registry.collections {
                for field in &def.fields {
                    let rc = match &field.relationship {
                        Some(rc) if rc.collection == target.slug => rc,
                        _ => continue,
                    };
                    let own = get_table_columns(self, &def.slug)?;
                    let (table, column) = if rc.has_many {
                        (format!("{}_{}", def.slug, field.name), "related_id")
                    } else if own.contains(&field.name) {
                        (def.slug.clone(), field.name.as_str())
                    } else {
                        continue;
                    };
                    counts.push(format!(
                        "(SELECT COUNT(*) FROM \"{table}\" j WHERE j.\"{column}\" = \"{}\".id)",
                        target.slug
                    ));
                }
            }
            if !counts.is_empty() {
                self.execute_batch(&format!(
                    "UPDATE \"{}\" SET _ref_count = {}",
                    target.slug,
                    counts.join(" + ")
                ))?;
            }
        }
        Ok(())
    }

    /// Creates a collection's own table where there is none, and syncs what
    /// belongs to it.
    fn sync_collection_table(
        &self,
        world: &World,
        slug: &str,
        def: &CollectionDefinition,
    ) -> Result<(), DbError> {
        if !table_exists(self, slug)? {
            create_parent_table(self, slug, &def.fields, &world.config)?;
        } else {
            let existing = get_table_columns(self, slug)?;
            for (name, kind) in parent_columns(&def.fields, &world.config)? {
                if !existing.contains(&name) {
                    self.execute_batch(&format!(
                        "ALTER TABLE \"{slug}\" ADD COLUMN \"{name}\" {kind}"
                    ))?;
                }
            }
        }
        self.run(|s| sync_join_tables_of(s, slug, &def.fields, &world.config))?;
        if def.versions.is_some() {
            self.run(|s| sync_versions_of(s, slug))?;
        }
        Ok(())
    }
}

/// The names of a collection's text fields.
fn searched(world: &World, slug: &str) -> Vec<String> {
    let registry = world.registry.unwrap();
    let def = registry.collections.iter().find(|d| d.slug == *slug).unwrap();
    def.fields
        .iter()
        .filter(|f| f.field_type == FieldType::Text)
        .map(|f| f.name.clone())
        .collect()
}

/// Nine in the morning in Berlin in January, as stored.
fn in_utc(value: &str) -> String {
    value.replace("\"2024-01-15T09:00\"", "\"2024-01-15T08:00:00.000Z\"")
}

/// The columns of the table a collection's or global's own values are kept in.
fn parent_columns(
    fields: &Vec<FieldDefinition>,
    config: &LocaleConfig,
) -> Result<Vec<(String, String)>, DbError> {
    let mut columns = Vec::new();
    for spec in collect_column_specs(fields, config) {
        let names = if spec.is_localized {
            config
                .locales
                .iter()
                .map(|l| cms_db::names::locale_column(&spec.col_name, l))
                .collect::<Result<Vec<String>, DbError>>()?
        } else {
            vec![spec.col_name.clone()]
        };
        for name in names {
            columns.push((name, spec.ddl_type(Dialect::Sqlite).to_string()));
        }
    }
    Ok(columns)
}

/// Creates the table a collection's or global's own values are kept in.
fn create_parent_table(
    conn: &Conn,
    table: &str,
    fields: &Vec<FieldDefinition>,
    config: &LocaleConfig,
) -> Result<(), DbError> {
    let mut columns = vec!["id TEXT PRIMARY KEY".to_string()];
    for (name, kind) in parent_columns(fields, config)? {
        columns.push(format!("\"{name}\" {kind}"));
    }
    columns.push("_ref_count INTEGER DEFAULT 0".to_string());
    columns.push("created_at TEXT".to_string());
    columns.push("updated_at TEXT".to_string());
    conn.execute_batch(&format!("CREATE TABLE \"{table}\" ({})", columns.join(", ")))
}

fn create_collection_table(
    conn: &Conn,
    slug: &str,
    def: &CollectionDefinition,
    config: &LocaleConfig,
) -> Result<(), DbError> {
    create_parent_table(conn, slug, &def.fields, config)
}

/// Sets the parts of a field one after another.
struct FieldBuilder(FieldDefinition);

impl FieldBuilder {
    fn localized(mut self, localized: bool) -> Self {
        self.0.localized = localized;
        self
    }

    fn has_many(mut self, has_many: bool) -> Self {
        self.0.has_many = has_many;
        self
    }

    fn timezone(mut self, timezone: bool) -> Self {
        self.0.timezone = timezone;
        self
    }

    fn languages(mut self, languages: Vec<String>) -> Self {
        self.0.languages = languages;
        self
    }

    fn relationship(mut self, relationship: RelationshipConfig) -> Self {
        self.0.relationship = Some(relationship);
        self
    }

    fn fields(mut self, fields: Vec<FieldDefinition>) -> Self {
        self.0.fields = fields;
        self
    }

    fn tabs(mut self, tabs: Vec<FieldTab>) -> Self {
        self.0.tabs = tabs;
        self
    }

    fn blocks(mut self, blocks: Vec<BlockDefinition>) -> Self {
        self.0.blocks = blocks;
        self
    }

    fn build(self) -> FieldDefinition {
        self.0
    }
}

trait Build {
    fn builder(name: &str, field_type: FieldType) -> FieldBuilder;
}

impl Build for FieldDefinition {
    fn builder(name: &str, field_type: FieldType) -> FieldBuilder {
        FieldBuilder(FieldDefinition::new(name, field_type))
    }
}

fn no_locale() -> LocaleConfig {
    LocaleConfig::disabled()
}

fn locale_en_de() -> LocaleConfig {
    LocaleConfig {
        default_locale: "en".to_string(),
        locales: vec!["en".to_string(), "de".to_string()],
        fallback: true,
    }
}

fn simple_collection(slug: &str, fields: Vec<FieldDefinition>) -> CollectionDefinition {
    let mut def = CollectionDefinition::new(slug);
    def.fields = fields;
    def
}

fn text_field(name: &str) -> FieldDefinition {
    FieldDefinition::builder(name, FieldType::Text).build()
}

fn table_exists(conn: &Conn, name: &str) -> Result<bool, DbError> {
    conn.run(|s| cms_db::migrate::helpers::introspection::table_exists(s, name))
}

fn get_table_columns(conn: &Conn, table: &str) -> Result<HashSet<String>, DbError> {
    let columns =
        conn.run(|s| cms_db::migrate::helpers::introspection::get_table_columns(s, table))?;
    Ok(columns.into_iter().collect())
}

fn sync_join_tables(
    conn: &Conn,
    slug: &str,
    fields: &Vec<FieldDefinition>,
    config: &LocaleConfig,
) -> Result<(), DbError> {
    conn.run(|s| sync_join_tables_of(s, slug, fields, config))
}

/// A registry's definitions, synced with the database behind a pool.
fn sync_all(pool: &Pool, registry: &Registry, config: &LocaleConfig) -> Result<(), DbError> {
    let world = World { registry: Some(registry), config: config.copy() };
    let source = DbPool::from_backend(Dialect::Sqlite);
    pool.get()?.run_in(&world, |s| cms_db::migrate::sync::sync_all(&source, s, registry, config))
}

fn find_related_ids(
    conn: &Conn,
    slug: &str,
    field: &str,
    parent: &str,
    locale: Option<&str>,
) -> Result<Vec<String>, DbError> {
    let mut params = vec![DbValue::Text(parent.to_string())];
    let mut filter = String::new();
    if let Some(locale) = locale {
        params.push(DbValue::Text(locale.to_string()));
        filter = " AND _locale = ?2".to_string();
    }
    conn.texts(
        &format!(
            "SELECT related_id FROM \"{slug}_{field}\" WHERE parent_id = ?1{filter} ORDER BY _order"
        ),
        &params,
    )
}

fn set_related_ids(
    conn: &Conn,
    slug: &str,
    field: &str,
    parent: &str,
    ids: &[String],
    locale: Option<&str>,
) -> Result<(), DbError> {
    for (i, id) in ids.iter().enumerate() {
        let mut columns = "parent_id, related_id, _order".to_string();
        let mut values = "?1, ?2, ?3".to_string();
        let mut params = vec![
            DbValue::Text(parent.to_string()),
            DbValue::Text(id.clone()),
            DbValue::Integer(i as i64),
        ];
        if let Some(locale) = locale {
            columns.push_str(", _locale");
            values.push_str(", ?4");
            params.push(DbValue::Text(locale.to_string()));
        }
        conn.execute(
            &format!("INSERT INTO \"{slug}_{field}\" ({columns}) VALUES ({values})"),
            &params,
        )?;
    }
    Ok(())
}

const PREFIX: &str = "idx__rows_";
const LOCALIZED_PREFIX: &str = "idx__lrows_";

fn table_constraints(
    conn: &Conn,
    table: &str,
    kind: ConstraintKind,
) -> Result<Vec<TableConstraint>, DbError> {
    conn.run(|s| cms_db::migrate::helpers::introspection::table_constraints(s, table, kind))
}

fn reconcile_junction_shape(
    conn: &Conn,
    table: &str,
    slug: &str,
    shape: &JunctionShape,
) -> Result<(), DbError> {
    conn.run(|s| {
        cms_db::migrate::join_tables::junction_shape::reconcile_junction_shape(
            s, table, slug, shape,
        )
    })
}

fn get_table_column_types(conn: &Conn, table: &str) -> Result<HashMap<String, String>, DbError> {
    let types =
        conn.run(|s| cms_db::migrate::helpers::introspection::get_table_column_types(s, table))?;
    Ok(types.into_iter().collect())
}

/// Rebuilds a junction that becomes polymorphic.
fn rebuild_junction_table_for_polymorphic(
    conn: &Conn,
    table: &str,
    slug: &str,
    localized: bool,
) -> Result<(), DbError> {
    let locale = if localized { Some("en".to_string()) } else { None };
    reconcile_junction_shape(conn, table, slug, &JunctionShape::new(true, locale))
}


fn code_lang_array(name: &str) -> FieldDefinition {
    FieldDefinition::builder(name, FieldType::Array)
        .fields(vec![
            FieldDefinition::builder("snippet", FieldType::Code)
                .languages(vec!["javascript".to_string(), "python".to_string()])
                .build(),
        ])
        .build()
}

/// An `items` array whose row holds a number, a text and a select list.
fn scalar_list_array() -> FieldDefinition {
    let list =
        |name: &str, ft: FieldType| FieldDefinition::builder(name, ft).has_many(true).build();

    FieldDefinition::builder("items", FieldType::Array)
        .fields(vec![
            list("scores", FieldType::Number),
            list("tags", FieldType::Text),
            list("kinds", FieldType::Select),
        ])
        .build()
}

#[test]
fn array_array_field_creates_join_table() {
    let (_dir, pool) = in_memory_pool();
    let conn = pool.get().unwrap();
    let def = simple_collection(
        "posts",
        vec![
            FieldDefinition::builder("items", FieldType::Array)
                .fields(vec![text_field("name")])
                .build(),
        ],
    );
    create_collection_table(&conn, "posts", &def, &no_locale()).unwrap();
    sync_join_tables(&conn, "posts", &def.fields, &no_locale()).unwrap();

    assert!(table_exists(&conn, "posts_items").unwrap());
    let cols = get_table_columns(&conn, "posts_items").unwrap();
    assert!(cols.contains("id"));
    assert!(cols.contains("parent_id"));
    assert!(cols.contains("_order"));
    assert!(cols.contains("name"));
}

#[test]
fn array_array_inside_row_creates_join_table() {
    let (_dir, pool) = in_memory_pool();
    let conn = pool.get().unwrap();

    let array_field = FieldDefinition::builder("items", FieldType::Array)
        .fields(vec![text_field("label"), text_field("value")])
        .build();
    let row_field = FieldDefinition::builder("main_row", FieldType::Row)
        .fields(vec![array_field])
        .build();
    let def = simple_collection("posts", vec![text_field("title"), row_field]);
    create_collection_table(&conn, "posts", &def, &no_locale()).unwrap();
    sync_join_tables(&conn, "posts", &def.fields, &no_locale()).unwrap();

    assert!(
        table_exists(&conn, "posts_items").unwrap(),
        "array table inside Row must be created"
    );
    let cols = get_table_columns(&conn, "posts_items").unwrap();
    assert!(cols.contains("parent_id"));
    assert!(cols.contains("label"));
    assert!(cols.contains("value"));
}

#[test]
fn array_localized_array_creates_table_with_locale() {
    let (_dir, pool) = in_memory_pool();
    let conn = pool.get().unwrap();
    let def = simple_collection(
        "posts",
        vec![
            FieldDefinition::builder("items", FieldType::Array)
                .localized(true)
                .fields(vec![text_field("label")])
                .build(),
        ],
    );
    create_collection_table(&conn, "posts", &def, &locale_en_de()).unwrap();
    sync_join_tables(&conn, "posts", &def.fields, &locale_en_de()).unwrap();

    assert!(table_exists(&conn, "posts_items").unwrap());
    let cols = get_table_columns(&conn, "posts_items").unwrap();
    assert!(cols.contains("_locale"));
}

#[test]
fn array_existing_array_adds_new_subfield_columns() {
    let (_dir, pool) = in_memory_pool();
    let conn = pool.get().unwrap();
    conn.execute("CREATE TABLE posts (id TEXT PRIMARY KEY)", &[])
        .unwrap();
    conn.execute("CREATE TABLE posts_items (id TEXT PRIMARY KEY, parent_id TEXT, _order INTEGER, label TEXT)", &[]).unwrap();

    let def = simple_collection(
        "posts",
        vec![
            FieldDefinition::builder("items", FieldType::Array)
                .fields(vec![text_field("label"), text_field("value")])
                .build(),
        ],
    );
    sync_join_tables(&conn, "posts", &def.fields, &no_locale()).unwrap();

    let cols = get_table_columns(&conn, "posts_items").unwrap();
    assert!(
        cols.contains("value"),
        "New sub-field column should be added"
    );
}

#[test]
fn array_existing_array_adds_locale_column() {
    let (_dir, pool) = in_memory_pool();
    let conn = pool.get().unwrap();
    conn.execute("CREATE TABLE posts (id TEXT PRIMARY KEY)", &[])
        .unwrap();
    conn.execute("CREATE TABLE posts_items (id TEXT PRIMARY KEY, parent_id TEXT, _order INTEGER, label TEXT)", &[]).unwrap();

    let def = simple_collection(
        "posts",
        vec![
            FieldDefinition::builder("items", FieldType::Array)
                .localized(true)
                .fields(vec![text_field("label")])
                .build(),
        ],
    );
    sync_join_tables(&conn, "posts", &def.fields, &locale_en_de()).unwrap();

    let cols = get_table_columns(&conn, "posts_items").unwrap();
    assert!(cols.contains("_locale"));
}

#[test]
fn array_array_with_tabs_creates_flat_columns() {
    let (_dir, pool) = in_memory_pool();
    let conn = pool.get().unwrap();

    let array_field = FieldDefinition::builder("items", FieldType::Array)
        .fields(vec![
            text_field("plain"),
            FieldDefinition::builder("layout", FieldType::Tabs)
                .tabs(vec![
                    FieldTab::new("General", vec![text_field("title")]),
                    FieldTab::new("Content", vec![text_field("body")]),
                ])
                .build(),
        ])
        .build();
    let def = simple_collection("posts", vec![text_field("name"), array_field]);
    create_collection_table(&conn, "posts", &def, &no_locale()).unwrap();
    sync_join_tables(&conn, "posts", &def.fields, &no_locale()).unwrap();

    assert!(table_exists(&conn, "posts_items").unwrap());
    let cols = get_table_columns(&conn, "posts_items").unwrap();
    assert!(cols.contains("plain"), "plain sub-field column");
    assert!(cols.contains("title"), "title from tabs should be promoted");
    assert!(cols.contains("body"), "body from tabs should be promoted");
    assert!(
        !cols.contains("layout"),
        "layout wrapper should NOT be a column"
    );
}

#[test]
fn array_group_array_creates_prefixed_join_table() {
    let (_dir, pool) = in_memory_pool();
    let conn = pool.get().unwrap();
    let def = simple_collection(
        "posts",
        vec![
            FieldDefinition::builder("config", FieldType::Group)
                .fields(vec![
                    FieldDefinition::builder("items", FieldType::Array)
                        .fields(vec![
                            text_field("name"),
                            FieldDefinition::builder("score", FieldType::Number).build(),
                        ])
                        .build(),
                ])
                .build(),
        ],
    );
    create_collection_table(&conn, "posts", &def, &no_locale()).unwrap();
    sync_join_tables(&conn, "posts", &def.fields, &no_locale()).unwrap();

    assert!(
        table_exists(&conn, "posts_config__items").unwrap(),
        "Group > Array should create prefixed join table posts_config__items"
    );
    let cols = get_table_columns(&conn, "posts_config__items").unwrap();
    assert!(cols.contains("name"), "should have name column");
    assert!(cols.contains("score"), "should have score column");
    assert!(cols.contains("parent_id"));
    assert!(cols.contains("_order"));
}

#[test]
fn array_group_array_localized_creates_table_with_locale() {
    let (_dir, pool) = in_memory_pool();
    let conn = pool.get().unwrap();
    let def = simple_collection(
        "posts",
        vec![
            FieldDefinition::builder("config", FieldType::Group)
                .fields(vec![
                    FieldDefinition::builder("items", FieldType::Array)
                        .localized(true)
                        .fields(vec![text_field("label")])
                        .build(),
                ])
                .build(),
        ],
    );
    create_collection_table(&conn, "posts", &def, &locale_en_de()).unwrap();
    sync_join_tables(&conn, "posts", &def.fields, &locale_en_de()).unwrap();

    assert!(
        table_exists(&conn, "posts_config__items").unwrap(),
        "Group > localized Array should create prefixed join table"
    );
    let cols = get_table_columns(&conn, "posts_config__items").unwrap();
    assert!(
        cols.contains("_locale"),
        "localized Array inside Group should have _locale column"
    );
    assert!(cols.contains("label"));
}

#[test]
fn array_group_group_array_creates_deeply_prefixed_join_table() {
    let (_dir, pool) = in_memory_pool();
    let conn = pool.get().unwrap();
    let def = simple_collection(
        "posts",
        vec![
            FieldDefinition::builder("outer", FieldType::Group)
                .fields(vec![
                    FieldDefinition::builder("inner", FieldType::Group)
                        .fields(vec![
                            FieldDefinition::builder("items", FieldType::Array)
                                .fields(vec![text_field("name")])
                                .build(),
                        ])
                        .build(),
                ])
                .build(),
        ],
    );
    create_collection_table(&conn, "posts", &def, &no_locale()).unwrap();
    sync_join_tables(&conn, "posts", &def.fields, &no_locale()).unwrap();

    assert!(
        table_exists(&conn, "posts_outer__inner__items").unwrap(),
        "Group > Group > Array should create double-prefixed join table"
    );
    let cols = get_table_columns(&conn, "posts_outer__inner__items").unwrap();
    assert!(cols.contains("name"));
    assert!(cols.contains("parent_id"));
    assert!(cols.contains("_order"));
}

#[test]
fn array_array_with_row_creates_flat_columns() {
    let (_dir, pool) = in_memory_pool();
    let conn = pool.get().unwrap();

    let array_field = FieldDefinition::builder("items", FieldType::Array)
        .fields(vec![
            FieldDefinition::builder("row_wrap", FieldType::Row)
                .fields(vec![text_field("x"), text_field("y")])
                .build(),
        ])
        .build();
    let def = simple_collection("posts", vec![array_field]);
    create_collection_table(&conn, "posts", &def, &no_locale()).unwrap();
    sync_join_tables(&conn, "posts", &def.fields, &no_locale()).unwrap();

    let cols = get_table_columns(&conn, "posts_items").unwrap();
    assert!(cols.contains("x"), "x from row should be promoted");
    assert!(cols.contains("y"), "y from row should be promoted");
    assert!(
        !cols.contains("row_wrap"),
        "row wrapper should NOT be a column"
    );
}

#[test]
fn array_array_date_with_timezone_creates_tz_column() {
    let (_dir, pool) = in_memory_pool();
    let conn = pool.get().unwrap();

    let array_field = FieldDefinition::builder("events", FieldType::Array)
        .fields(vec![
            text_field("title"),
            FieldDefinition::builder("scheduled_at", FieldType::Date)
                .timezone(true)
                .build(),
        ])
        .build();
    let def = simple_collection("posts", vec![array_field]);
    create_collection_table(&conn, "posts", &def, &no_locale()).unwrap();
    sync_join_tables(&conn, "posts", &def.fields, &no_locale()).unwrap();

    let cols = get_table_columns(&conn, "posts_events").unwrap();
    assert!(cols.contains("scheduled_at"), "date column should exist");
    assert!(
        cols.contains("scheduled_at_tz"),
        "timezone companion column should exist for Date+timezone in array"
    );
}

#[test]
fn array_existing_array_adds_tz_column_on_alter() {
    let (_dir, pool) = in_memory_pool();
    let conn = pool.get().unwrap();

    conn.execute("CREATE TABLE posts (id TEXT PRIMARY KEY)", &[])
        .unwrap();
    conn.execute(
    "CREATE TABLE posts_events (id TEXT PRIMARY KEY, parent_id TEXT, _order INTEGER, title TEXT)",
    &[],
)
.unwrap();

    let array_field = FieldDefinition::builder("events", FieldType::Array)
        .fields(vec![
            text_field("title"),
            FieldDefinition::builder("scheduled_at", FieldType::Date)
                .timezone(true)
                .build(),
        ])
        .build();
    let def = simple_collection("posts", vec![array_field]);
    sync_join_tables(&conn, "posts", &def.fields, &no_locale()).unwrap();

    let cols = get_table_columns(&conn, "posts_events").unwrap();
    assert!(cols.contains("scheduled_at"), "date column should be added");
    assert!(
        cols.contains("scheduled_at_tz"),
        "timezone companion column should be added on alter"
    );
}

#[test]
fn array_code_with_languages_creates_lang_column() {
    let (_dir, pool) = in_memory_pool();
    let conn = pool.get().unwrap();

    let def = simple_collection("posts", vec![code_lang_array("examples")]);
    create_collection_table(&conn, "posts", &def, &no_locale()).unwrap();
    sync_join_tables(&conn, "posts", &def.fields, &no_locale()).unwrap();

    let cols = get_table_columns(&conn, "posts_examples").unwrap();
    assert!(cols.contains("snippet"));
    assert!(
        cols.contains("snippet_lang"),
        "language companion column should exist for a code field in an array"
    );
}

#[test]
fn existing_array_adds_lang_column_on_alter() {
    let (_dir, pool) = in_memory_pool();
    let conn = pool.get().unwrap();

    conn.execute("CREATE TABLE posts (id TEXT PRIMARY KEY)", &[])
        .unwrap();
    conn.execute(
        "CREATE TABLE posts_examples (id TEXT PRIMARY KEY, parent_id TEXT, _order INTEGER, snippet TEXT)",
        &[],
    )
    .unwrap();

    let def = simple_collection("posts", vec![code_lang_array("examples")]);
    sync_join_tables(&conn, "posts", &def.fields, &no_locale()).unwrap();

    let cols = get_table_columns(&conn, "posts_examples").unwrap();
    assert!(
        cols.contains("snippet_lang"),
        "language companion column should be added on alter"
    );
}

#[test]
fn array_localized_group_array_inherits_locale_column() {
    let (_dir, pool) = in_memory_pool();
    let conn = pool.get().unwrap();

    let def = simple_collection(
        "posts",
        vec![
            FieldDefinition::builder("meta", FieldType::Group)
                .localized(true)
                .fields(vec![
                    FieldDefinition::builder("items", FieldType::Array)
                        .fields(vec![text_field("label")])
                        .build(),
                ])
                .build(),
        ],
    );
    create_collection_table(&conn, "posts", &def, &locale_en_de()).unwrap();
    sync_join_tables(&conn, "posts", &def.fields, &locale_en_de()).unwrap();

    let cols = get_table_columns(&conn, "posts_meta__items").unwrap();
    assert!(
        cols.contains("_locale"),
        "Array inside localized Group should inherit _locale column"
    );
}

/// A column added to an existing array table for a scalar has-many
/// sub-field is `TEXT` too.
#[test]
fn scalar_list_sub_fields_are_text_columns_and_round_trip() {
    let (_dir, pool) = in_memory_pool();
    let conn = pool.get().unwrap();
    let def = simple_collection("posts", vec![scalar_list_array()]);
    create_collection_table(&conn, "posts", &def, &no_locale()).unwrap();
    sync_join_tables(&conn, "posts", &def.fields, &no_locale()).unwrap();
    conn.execute("INSERT INTO posts (id) VALUES ('p1')", &[]).unwrap();

    let types = get_table_column_types(&conn, "posts_items").unwrap();
    for col in ["scores", "tags", "kinds"] {
        assert!(types[col].eq_ignore_ascii_case("TEXT"), "{col}: {}", types[col]);
    }

    conn.execute(
        "INSERT INTO posts_items (id, parent_id, scores, tags, kinds) \
         VALUES ('r1', 'p1', '[1,2.5]', '[\"a\",\"b\"]', '[\"x\"]')",
        &[],
    )
    .unwrap();
    let stored = |col: &str| {
        let sql = format!("SELECT \"{col}\" FROM posts_items WHERE id = 'r1'");
        conn.texts(&sql, &[]).unwrap()
    };
    assert_eq!(stored("scores"), ["[1,2.5]"]);
    assert_eq!(stored("tags"), ["[\"a\",\"b\"]"]);
    assert_eq!(stored("kinds"), ["[\"x\"]"]);

    conn.execute(
        "UPDATE posts_items SET scores = '[3]', tags = '[]', kinds = '[\"y\",\"z\"]'",
        &[],
    )
    .unwrap();
    assert_eq!(stored("scores"), ["[3]"]);
    assert_eq!(stored("tags"), ["[]"]);
    assert_eq!(stored("kinds"), ["[\"y\",\"z\"]"]);
}

#[test]
fn existing_array_adds_scalar_list_columns_as_text() {
    let (_dir, pool) = in_memory_pool();
    let conn = pool.get().unwrap();
    conn.execute("CREATE TABLE posts (id TEXT PRIMARY KEY)", &[])
        .unwrap();
    conn.execute(
        "CREATE TABLE posts_items (id TEXT PRIMARY KEY, parent_id TEXT, _order INTEGER)",
        &[],
    )
    .unwrap();

    let def = simple_collection("posts", vec![scalar_list_array()]);
    sync_join_tables(&conn, "posts", &def.fields, &no_locale()).unwrap();

    let types = get_table_column_types(&conn, "posts_items").unwrap();
    assert!(
        types["scores"].eq_ignore_ascii_case("TEXT"),
        "{}",
        types["scores"]
    );
}

#[test]
fn blocks_blocks_field_creates_join_table() {
    let (_dir, pool) = in_memory_pool();
    let conn = pool.get().unwrap();
    let def = simple_collection(
        "posts",
        vec![FieldDefinition::builder("content", FieldType::Blocks).build()],
    );
    create_collection_table(&conn, "posts", &def, &no_locale()).unwrap();
    sync_join_tables(&conn, "posts", &def.fields, &no_locale()).unwrap();

    assert!(table_exists(&conn, "posts_content").unwrap());
    let cols = get_table_columns(&conn, "posts_content").unwrap();
    assert!(cols.contains("id"));
    assert!(cols.contains("parent_id"));
    assert!(cols.contains("_block_type"));
    assert!(cols.contains("data"));
}

#[test]
fn blocks_blocks_inside_tabs_creates_join_table() {
    let (_dir, pool) = in_memory_pool();
    let conn = pool.get().unwrap();

    let blocks_field = FieldDefinition::builder("content", FieldType::Blocks).build();
    let tabs_field = FieldDefinition::builder("page_settings", FieldType::Tabs)
        .tabs(vec![FieldTab::new("Content", vec![blocks_field])])
        .build();
    let def = simple_collection(
        "posts",
        vec![
            FieldDefinition::builder("title", FieldType::Text).build(),
            tabs_field,
        ],
    );
    create_collection_table(&conn, "posts", &def, &no_locale()).unwrap();
    sync_join_tables(&conn, "posts", &def.fields, &no_locale()).unwrap();

    assert!(
        table_exists(&conn, "posts_content").unwrap(),
        "blocks table inside Tabs must be created"
    );
    let cols = get_table_columns(&conn, "posts_content").unwrap();
    assert!(cols.contains("_block_type"));
    assert!(cols.contains("data"));
}

#[test]
fn blocks_blocks_inside_collapsible_creates_join_table() {
    let (_dir, pool) = in_memory_pool();
    let conn = pool.get().unwrap();

    let blocks_field = FieldDefinition::builder("content", FieldType::Blocks).build();
    let collapsible_field = FieldDefinition::builder("advanced", FieldType::Collapsible)
        .fields(vec![blocks_field])
        .build();
    let def = simple_collection("posts", vec![text_field("title"), collapsible_field]);
    create_collection_table(&conn, "posts", &def, &no_locale()).unwrap();
    sync_join_tables(&conn, "posts", &def.fields, &no_locale()).unwrap();

    assert!(
        table_exists(&conn, "posts_content").unwrap(),
        "blocks table inside Collapsible must be created"
    );
    let cols = get_table_columns(&conn, "posts_content").unwrap();
    assert!(cols.contains("_block_type"));
    assert!(cols.contains("data"));
}

#[test]
fn blocks_localized_blocks_creates_table_with_locale() {
    let (_dir, pool) = in_memory_pool();
    let conn = pool.get().unwrap();
    let def = simple_collection(
        "posts",
        vec![
            FieldDefinition::builder("content", FieldType::Blocks)
                .localized(true)
                .build(),
        ],
    );
    create_collection_table(&conn, "posts", &def, &locale_en_de()).unwrap();
    sync_join_tables(&conn, "posts", &def.fields, &locale_en_de()).unwrap();

    assert!(table_exists(&conn, "posts_content").unwrap());
    let cols = get_table_columns(&conn, "posts_content").unwrap();
    assert!(cols.contains("_locale"));
}

#[test]
fn blocks_existing_blocks_adds_locale_column() {
    let (_dir, pool) = in_memory_pool();
    let conn = pool.get().unwrap();
    conn.execute("CREATE TABLE posts (id TEXT PRIMARY KEY)", &[])
        .unwrap();
    conn.execute(
    "CREATE TABLE posts_content (id TEXT PRIMARY KEY, parent_id TEXT, _order INTEGER, _block_type TEXT, data TEXT)",
    &[],
).unwrap();

    let def = simple_collection(
        "posts",
        vec![
            FieldDefinition::builder("content", FieldType::Blocks)
                .localized(true)
                .build(),
        ],
    );
    sync_join_tables(&conn, "posts", &def.fields, &locale_en_de()).unwrap();

    let cols = get_table_columns(&conn, "posts_content").unwrap();
    assert!(cols.contains("_locale"));
}

#[test]
fn blocks_group_blocks_creates_prefixed_join_table() {
    let (_dir, pool) = in_memory_pool();
    let conn = pool.get().unwrap();
    let def = simple_collection(
        "posts",
        vec![
            FieldDefinition::builder("config", FieldType::Group)
                .fields(vec![
                    FieldDefinition::builder("content", FieldType::Blocks).build(),
                ])
                .build(),
        ],
    );
    create_collection_table(&conn, "posts", &def, &no_locale()).unwrap();
    sync_join_tables(&conn, "posts", &def.fields, &no_locale()).unwrap();

    assert!(
        table_exists(&conn, "posts_config__content").unwrap(),
        "Group > Blocks should create prefixed join table posts_config__content"
    );
    let cols = get_table_columns(&conn, "posts_config__content").unwrap();
    assert!(
        cols.contains("_block_type"),
        "should have _block_type column"
    );
    assert!(cols.contains("data"), "should have data column");
}

#[test]
fn blocks_group_group_blocks_creates_deeply_prefixed_join_table() {
    let (_dir, pool) = in_memory_pool();
    let conn = pool.get().unwrap();
    let def = simple_collection(
        "posts",
        vec![
            FieldDefinition::builder("outer", FieldType::Group)
                .fields(vec![
                    FieldDefinition::builder("inner", FieldType::Group)
                        .fields(vec![
                            FieldDefinition::builder("content", FieldType::Blocks).build(),
                        ])
                        .build(),
                ])
                .build(),
        ],
    );
    create_collection_table(&conn, "posts", &def, &no_locale()).unwrap();
    sync_join_tables(&conn, "posts", &def.fields, &no_locale()).unwrap();

    assert!(
        table_exists(&conn, "posts_outer__inner__content").unwrap(),
        "Group > Group > Blocks should create double-prefixed join table"
    );
    let cols = get_table_columns(&conn, "posts_outer__inner__content").unwrap();
    assert!(cols.contains("_block_type"));
    assert!(cols.contains("data"));
}

#[test]
fn blocks_localized_group_blocks_inherits_locale_column() {
    let (_dir, pool) = in_memory_pool();
    let conn = pool.get().unwrap();

    let def = simple_collection(
        "posts",
        vec![
            FieldDefinition::builder("meta", FieldType::Group)
                .localized(true)
                .fields(vec![
                    FieldDefinition::builder("content", FieldType::Blocks).build(),
                ])
                .build(),
        ],
    );
    create_collection_table(&conn, "posts", &def, &locale_en_de()).unwrap();
    sync_join_tables(&conn, "posts", &def.fields, &locale_en_de()).unwrap();

    let cols = get_table_columns(&conn, "posts_meta__content").unwrap();
    assert!(
        cols.contains("_locale"),
        "Blocks inside localized Group should inherit _locale column"
    );
}

fn tags(localized: bool) -> Vec<FieldDefinition> {
    vec![
        FieldDefinition::builder("tags", FieldType::Relationship)
            .localized(localized)
            .relationship(RelationshipConfig::new("tags", true))
            .build(),
    ]
}

fn stored_key(conn: &Conn, table: &str) -> Vec<String> {
    table_constraints(conn, table, ConstraintKind::PrimaryKey)
        .unwrap()
        .into_iter()
        .flat_map(|c| c.columns)
        .collect()
}

#[test]
fn a_junction_turned_localized_holds_the_same_id_per_locale() {
    let (_dir, pool) = in_memory_pool();
    let conn = pool.get().unwrap();
    let def = simple_collection("posts", tags(false));
    create_collection_table(&conn, "posts", &def, &no_locale()).unwrap();
    sync_join_tables(&conn, "posts", &def.fields, &no_locale()).unwrap();
    conn.execute("INSERT INTO posts (id) VALUES ('p1')", &[])
        .unwrap();
    set_related_ids(&conn, "posts", "tags", "p1", &["t1".to_string()], None).unwrap();

    sync_join_tables(&conn, "posts", &tags(true), &locale_en_de()).unwrap();
    assert_eq!(
        stored_key(&conn, "posts_tags"),
        vec!["parent_id", "related_id", "_locale"]
    );

    set_related_ids(
        &conn,
        "posts",
        "tags",
        "p1",
        &["t1".to_string()],
        Some("de"),
    )
    .expect("the same id in a second locale is a distinct row");

    for locale in ["en", "de"] {
        assert_eq!(
            find_related_ids(&conn, "posts", "tags", "p1", Some(locale)).unwrap(),
            vec!["t1"],
            "{locale}"
        );
    }
}

/// A junction already in its shape is left alone, and a key wider than
/// the shape's (localization turned off again) is not narrowed.
#[test]
fn a_junction_in_shape_is_not_rebuilt() {
    let (_dir, pool) = in_memory_pool();
    let conn = pool.get().unwrap();
    let def = simple_collection("posts", tags(true));
    create_collection_table(&conn, "posts", &def, &locale_en_de()).unwrap();
    sync_join_tables(&conn, "posts", &def.fields, &locale_en_de()).unwrap();
    conn.execute_batch(
        "INSERT INTO posts (id) VALUES ('p1'); \
         INSERT INTO posts_tags (parent_id, related_id, _locale) VALUES ('p1', 't1', 'de');",
    )
    .unwrap();

    let shape = JunctionShape::new(false, None);
    reconcile_junction_shape(&conn, "posts_tags", "posts", &shape).unwrap();

    assert_eq!(
        stored_key(&conn, "posts_tags"),
        vec!["parent_id", "related_id", "_locale"]
    );
    assert_eq!(
        find_related_ids(&conn, "posts", "tags", "p1", Some("de")).unwrap(),
        vec!["t1"],
        "no row is dropped"
    );
}

/// `posts` with a has-many `tags` relationship and an `items` array, both
/// `localized` as given, beside the `tags` collection they reference.
fn registry(localized: bool) -> Registry {
    let mut posts = CollectionDefinition::new("posts");
    posts.fields = vec![
        FieldDefinition::builder("tags", FieldType::Relationship)
            .localized(localized)
            .relationship(RelationshipConfig::new("tags", true))
            .build(),
        FieldDefinition::builder("items", FieldType::Array)
            .localized(localized)
            .fields(vec![
                FieldDefinition::builder("label", FieldType::Text).build(),
            ])
            .build(),
    ];

    let mut registry = Registry::new();
    registry.register_collection(CollectionDefinition::new("tags"));
    registry.register_collection(posts);

    registry
}

/// A localized post whose `en` and `de` lists name different tags and
/// hold different array rows.
fn seeded_localized(pool: &Pool) {
    sync_all(pool, &registry(true), &locale_en_de()).expect("localized sync");

    pool.get()
        .unwrap()
        .execute_batch(
            "INSERT INTO tags (id) VALUES ('t1'), ('t2'), ('t3');
             INSERT INTO posts (id) VALUES ('p1');
             INSERT INTO posts_tags (parent_id, related_id, _order, _locale) VALUES
               ('p1', 't1', 0, 'en'), ('p1', 't2', 1, 'en'),
               ('p1', 't2', 0, 'de'), ('p1', 't3', 1, 'de');
             INSERT INTO posts_items (id, parent_id, _order, _locale, label) VALUES
               ('i1', 'p1', 0, 'en', 'one'), ('i2', 'p1', 0, 'de', 'eins');
             UPDATE tags SET _ref_count = 1 WHERE id IN ('t1', 't3');
             UPDATE tags SET _ref_count = 2 WHERE id = 't2';",
        )
        .unwrap();
}

fn ref_count(pool: &Pool, id: &str) -> i64 {
    pool.get()
        .unwrap()
        .query_one(
            "SELECT _ref_count FROM tags WHERE id = ?1",
            &[DbValue::Text(id.to_string())],
        )
        .unwrap()
        .and_then(|row| row.i64_at(0))
        .unwrap()
}

fn item_labels(pool: &Pool) -> Vec<String> {
    pool.get()
        .unwrap()
        .query_all("SELECT label FROM posts_items ORDER BY _order, id", &[])
        .unwrap()
        .iter()
        .filter_map(|row| row.text_at(0))
        .collect()
}

#[test]
fn an_unlocalized_field_keeps_its_default_locales_rows() {
    let (_dir, pool) = in_memory_pool();
    seeded_localized(&pool);

    sync_all(&pool, &registry(false), &locale_en_de()).expect("unlocalized sync");

    let conn = pool.get().unwrap();
    assert_eq!(
        find_related_ids(&conn, "posts", "tags", "p1", None).unwrap(),
        vec!["t1", "t2"]
    );
    assert_eq!(item_labels(&pool), vec!["one"]);

    assert_eq!(ref_count(&pool, "t1"), 1);
    assert_eq!(ref_count(&pool, "t2"), 1, "the `de` reference is gone");
    assert_eq!(ref_count(&pool, "t3"), 0, "only `de` named it");
}

/// Turning localization off entirely narrows the same way.
#[test]
fn turning_localization_off_narrows_too() {
    let (_dir, pool) = in_memory_pool();
    seeded_localized(&pool);

    sync_all(&pool, &registry(true), &no_locale()).expect("sync without locales");

    let conn = pool.get().unwrap();
    assert_eq!(
        find_related_ids(&conn, "posts", "tags", "p1", None).unwrap(),
        vec!["t1", "t2"]
    );
}

/// Once narrowed, a later sync leaves the rows alone — also the ones a
/// write stored under the column's default, which need not be today's
/// default locale.
#[test]
fn a_table_is_narrowed_once() {
    let (_dir, pool) = in_memory_pool();
    seeded_localized(&pool);
    sync_all(&pool, &registry(false), &locale_en_de()).expect("unlocalized sync");

    pool.get()
        .unwrap()
        .execute(
            "INSERT INTO posts_items (id, parent_id, _order, _locale, label) \
             VALUES ('i3', 'p1', 1, 'de', 'written since')",
            &[],
        )
        .unwrap();

    sync_all(&pool, &registry(false), &locale_en_de()).expect("second sync");

    assert_eq!(item_labels(&pool), vec!["one", "written since"]);
}

/// A table with rows of other locales but none of the default one is
/// refused rather than emptied, and nothing is dropped.
#[test]
fn a_table_without_default_locale_rows_is_refused() {
    let (_dir, pool) = in_memory_pool();
    seeded_localized(&pool);
    pool.get()
        .unwrap()
        .execute("DELETE FROM posts_items WHERE _locale = 'en'", &[])
        .unwrap();

    let err =
        sync_all(&pool, &registry(false), &locale_en_de()).expect_err("no default-locale rows");
    let msg = err.message();

    assert!(
        msg.contains("posts_items") && msg.contains("de only"),
        "{msg}"
    );
    assert_eq!(item_labels(&pool), vec!["eins"], "nothing is dropped");
}

fn rel(name: &str) -> FieldDefinition {
    FieldDefinition::builder(name, FieldType::Relationship)
        .relationship(RelationshipConfig::new("tags", true))
        .build()
}

/// Flatten a plan into `(kind, full_name, has_locale_col)` for assertions.
fn plan_tuples(
    fields: &Vec<FieldDefinition>,
    cfg: &LocaleConfig,
) -> Vec<(JoinTableKind, String, bool)> {
    plan_join_tables(fields, cfg)
        .into_iter()
        .map(|p| (p.kind, p.full_name, p.has_locale_col))
        .collect()
}

fn enabled_locales() -> LocaleConfig {
    LocaleConfig {
        default_locale: "en".to_string(),
        locales: vec!["en".to_string(), "de".to_string()],
        fallback: true
    }
}

#[test]
fn plans_each_join_bearing_field_type() {
    let fields = vec![
        rel("tags"),
        FieldDefinition::builder("items", FieldType::Array).build(),
        FieldDefinition::builder("content", FieldType::Blocks).build(),
    ];
    assert_eq!(
        plan_tuples(&fields, &no_locale()),
        vec![
            (JoinTableKind::Relationship, "tags".into(), false),
            (JoinTableKind::Array, "items".into(), false),
            (JoinTableKind::Blocks, "content".into(), false),
        ]
    );
}

#[test]
fn group_prefixes_children_with_double_underscore() {
    let fields = vec![
        FieldDefinition::builder("meta", FieldType::Group)
            .fields(vec![rel("tags")])
            .build(),
    ];
    assert_eq!(
        plan_tuples(&fields, &no_locale()),
        vec![(JoinTableKind::Relationship, "meta__tags".into(), false)]
    );
}

#[test]
fn layout_wrappers_are_transparent_no_prefix() {
    let fields = vec![
        FieldDefinition::builder("row", FieldType::Row)
            .fields(vec![
                FieldDefinition::builder("items", FieldType::Array).build(),
            ])
            .build(),
    ];
    assert_eq!(
        plan_tuples(&fields, &no_locale()),
        vec![(JoinTableKind::Array, "items".into(), false)]
    );
}

#[test]
fn tabs_recurse_into_each_tab() {
    let fields = vec![
        FieldDefinition::builder("tabs", FieldType::Tabs)
            .tabs(vec![
                FieldTab::new("A", vec![rel("a_tags")]),
                FieldTab::new("B", vec![rel("b_tags")]),
            ])
            .build(),
    ];
    assert_eq!(
        plan_tuples(&fields, &no_locale()),
        vec![
            (JoinTableKind::Relationship, "a_tags".into(), false),
            (JoinTableKind::Relationship, "b_tags".into(), false),
        ]
    );
}

#[test]
fn localized_field_gets_locale_column_only_when_locales_enabled() {
    let localized_rel = FieldDefinition::builder("tags", FieldType::Relationship)
        .relationship(RelationshipConfig::new("tags", true))
        .localized(true)
        .build();
    let fields = vec![localized_rel];

    // Disabled config → no locale column even though the field is localized.
    assert_eq!(
        plan_tuples(&fields, &no_locale()),
        vec![(JoinTableKind::Relationship, "tags".into(), false)]
    );

    // Enabled config → locale column.
    assert_eq!(
        plan_tuples(&fields, &enabled_locales()),
        vec![(JoinTableKind::Relationship, "tags".into(), true)]
    );
}

#[test]
fn localized_group_propagates_locale_column_to_children() {
    let fields = vec![
        FieldDefinition::builder("meta", FieldType::Group)
            .localized(true)
            .fields(vec![rel("tags")]) // child not itself localized
            .build(),
    ];
    // Inherited localization → child join table still gets a locale column.
    assert_eq!(
        plan_tuples(&fields, &enabled_locales()),
        vec![(JoinTableKind::Relationship, "meta__tags".into(), true)]
    );
}

fn indexes(conn: &Conn, table: &str) -> Vec<String> {
    let mut names = conn.index_names(table, "idx__").unwrap();
    names.sort();
    names
}

fn indexed_columns(conn: &Conn, index: &str) -> Vec<String> {
    conn.query_all(
        "SELECT name FROM pragma_index_info(?1) ORDER BY seqno",
        &[DbValue::Text(index.to_string())],
    )
    .unwrap()
    .into_iter()
    .filter_map(|row| row.get_string("name").ok())
    .collect()
}

fn items(localized: bool) -> FieldDefinition {
    FieldDefinition::builder("items", FieldType::Array)
        .fields(vec![
            FieldDefinition::builder("label", FieldType::Text).build(),
        ])
        .localized(localized)
        .build()
}

fn content(localized: bool) -> FieldDefinition {
    FieldDefinition::builder("content", FieldType::Blocks)
        .blocks(vec![BlockDefinition::new("text", vec![])])
        .localized(localized)
        .build()
}

/// `posts` with an array whose row table's index name would pass 63 bytes,
/// and that row table's name.
fn long_items() -> (CollectionDefinition, String) {
    let name = "f".repeat(50);
    let field = FieldDefinition::builder(&name, FieldType::Array)
        .fields(vec![
            FieldDefinition::builder("label", FieldType::Text).build(),
        ])
        .build();

    (
        simple_collection("posts", vec![field]),
        format!("posts_{name}"),
    )
}

#[test]
fn names_are_disjoint_from_every_other_managed_index() {
    assert_eq!(
        row_parent_index_name("posts_items", false),
        "idx__rows_posts_items"
    );
    assert_eq!(
        row_parent_index_name("posts_items", true),
        "idx__lrows_posts_items"
    );

    // A localized table's name is never a plain table's name, whatever
    // the two tables are called.
    assert_ne!(
        row_parent_index_name("lposts_items", false),
        row_parent_index_name("posts_items", true)
    );

    for localized in [false, true] {
        let name = row_parent_index_name("posts_items", localized);
        assert!(!name.starts_with("idx__ver_"), "{name}");
        assert!(
            name.starts_with("idx__"),
            "{name}: a slug never starts with `_`"
        );
    }
}

#[test]
fn new_array_and_blocks_tables_get_a_parent_index() {
    let (_dir, pool) = in_memory_pool();
    let conn = pool.get().unwrap();
    let def = simple_collection("posts", vec![items(false), content(false)]);

    create_collection_table(&conn, "posts", &def, &no_locale()).unwrap();
    sync_join_tables(&conn, "posts", &def.fields, &no_locale()).unwrap();

    for table in ["posts_items", "posts_content"] {
        let name = row_parent_index_name(table, false);
        assert_eq!(indexes(&conn, table), vec![name.clone()], "{table}");
        assert_eq!(indexed_columns(&conn, &name), vec!["parent_id"], "{table}");
    }
}

#[test]
fn an_existing_table_gains_the_index_on_the_next_sync() {
    let (_dir, pool) = in_memory_pool();
    let conn = pool.get().unwrap();
    let def = simple_collection("posts", vec![items(false)]);

    create_collection_table(&conn, "posts", &def, &no_locale()).unwrap();
    conn.execute_ddl(
        "CREATE TABLE posts_items (id TEXT PRIMARY KEY, parent_id TEXT, _order INTEGER, \
         label TEXT)",
        &[],
    )
    .unwrap();
    assert!(indexes(&conn, "posts_items").is_empty());

    sync_join_tables(&conn, "posts", &def.fields, &no_locale()).unwrap();
    sync_join_tables(&conn, "posts", &def.fields, &no_locale()).unwrap();

    assert_eq!(
        indexes(&conn, "posts_items"),
        vec![row_parent_index_name("posts_items", false)]
    );
}

#[test]
fn a_localized_table_indexes_parent_and_locale() {
    let (_dir, pool) = in_memory_pool();
    let conn = pool.get().unwrap();
    let def = simple_collection("posts", vec![items(true), content(true)]);

    create_collection_table(&conn, "posts", &def, &locale_en_de()).unwrap();
    sync_join_tables(&conn, "posts", &def.fields, &locale_en_de()).unwrap();

    for table in ["posts_items", "posts_content"] {
        let name = row_parent_index_name(table, true);
        assert_eq!(indexes(&conn, table), vec![name.clone()], "{table}");
        assert_eq!(
            indexed_columns(&conn, &name),
            vec!["parent_id", "_locale"],
            "{table}"
        );
    }
}

/// Enabling localization on a field adds `_locale` to its row table; the
/// parent index follows, and the plain one is dropped.
#[test]
fn becoming_localized_swaps_the_index() {
    let (_dir, pool) = in_memory_pool();
    let conn = pool.get().unwrap();
    let plain = simple_collection("posts", vec![items(false)]);

    create_collection_table(&conn, "posts", &plain, &locale_en_de()).unwrap();
    sync_join_tables(&conn, "posts", &plain.fields, &locale_en_de()).unwrap();

    let localized = simple_collection("posts", vec![items(true)]);
    sync_join_tables(&conn, "posts", &localized.fields, &locale_en_de()).unwrap();

    assert_eq!(
        indexes(&conn, "posts_items"),
        vec![row_parent_index_name("posts_items", true)]
    );
}

/// A name that would pass 63 bytes is shortened deterministically, stays
/// distinct per table and per locale shape, and keeps its prefix.
#[test]
fn a_long_table_name_is_shortened_within_the_limit() {
    let long = format!("posts_{}", "f".repeat(50));
    let sibling = format!("posts_{}g", "f".repeat(49));

    for localized in [false, true] {
        let name = row_parent_index_name(&long, localized);

        assert!(name.len() <= MAX_NAME_BYTES, "{name}");
        assert_eq!(
            name,
            row_parent_index_name(&long, localized),
            "deterministic"
        );
        assert_ne!(name, row_parent_index_name(&sibling, localized), "{name}");
    }

    assert!(row_parent_index_name(&long, false).starts_with(PREFIX));
    assert!(row_parent_index_name(&long, true).starts_with(LOCALIZED_PREFIX));
    assert_ne!(
        row_parent_index_name(&long, false),
        row_parent_index_name(&long, true)
    );

    // A name that fits keeps the plain form.
    assert_eq!(
        row_parent_index_name("posts_items", false),
        "idx__rows_posts_items"
    );
}

#[test]
fn a_long_row_table_gets_its_parent_index() {
    let (_dir, pool) = in_memory_pool();
    let conn = pool.get().unwrap();
    let (def, table) = long_items();

    create_collection_table(&conn, "posts", &def, &no_locale()).unwrap();
    sync_join_tables(&conn, "posts", &def.fields, &no_locale()).unwrap();

    let name = row_parent_index_name(&table, false);
    assert_eq!(indexes(&conn, &table), vec![name.clone()]);
    assert_eq!(indexed_columns(&conn, &name), vec!["parent_id"]);
}

/// An index created under an earlier name form of the same table — the
/// full, unshortened name — is replaced by the current one.
#[test]
fn an_index_under_an_earlier_name_is_replaced() {
    let (_dir, pool) = in_memory_pool();
    let conn = pool.get().unwrap();
    let (def, table) = long_items();

    create_collection_table(&conn, "posts", &def, &no_locale()).unwrap();
    sync_join_tables(&conn, "posts", &def.fields, &no_locale()).unwrap();

    let earlier = format!("{PREFIX}{table}");
    conn.execute_ddl(
        &format!(
            "CREATE INDEX {} ON {} (parent_id)",
            quote_ident(&earlier),
            quote_ident(&table)
        ),
        &[],
    )
    .unwrap();

    sync_join_tables(&conn, "posts", &def.fields, &no_locale()).unwrap();

    assert_eq!(
        indexes(&conn, &table),
        vec![row_parent_index_name(&table, false)]
    );
}

#[test]
fn a_parent_lookup_uses_the_index() {
    let (_dir, pool) = in_memory_pool();
    let conn = pool.get().unwrap();
    let def = simple_collection("posts", vec![items(false)]);

    create_collection_table(&conn, "posts", &def, &no_locale()).unwrap();
    sync_join_tables(&conn, "posts", &def.fields, &no_locale()).unwrap();

    let plan: Vec<String> = conn
        .query_all(
            "EXPLAIN QUERY PLAN SELECT id FROM posts_items WHERE parent_id = 'p'",
            &[],
        )
        .unwrap()
        .into_iter()
        .filter_map(|row| row.get_string("detail").ok())
        .collect();

    let name = row_parent_index_name("posts_items", false);
    assert!(plan.iter().any(|step| step.contains(&name)), "{plan:?}");
}

#[test]
fn relationship_has_many_relationship_creates_junction_table() {
    let (_dir, pool) = in_memory_pool();
    let conn = pool.get().unwrap();
    let def = simple_collection(
        "posts",
        vec![
            FieldDefinition::builder("tags", FieldType::Relationship)
                .relationship(RelationshipConfig::new("tags", true))
                .build(),
        ],
    );
    // Need parent table first for FK
    create_collection_table(&conn, "posts", &def, &no_locale()).unwrap();
    sync_join_tables(&conn, "posts", &def.fields, &no_locale()).unwrap();

    assert!(table_exists(&conn, "posts_tags").unwrap());
    let cols = get_table_columns(&conn, "posts_tags").unwrap();
    assert!(cols.contains("parent_id"));
    assert!(cols.contains("related_id"));
    assert!(cols.contains("_order"));
}

#[test]
fn relationship_localized_has_many_creates_junction_with_locale() {
    let (_dir, pool) = in_memory_pool();
    let conn = pool.get().unwrap();
    let def = simple_collection(
        "posts",
        vec![
            FieldDefinition::builder("tags", FieldType::Relationship)
                .localized(true)
                .relationship(RelationshipConfig::new("tags", true))
                .build(),
        ],
    );
    create_collection_table(&conn, "posts", &def, &locale_en_de()).unwrap();
    sync_join_tables(&conn, "posts", &def.fields, &locale_en_de()).unwrap();

    assert!(table_exists(&conn, "posts_tags").unwrap());
    let cols = get_table_columns(&conn, "posts_tags").unwrap();
    assert!(
        cols.contains("_locale"),
        "Localized junction table should have _locale column"
    );
}

#[test]
fn relationship_existing_has_many_adds_locale_column() {
    let (_dir, pool) = in_memory_pool();
    let conn = pool.get().unwrap();
    // Create parent and junction table without _locale
    conn.execute("CREATE TABLE posts (id TEXT PRIMARY KEY)", &[])
        .unwrap();
    conn.execute(
        "CREATE TABLE posts_tags (parent_id TEXT, related_id TEXT, _order INTEGER)",
        &[],
    )
    .unwrap();

    let def = simple_collection(
        "posts",
        vec![
            FieldDefinition::builder("tags", FieldType::Relationship)
                .localized(true)
                .relationship(RelationshipConfig::new("tags", true))
                .build(),
        ],
    );
    sync_join_tables(&conn, "posts", &def.fields, &locale_en_de()).unwrap();

    let cols = get_table_columns(&conn, "posts_tags").unwrap();
    assert!(cols.contains("_locale"));
}

#[test]
fn relationship_group_relationship_creates_prefixed_junction_table() {
    let (_dir, pool) = in_memory_pool();
    let conn = pool.get().unwrap();
    let def = simple_collection(
        "posts",
        vec![
            FieldDefinition::builder("config", FieldType::Group)
                .fields(vec![
                    FieldDefinition::builder("tags", FieldType::Relationship)
                        .relationship(RelationshipConfig::new("tags", true))
                        .build(),
                ])
                .build(),
        ],
    );
    create_collection_table(&conn, "posts", &def, &no_locale()).unwrap();
    sync_join_tables(&conn, "posts", &def.fields, &no_locale()).unwrap();

    assert!(
        table_exists(&conn, "posts_config__tags").unwrap(),
        "Group > Relationship should create prefixed junction table"
    );
    let cols = get_table_columns(&conn, "posts_config__tags").unwrap();
    assert!(cols.contains("parent_id"));
    assert!(cols.contains("related_id"));
    assert!(cols.contains("_order"));
}

#[test]
fn relationship_localized_group_has_many_inherits_locale_column() {
    let (_dir, pool) = in_memory_pool();
    let conn = pool.get().unwrap();

    let def = simple_collection(
        "posts",
        vec![
            FieldDefinition::builder("meta", FieldType::Group)
                .localized(true)
                .fields(vec![
                    FieldDefinition::builder("tags", FieldType::Relationship)
                        .relationship(RelationshipConfig::new("tags", true))
                        .build(),
                ])
                .build(),
        ],
    );
    create_collection_table(&conn, "posts", &def, &locale_en_de()).unwrap();
    sync_join_tables(&conn, "posts", &def.fields, &locale_en_de()).unwrap();

    let cols = get_table_columns(&conn, "posts_meta__tags").unwrap();
    assert!(
        cols.contains("_locale"),
        "has-many Relationship inside localized Group should inherit _locale column"
    );
}

#[test]
fn relationship_polymorphic_upgrade_rebuilds_primary_key() {
    let text = |s: &str| DbValue::Text(s.to_string());
    let int = |n: i64| DbValue::Integer(n);

    let (_dir, pool) = in_memory_pool();
    let conn = pool.get().unwrap();

    // Step 1: Create a non-polymorphic junction table (simulates old schema)
    conn.execute("CREATE TABLE posts (id TEXT PRIMARY KEY)", &[])
        .unwrap();
    conn.execute(
        "CREATE TABLE posts_related (\
        parent_id TEXT NOT NULL, \
        related_id TEXT NOT NULL, \
        _order INTEGER NOT NULL DEFAULT 0, \
        PRIMARY KEY (parent_id, related_id)\
    )",
        &[],
    )
    .unwrap();

    // Step 2: Insert parent row and junction data
    conn.execute("INSERT INTO posts (id) VALUES ('p1')", &[])
        .unwrap();
    conn.execute(
        "INSERT INTO posts_related (parent_id, related_id, _order) VALUES (?1, ?2, ?3)",
        &[text("p1"), text("r1"), int(0)],
    )
    .unwrap();
    conn.execute(
        "INSERT INTO posts_related (parent_id, related_id, _order) VALUES (?1, ?2, ?3)",
        &[text("p1"), text("r2"), int(1)],
    )
    .unwrap();

    // Step 3: Run the upgrade (simulating schema change to polymorphic)
    let mut rc = RelationshipConfig::new("tags", true);
    rc.polymorphic = vec!["tags".into(), "categories".into()];

    let def = simple_collection(
        "posts",
        vec![
            FieldDefinition::builder("related", FieldType::Relationship)
                .relationship(rc)
                .build(),
        ],
    );
    sync_join_tables(&conn, "posts", &def.fields, &no_locale()).unwrap();

    // Step 4: Verify data is preserved
    let rows = conn
    .query_all("SELECT parent_id, related_id, related_collection, _order FROM posts_related ORDER BY _order", &[])
    .unwrap();
    assert_eq!(rows.len(), 2);
    assert_eq!(rows[0].get_string("parent_id").unwrap(), "p1");
    assert_eq!(rows[0].get_string("related_id").unwrap(), "r1");
    assert_eq!(rows[0].get_string("related_collection").unwrap(), "");
    assert_eq!(rows[1].get_string("related_id").unwrap(), "r2");

    // Step 5: Verify the new PK allows duplicate (parent_id, related_id)
    // with different related_collection values
    conn.execute(
    "INSERT INTO posts_related (parent_id, related_id, related_collection, _order) VALUES (?1, ?2, ?3, ?4)",
    &[text("p1"), text("r1"), text("categories"), int(2)],
)
.unwrap();

    let count = conn
        .query_all(
            "SELECT * FROM posts_related WHERE parent_id = ?1 AND related_id = ?2",
            &[text("p1"), text("r1")],
        )
        .unwrap();
    assert_eq!(
        count.len(),
        2,
        "Same (parent_id, related_id) with different related_collection should be allowed"
    );
}

#[test]
fn relationship_polymorphic_upgrade_with_locale_preserves_data() {
    let text = |s: &str| DbValue::Text(s.to_string());
    let int = |n: i64| DbValue::Integer(n);

    let (_dir, pool) = in_memory_pool();
    let conn = pool.get().unwrap();

    // Create a non-polymorphic localized junction table
    conn.execute("CREATE TABLE posts (id TEXT PRIMARY KEY)", &[])
        .unwrap();
    conn.execute(
        "CREATE TABLE posts_related (\
        parent_id TEXT NOT NULL, \
        related_id TEXT NOT NULL, \
        _order INTEGER NOT NULL DEFAULT 0, \
        _locale TEXT NOT NULL DEFAULT 'en', \
        PRIMARY KEY (parent_id, related_id, _locale)\
    )",
        &[],
    )
    .unwrap();

    conn.execute("INSERT INTO posts (id) VALUES ('p1')", &[])
        .unwrap();
    conn.execute(
    "INSERT INTO posts_related (parent_id, related_id, _order, _locale) VALUES (?1, ?2, ?3, ?4)",
    &[text("p1"), text("r1"), int(0), text("en")],
)
.unwrap();
    conn.execute(
    "INSERT INTO posts_related (parent_id, related_id, _order, _locale) VALUES (?1, ?2, ?3, ?4)",
    &[text("p1"), text("r1"), int(0), text("de")],
)
.unwrap();

    // Upgrade to polymorphic
    let mut rc = RelationshipConfig::new("tags", true);
    rc.polymorphic = vec!["tags".into(), "categories".into()];

    let def = simple_collection(
        "posts",
        vec![
            FieldDefinition::builder("related", FieldType::Relationship)
                .localized(true)
                .relationship(rc)
                .build(),
        ],
    );
    sync_join_tables(&conn, "posts", &def.fields, &locale_en_de()).unwrap();

    // Data preserved
    let rows = conn
        .query_all("SELECT * FROM posts_related ORDER BY _locale", &[])
        .unwrap();
    assert_eq!(rows.len(), 2);

    // related_collection column exists
    let cols = get_table_columns(&conn, "posts_related").unwrap();
    assert!(cols.contains("related_collection"));
    assert!(cols.contains("_locale"));

    conn.execute(
        "INSERT INTO posts_related (parent_id, related_id, related_collection, _order) \
         VALUES ('p1', 'r2', 'tags', 1)",
        &[],
    )
    .unwrap();
    let row = conn
        .query_one(
            "SELECT _locale FROM posts_related WHERE related_id = 'r2'",
            &[],
        )
        .unwrap()
        .unwrap();
    assert_eq!(row.get_string("_locale").unwrap(), "en");
}

#[test]
fn relationship_polymorphic_junction_rebuild_preserves_fk() {
    let (_dir, pool) = in_memory_pool();
    let conn = pool.get().unwrap();

    // Create parent table
    conn.execute(
        "CREATE TABLE posts (id TEXT PRIMARY KEY, _ref_count INTEGER DEFAULT 0)",
        &[],
    )
    .unwrap();

    // Create a non-polymorphic junction table with FK
    conn.execute_batch(
        "CREATE TABLE posts_tags (\
        parent_id TEXT NOT NULL REFERENCES posts(id) ON DELETE CASCADE, \
        related_id TEXT NOT NULL, \
        _order INTEGER NOT NULL DEFAULT 0, \
        PRIMARY KEY (parent_id, related_id)\
    )",
    )
    .unwrap();

    // Insert test data
    conn.execute("INSERT INTO posts (id) VALUES ('p1')", &[])
        .unwrap();
    conn.execute(
        "INSERT INTO posts_tags (parent_id, related_id, _order) VALUES ('p1', 'tag1', 0)",
        &[],
    )
    .unwrap();

    // Rebuild for polymorphic upgrade
    reconcile_junction_shape(
        &conn,
        "posts_tags",
        "posts",
        &JunctionShape::new(true, None),
    )
    .unwrap();

    // Verify columns
    let cols = get_table_columns(&conn, "posts_tags").unwrap();
    assert!(
        cols.contains("related_collection"),
        "must have related_collection"
    );

    // Verify data migrated
    let rows = conn
        .query_all("SELECT parent_id, related_id FROM posts_tags", &[])
        .unwrap();
    assert_eq!(rows.len(), 1);

    // Verify FK still works: cascade delete should remove junction row
    conn.execute("DELETE FROM posts WHERE id = 'p1'", &[])
        .unwrap();
    let rows = conn.query_all("SELECT * FROM posts_tags", &[]).unwrap();
    assert_eq!(
        rows.len(),
        0,
        "FK ON DELETE CASCADE must be preserved after polymorphic rebuild"
    );
}
#[test]
fn a_second_sync_of_the_rows_only_looks() {
    let pool = in_memory_pool().1;
    let conn = pool.get().unwrap();
    let mut blocks = FieldDefinition::new("body", FieldType::Blocks);
    blocks.localized = true;
    let mut fields = vec![code_lang_array("snippets"), scalar_list_array(), blocks];
    fields.extend(tags(true));
    let def = simple_collection("posts", fields);
    create_collection_table(&conn, "posts", &def, &locale_en_de()).unwrap();
    for turned in [no_locale(), locale_en_de()] {
        sync_join_tables(&conn, "posts", &def.fields, &turned).unwrap();
        let before = conn.texts("SELECT sql FROM sqlite_master ORDER BY name", &[]).unwrap();

        let mut session = Session::new(Dialect::Sqlite);
        let world = World { registry: None, config: no_locale() };
        loop {
            session.rewind();
            let result = sync_join_tables_of(&mut session, "posts", &def.fields, &turned);
            let reply = match session.pending() {
                None => {
                    assert_eq!(result, Ok(()));
                    break;
                }
                Some(request) => conn.perform(&world, request),
            };
            session.answer(reply);
        }
        assert!(session.warnings().is_empty() && session.notes().is_empty());
        assert!(!session.sent().is_empty());
        for request in session.sent() {
            let looks = match request {
                Request::Execute { sql, .. } => sql.starts_with("CREATE INDEX IF NOT EXISTS"),
                Request::QueryAll { .. }
                | Request::QueryOne { .. }
                | Request::TableExists { .. }
                | Request::TableColumns { .. }
                | Request::TableColumnTypes { .. }
                | Request::IndexNames { .. } => true,
                _ => false,
            };
            assert!(looks, "{request:?}");
        }
        let after = conn.texts("SELECT sql FROM sqlite_master ORDER BY name", &[]).unwrap();
        assert_eq!(after, before);
    }
}
