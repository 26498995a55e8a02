#![allow(dead_code, unused_imports)]

use cms_db::definition::{
    BlockDefinition, CollectionDefinition, FieldDefinition, FieldTab, FieldType, GlobalDefinition,
    LocaleConfig, Registry, RelationshipConfig, VersionsConfig,
};
use cms_db::migrate::helpers::column_specs::collect_column_specs;
use cms_db::migrate::helpers::versions::sync_versions_table as sync_versions_of;
use cms_db::migrate::join_tables::orchestrator::sync_join_tables as sync_join_tables_of;
use cms_db::pool::DbPool;
use cms_db::session::{Dialect, Reply, Request, Session};
use cms_db::value::{DbError, DbRow, DbValue};
use std::cell::RefCell;
use std::collections::HashSet;
use std::rc::Rc;
use cms_db::migrate::helpers::column_specs::ColumnSpec;
use cms_db::migrate::identifier_check::check_identifiers;
use cms_db::migrate::locale_change::{ColumnPlan, LocaleShape, column_plans};
use cms_db::migrate::orphan_tables::{OrphanKind, OrphanTable};
use cms_db::migrate::relationship_target::target_of;


/// A SQLite database in memory, and what it takes to answer requests over it.
struct Db {
    raw: rusqlite::Connection,
    warnings: RefCell<Vec<String>>,
}

/// A connection to such a database.
#[derive(Clone)]
struct Conn(Rc<Db>);

/// Where such connections come from.
struct Pool(Conn);

/// The definitions a run is about, where it needs them.
struct World<'a> {
    registry: Option<&'a Registry>,
    config: LocaleConfig,
}

impl Pool {
    fn get(&self) -> Result<Conn, DbError> {
        Ok(self.0.clone())
    }
}

fn in_memory_pool() -> ((), Pool) {
    let raw = rusqlite::Connection::open_in_memory().unwrap();
    raw.execute_batch("PRAGMA foreign_keys = ON;").unwrap();
    raw.execute_batch(
        "CREATE TABLE _crap_meta (key TEXT PRIMARY KEY, value TEXT NOT NULL, updated_at TEXT)",
    )
    .unwrap();
    let db = Db { raw, warnings: RefCell::new(Vec::new()) };
    ((), Pool(Conn(Rc::new(db))))
}

fn to_sqlite(value: &DbValue) -> rusqlite::types::Value {
    match value {
        DbValue::Null => rusqlite::types::Value::Null,
        DbValue::Integer(n) => rusqlite::types::Value::Integer(*n),
        DbValue::Real(bits) => rusqlite::types::Value::Real(f64::from_bits(*bits)),
        DbValue::Text(s) => rusqlite::types::Value::Text(s.clone()),
        DbValue::Blob(b) => rusqlite::types::Value::Blob(b.clone()),
    }
}

fn from_sqlite(value: rusqlite::types::Value) -> DbValue {
    match value {
        rusqlite::types::Value::Null => DbValue::Null,
        rusqlite::types::Value::Integer(n) => DbValue::Integer(n),
        rusqlite::types::Value::Real(f) => DbValue::Real(f.to_bits()),
        rusqlite::types::Value::Text(s) => DbValue::Text(s),
        rusqlite::types::Value::Blob(b) => DbValue::Blob(b),
    }
}

impl Conn {
    fn rows(&self, sql: &str, params: &[DbValue]) -> rusqlite::Result<Vec<DbRow>> {
        let mut statement = self.0.raw.prepare(sql)?;
        let columns: Vec<String> = statement.column_names().iter().map(|c| c.to_string()).collect();
        let width = columns.len();
        let mut rows = statement.query(rusqlite::params_from_iter(params.iter().map(to_sqlite)))?;
        let mut found = Vec::new();
        while let Some(row) = rows.next()? {
            let mut values = Vec::new();
            for i in 0..width {
                values.push(from_sqlite(row.get::<usize, rusqlite::types::Value>(i)?));
            }
            found.push(DbRow::new(columns.clone(), values));
        }
        Ok(found)
    }

    fn query_all(&self, sql: &str, params: &[DbValue]) -> Result<Vec<DbRow>, DbError> {
        self.rows(sql, params).map_err(|e| DbError::Backend(e.to_string()))
    }

    fn query_one(&self, sql: &str, params: &[DbValue]) -> Result<Option<DbRow>, DbError> {
        Ok(self.query_all(sql, params)?.into_iter().next())
    }

    fn execute(&self, sql: &str, params: &[DbValue]) -> Result<usize, DbError> {
        self.0
            .raw
            .execute(sql, rusqlite::params_from_iter(params.iter().map(to_sqlite)))
            .map_err(|e| DbError::Backend(e.to_string()))
    }

    fn execute_batch(&self, sql: &str) -> Result<(), DbError> {
        self.0.raw.execute_batch(sql).map_err(|e| DbError::Backend(e.to_string()))
    }

    fn execute_ddl(&self, sql: &str, params: &[DbValue]) -> Result<usize, DbError> {
        self.execute(sql, params)
    }

    fn index_names(&self, table: &str, prefix: &str) -> Result<Vec<String>, DbError> {
        self.run(|s| cms_db::migrate::helpers::introspection::index_names(s, table, prefix))
    }

    /// Runs an operation that needs no definitions.
    fn run<T>(&self, operation: impl FnMut(&mut Session) -> Result<T, DbError>) -> Result<T, DbError> {
        let world = World { registry: None, config: LocaleConfig::disabled() };
        self.run_in(&world, operation)
    }

    /// Runs an operation over and over, answering one more request each time.
    fn run_in<T>(
        &self,
        world: &World,
        mut operation: impl FnMut(&mut Session) -> Result<T, DbError>,
    ) -> Result<T, DbError> {
        let mut session = Session::new(Dialect::Sqlite);
        loop {
            session.rewind();
            let result = operation(&mut session);
            let reply = match session.pending() {
                None => {
                    self.0.warnings.borrow_mut().extend(session.warnings().iter().cloned());
                    return result;
                }
                Some(request) => self.perform(world, request),
            };
            session.answer(reply);
        }
    }

    fn texts(&self, sql: &str, params: &[DbValue]) -> Result<Vec<String>, DbError> {
        Ok(self.query_all(sql, params)?.iter().filter_map(|r| r.text_at(0)).collect())
    }

    fn perform(&self, world: &World, request: &Request) -> Reply {
        match self.answer(world, request) {
            Ok(reply) => reply,
            Err(e) => Reply::Failed(e.message()),
        }
    }

    fn answer(&self, world: &World, request: &Request) -> Result<Reply, DbError> {
        Ok(match request {
            Request::QueryAll { sql, params } => Reply::Rows(self.query_all(sql, params)?),
            Request::QueryOne { sql, params } => Reply::Row(self.query_one(sql, params)?),
            Request::Execute { sql, params } => Reply::Count(self.execute(sql, params)? as u64),
            Request::ExecuteMany { sql, rows } => {
                let mut count = 0;
                for params in rows {
                    count += self.execute(sql, params)? as u64;
                }
                Reply::Count(count)
            }
            Request::ExecuteBatch { sql } => {
                self.execute_batch(sql)?;
                Reply::Done
            }
            Request::TableExists { table } => Reply::Flag(
                !self
                    .query_all(
                        "SELECT 1 FROM sqlite_master WHERE type = 'table' AND name = ?1",
                        &[DbValue::Text(table.clone())],
                    )?
                    .is_empty(),
            ),
            Request::TableColumns { table } => Reply::Names(self.texts(
                "SELECT name FROM pragma_table_info(?1)",
                &[DbValue::Text(table.clone())],
            )?),
            Request::TableColumnTypes { table } => Reply::Types(
                self.query_all(
                    "SELECT name, type FROM pragma_table_info(?1)",
                    &[DbValue::Text(table.clone())],
                )?
                .iter()
                .map(|r| (r.text_at(0).unwrap(), r.text_at(1).unwrap()))
                .collect(),
            ),
            Request::IndexNames { table, prefix } => Reply::Names(
                self.texts(
                    "SELECT name FROM sqlite_master WHERE type = 'index' AND tbl_name = ?1",
                    &[DbValue::Text(table.clone())],
                )?
                .into_iter()
                .filter(|n| n.starts_with(prefix.as_str()))
                .collect(),
            ),
            Request::ListUserTables => Reply::Names(self.texts(
                "SELECT name FROM sqlite_master WHERE type = 'table' AND name NOT LIKE 'sqlite_%'",
                &[],
            )?),
            Request::HeldLocales { table } => Reply::Names(
                self.texts(&format!("SELECT DISTINCT _locale FROM \"{table}\""), &[])?,
            ),
            Request::DeleteRowsOutsideLocales { table, locales } => {
                let marks: Vec<String> = (1..=locales.len()).map(|i| format!("?{i}")).collect();
                let params: Vec<DbValue> =
                    locales.iter().map(|l| DbValue::Text(l.clone())).collect();
                let sql =
                    format!("DELETE FROM \"{table}\" WHERE _locale NOT IN ({})", marks.join(", "));
                Reply::Count(self.execute(&sql, &params)? as u64)
            }
            Request::Begin => {
                self.execute_batch("BEGIN IMMEDIATE")?;
                Reply::Done
            }
            Request::Commit => {
                self.execute_batch("COMMIT")?;
                Reply::Done
            }
            Request::Rollback => {
                self.execute_batch("ROLLBACK")?;
                Reply::Done
            }
            Request::BackfillRefCounts => {
                self.count_references(world)?;
                Reply::Done
            }
            Request::NeedsRebuild { .. } => Reply::Flag(false),
            Request::SyncCollection { slug } => {
                let registry = world.registry.unwrap();
                let def = registry.collections.iter().find(|d| d.slug == *slug).unwrap();
                self.sync_collection_table(world, slug, def)?;
                Reply::Done
            }
            Request::SyncGlobal { slug } => {
                let registry = world.registry.unwrap();
                let def = registry.globals.iter().find(|d| d.slug == *slug).unwrap();
                let table = cms_db::names::global_table(slug);
                if !table_exists(self, &table)? {
                    create_parent_table(self, &table, &def.fields, &world.config)?;
                }
                self.run(|s| sync_join_tables_of(s, &table, &def.fields, &world.config))?;
                Reply::Done
            }
            Request::EnqueueImageConversions { job: name, queue, jobs, .. } => {
                for (i, job) in jobs.iter().enumerate() {
                    self.execute(
                        "INSERT INTO _crap_jobs (id, slug, queue, data) VALUES (?1, ?2, ?3, ?4)",
                        &[
                            DbValue::Text(format!("image{i}")),
                            DbValue::Text(name.clone()),
                            DbValue::Text(queue.clone()),
                            DbValue::Text(format!("{}:{}", job.source_path, job.quality)),
                        ],
                    )?;
                }
                Reply::Done
            }
            Request::SearchIndexShape { slug } => {
                let names = searched(world, slug);
                Reply::IndexShape { fingerprint: names.join(","), indexed: !names.is_empty() }
            }
            Request::SearchIndexExists { slug } => {
                Reply::Flag(table_exists(self, &format!("_fts_{slug}"))?)
            }
            Request::SyncSearchIndex { slug } => {
                self.execute_batch(&format!("DROP TABLE IF EXISTS \"_fts_{slug}\""))?;
                let names = searched(world, slug);
                if !names.is_empty() {
                    self.execute_batch(&format!(
                        "CREATE TABLE \"_fts_{slug}\" AS SELECT id, {} FROM \"{slug}\"",
                        names.join(", ")
                    ))?;
                }
                Reply::Done
            }
            Request::StoreNestedValues { values, .. } => Reply::Names(
                values
                    .iter()
                    .map(|v| in_utc(v).replace("\"featured\":\"on\"", "\"featured\":true"))
                    .collect(),
            ),
            Request::ConvertTimezoneDates { values, .. } => {
                Reply::Names(values.iter().map(|v| in_utc(v)).collect())
            }
            _ => Reply::Done,
        })
    }

    /// Counts how often each document is referred to.
    fn count_references(&self, world: &World) -> Result<(), DbError> {
        let registry = world.registry.unwrap();
        for target in &registry.collections {
            let mut counts = Vec::new();
            for def in &registry.collections {
                for field in &def.fields {
                    let rc = match &field.relationship {
                        Some(rc) if rc.collection == target.slug => rc,
                        _ => continue,
                    };
                    let own = get_table_columns(self, &def.slug)?;
                    let (table, column) = if rc.has_many {
                        (format!("{}_{}", def.slug, field.name), "related_id")
                    } else if own.contains(&field.name) {
                        (def.slug.clone(), field.name.as_str())
                    } else {
                        continue;
                    };
                    counts.push(format!(
                        "(SELECT COUNT(*) FROM \"{table}\" j WHERE j.\"{column}\" = \"{}\".id)",
                        target.slug
                    ));
                }
            }
            if !counts.is_empty() {
                self.execute_batch(&format!(
                    "UPDATE \"{}\" SET _ref_count = {}",
                    target.slug,
                    counts.join(" + ")
                ))?;
            }
        }
        Ok(())
    }

    /// Creates a collection's own table where there is none, and syncs what
    /// belongs to it.
    fn sync_collection_table(
        &self,
        world: &World,
        slug: &str,
        def: &CollectionDefinition,
    ) -> Result<(), DbError> {
        if !table_exists(self, slug)? {
            create_parent_table(self, slug, &def.fields, &world.config)?;
        } else {
            let existing = get_table_columns(self, slug)?;
            for (name, kind) in parent_columns(&def.fields, &world.config)? {
                if !existing.contains(&name) {
                    self.execute_batch(&format!(
                        "ALTER TABLE \"{slug}\" ADD COLUMN \"{name}\" {kind}"
                    ))?;
                }
            }
        }
        self.run(|s| sync_join_tables_of(s, slug, &def.fields, &world.config))?;
        if def.versions.is_some() {
            self.run(|s| sync_versions_of(s, slug))?;
        }
        Ok(())
    }
}

/// The names of a collection's text fields.
fn searched(world: &World, slug: &str) -> Vec<String> {
    let registry = world.registry.unwrap();
    let def = registry.collections.iter().find(|d| d.slug == *slug).unwrap();
    def.fields
        .iter()
        .filter(|f| f.field_type == FieldType::Text)
        .map(|f| f.name.clone())
        .collect()
}

/// Nine in the morning in Berlin in January, as stored.
fn in_utc(value: &str) -> String {
    value.replace("\"2024-01-15T09:00\"", "\"2024-01-15T08:00:00.000Z\"")
}

/// The columns of the table a collection's or global's own values are kept in.
fn parent_columns(
    fields: &Vec<FieldDefinition>,
    config: &LocaleConfig,
) -> Result<Vec<(String, String)>, DbError> {
    let mut columns = Vec::new();
    for spec in collect_column_specs(fields, config) {
        let names = if spec.is_localized {
            config
                .locales
                .iter()
                .map(|l| cms_db::names::locale_column(&spec.col_name, l))
                .collect::<Result<Vec<String>, DbError>>()?
        } else {
            vec![spec.col_name.clone()]
        };
        for name in names {
            columns.push((name, spec.ddl_type(Dialect::Sqlite).to_string()));
        }
    }
    Ok(columns)
}

/// Creates the table a collection's or global's own values are kept in.
fn create_parent_table(
    conn: &Conn,
    table: &str,
    fields: &Vec<FieldDefinition>,
    config: &LocaleConfig,
) -> Result<(), DbError> {
    let mut columns = vec!["id TEXT PRIMARY KEY".to_string()];
    for (name, kind) in parent_columns(fields, config)? {
        columns.push(format!("\"{name}\" {kind}"));
    }
    columns.push("_ref_count INTEGER DEFAULT 0".to_string());
    columns.push("created_at TEXT".to_string());
    columns.push("updated_at TEXT".to_string());
    conn.execute_batch(&format!("CREATE TABLE \"{table}\" ({})", columns.join(", ")))
}

fn create_collection_table(
    conn: &Conn,
    slug: &str,
    def: &CollectionDefinition,
    config: &LocaleConfig,
) -> Result<(), DbError> {
    create_parent_table(conn, slug, &def.fields, config)
}

/// Sets the parts of a field one after another.
struct FieldBuilder(FieldDefinition);

impl FieldBuilder {
    fn localized(mut self, localized: bool) -> Self {
        self.0.localized = localized;
        self
    }

    fn has_many(mut self, has_many: bool) -> Self {
        self.0.has_many = has_many;
        self
    }

    fn timezone(mut self, timezone: bool) -> Self {
        self.0.timezone = timezone;
        self
    }

    fn languages(mut self, languages: Vec<String>) -> Self {
        self.0.languages = languages;
        self
    }

    fn relationship(mut self, relationship: RelationshipConfig) -> Self {
        self.0.relationship = Some(relationship);
        self
    }

    fn fields(mut self, fields: Vec<FieldDefinition>) -> Self {
        self.0.fields = fields;
        self
    }

    fn tabs(mut self, tabs: Vec<FieldTab>) -> Self {
        self.0.tabs = tabs;
        self
    }

    fn blocks(mut self, blocks: Vec<BlockDefinition>) -> Self {
        self.0.blocks = blocks;
        self
    }

    fn build(self) -> FieldDefinition {
        self.0
    }
}

trait Build {
    fn builder(name: &str, field_type: FieldType) -> FieldBuilder;
}

impl Build for FieldDefinition {
    fn builder(name: &str, field_type: FieldType) -> FieldBuilder {
        FieldBuilder(FieldDefinition::new(name, field_type))
    }
}

fn no_locale() -> LocaleConfig {
    LocaleConfig::disabled()
}

fn locale_en_de() -> LocaleConfig {
    LocaleConfig {
        default_locale: "en".to_string(),
        locales: vec!["en".to_string(), "de".to_string()],
        fallback: true,
    }
}

fn simple_collection(slug: &str, fields: Vec<FieldDefinition>) -> CollectionDefinition {
    let mut def = CollectionDefinition::new(slug);
    def.fields = fields;
    def
}

fn text_field(name: &str) -> FieldDefinition {
    FieldDefinition::builder(name, FieldType::Text).build()
}

fn table_exists(conn: &Conn, name: &str) -> Result<bool, DbError> {
    conn.run(|s| cms_db::migrate::helpers::introspection::table_exists(s, name))
}

fn get_table_columns(conn: &Conn, table: &str) -> Result<HashSet<String>, DbError> {
    let columns =
        conn.run(|s| cms_db::migrate::helpers::introspection::get_table_columns(s, table))?;
    Ok(columns.into_iter().collect())
}

fn sync_join_tables(
    conn: &Conn,
    slug: &str,
    fields: &Vec<FieldDefinition>,
    config: &LocaleConfig,
) -> Result<(), DbError> {
    conn.run(|s| sync_join_tables_of(s, slug, fields, config))
}

/// A registry's definitions, synced with the database behind a pool.
fn sync_all(pool: &Pool, registry: &Registry, config: &LocaleConfig) -> Result<(), DbError> {
    let world = World { registry: Some(registry), config: config.copy() };
    let source = DbPool::from_backend(Dialect::Sqlite);
    pool.get()?.run_in(&world, |s| cms_db::migrate::sync::sync_all(&source, s, registry, config))
}

fn find_related_ids(
    conn: &Conn,
    slug: &str,
    field: &str,
    parent: &str,
    locale: Option<&str>,
) -> Result<Vec<String>, DbError> {
    let mut params = vec![DbValue::Text(parent.to_string())];
    let mut filter = String::new();
    if let Some(locale) = locale {
        params.push(DbValue::Text(locale.to_string()));
        filter = " AND _locale = ?2".to_string();
    }
    conn.texts(
        &format!(
            "SELECT related_id FROM \"{slug}_{field}\" WHERE parent_id = ?1{filter} ORDER BY _order"
        ),
        &params,
    )
}

fn set_related_ids(
    conn: &Conn,
    slug: &str,
    field: &str,
    parent: &str,
    ids: &[String],
    locale: Option<&str>,
) -> Result<(), DbError> {
    for (i, id) in ids.iter().enumerate() {
        let mut columns = "parent_id, related_id, _order".to_string();
        let mut values = "?1, ?2, ?3".to_string();
        let mut params = vec![
            DbValue::Text(parent.to_string()),
            DbValue::Text(id.clone()),
            DbValue::Integer(i as i64),
        ];
        if let Some(locale) = locale {
            columns.push_str(", _locale");
            values.push_str(", ?4");
            params.push(DbValue::Text(locale.to_string()));
        }
        conn.execute(
            &format!("INSERT INTO \"{slug}_{field}\" ({columns}) VALUES ({values})"),
            &params,
        )?;
    }
    Ok(())
}

/// Access to the table of keys and values.
#[allow(non_camel_case_types)]
struct meta {}

impl meta {
    fn get(conn: &Conn, key: &str) -> Result<Option<String>, DbError> {
        conn.run(|s| cms_db::migrate::meta::get(s, key))
    }

    fn upsert(conn: &Conn, key: &str, value: &str) -> Result<(), DbError> {
        conn.run(|s| cms_db::migrate::meta::upsert(s, key, value))
    }
}

fn memory_conn() -> Conn {
    in_memory_pool().1.get().unwrap()
}

const LOCALE_FINGERPRINT_KEY: &str = "locale_config";
const SHAPE_VERSION: &str = "1";
const RETIRED_META_KEYS: &[&str] = &["ref_count_backfilled"];

fn shape_key(table: &str) -> String {
    format!("locale_shape:{table}")
}

fn meta_key(table: &str) -> String {
    format!("relationship_target:{table}")
}

fn inline_unique_to_drop(conn: &Conn, slug: &str) -> Result<Option<bool>, DbError> {
    conn.run(|s| cms_db::migrate::inline_unique::inline_unique_to_drop(s, slug))
}

fn mark_dropped(conn: &Conn, slug: &str) -> Result<(), DbError> {
    conn.run(|s| cms_db::migrate::inline_unique::mark_dropped(s, slug))
}

fn columns_to_relax(conn: &Conn, slug: &str) -> Result<Option<Vec<String>>, DbError> {
    conn.run(|s| cms_db::migrate::nullable_columns::columns_to_relax(s, slug))
}

fn mark_relaxed(conn: &Conn, slug: &str) -> Result<(), DbError> {
    conn.run(|s| cms_db::migrate::nullable_columns::mark_relaxed(s, slug))
}

fn row_count(conn: &Conn, table: &str) -> Result<i64, DbError> {
    conn.run(|s| cms_db::migrate::relationship_target::row_count(s, table))
}

fn load_shape(conn: &Conn, table: &str, specs: &Vec<ColumnSpec<'_>>) -> LocaleShape {
    conn.run(|s| LocaleShape::load(s, table, specs)).unwrap()
}

fn record_shape(shape: &LocaleShape, conn: &Conn, table: &str) {
    conn.run(|s| shape.record(s, table)).unwrap()
}

fn carry(plan: &ColumnPlan, conn: &Conn, table: &str, existing: &[&str]) {
    let existing: Vec<String> = existing.iter().map(|c| c.to_string()).collect();
    conn.run(|s| plan.carry_values(s, table, &existing)).unwrap()
}

fn warn_on_default_locale_change(
    conn: &Conn,
    registry: &Registry,
    config: &LocaleConfig,
) -> Result<(), DbError> {
    conn.run(|s| cms_db::migrate::locale_change::warn_on_default_locale_change(s, registry, config))
}

fn find_orphan_tables(conn: &Conn, registry: &Registry) -> Result<Vec<OrphanTable>, DbError> {
    conn.run(|s| cms_db::migrate::orphan_tables::find_orphan_tables(s, registry))
}

fn source() -> DbPool {
    DbPool::from_backend(Dialect::Sqlite)
}

fn record_migration(conn: &Conn, filename: &str) -> Result<(), DbError> {
    conn.run(|s| cms_db::migrate::tracking::record_migration(s, filename))
}

fn remove_migration(conn: &Conn, filename: &str) -> Result<(), DbError> {
    conn.run(|s| cms_db::migrate::tracking::remove_migration(s, filename))
}

fn get_applied_migrations(pool: &Pool) -> Result<HashSet<String>, DbError> {
    let applied =
        pool.get()?.run(|s| cms_db::migrate::tracking::get_applied_migrations(&source(), s))?;
    Ok(applied.into_iter().collect())
}

fn get_applied_migrations_desc(pool: &Pool) -> Result<Vec<String>, DbError> {
    pool.get()?.run(|s| cms_db::migrate::tracking::get_applied_migrations_desc(&source(), s))
}

fn get_pending_migrations(pool: &Pool, names: &[&str]) -> Result<Vec<String>, DbError> {
    let names: Vec<String> = names.iter().map(|n| n.to_string()).collect();
    pool.get()?.run(|s| cms_db::migrate::tracking::get_pending_migrations(&source(), s, &names))
}

fn drop_all_tables(pool: &Pool) -> Result<(), DbError> {
    pool.get()?.run(|s| cms_db::migrate::tracking::drop_all_tables(&source(), s))
}

fn assert_no_dangling_references(conn: &Conn, rebuilt: &[String]) -> Result<(), DbError> {
    let rebuilt = rebuilt.to_vec();
    conn.run(|s| cms_db::migrate::sync::assert_no_dangling_references(s, &rebuilt))
}

fn create_jobs_table(conn: &Conn, ts_default: &str, ts_type: &str) -> Result<(), DbError> {
    conn.run(|s| cms_db::migrate::system_tables::create_jobs_table(s, ts_default, ts_type))
}

fn recreate_all(pool: &Pool, registry: &Registry, config: &LocaleConfig) -> Result<(), DbError> {
    let world = World { registry: Some(registry), config: config.copy() };
    pool.get()?.run_in(&world, |s| {
        cms_db::migrate::sync::recreate_all(&source(), s, registry, config)
    })
}

fn setup_db() -> ((), Pool) {
    let (dir, pool) = in_memory_pool();
    sync_all(&pool, &Registry::new(), &no_locale()).unwrap();
    (dir, pool)
}


fn cfg() -> LocaleConfig {
    no_locale()
}

#[test]
fn short_identifiers_pass() {
    let fields = vec![
        FieldDefinition::builder("title", FieldType::Text).build(),
        FieldDefinition::builder("tags", FieldType::Array)
            .fields(vec![FieldDefinition::builder("v", FieldType::Text).build()])
            .build(),
    ];
    assert!(check_identifiers("posts", &fields, &cfg()).is_ok());
}

#[test]
fn overlong_column_name_rejected() {
    let long = "a".repeat(70);
    let fields = vec![FieldDefinition::builder(&long, FieldType::Text).build()];
    let err = check_identifiers("posts", &fields, &cfg())
        .unwrap_err()
        .message();
    assert!(err.contains("over the 63-byte"), "got: {err}");
}

#[test]
fn overlong_join_table_name_rejected() {
    // A 60-char collection + `_` + a 10-char field = 71 bytes for the join
    // table, over the limit, even though each name alone is fine.
    let collection = "c".repeat(60);
    let fields = vec![
        FieldDefinition::builder("tags_field", FieldType::Array)
            .fields(vec![FieldDefinition::builder("v", FieldType::Text).build()])
            .build(),
    ];
    let err = check_identifiers(&collection, &fields, &cfg())
        .unwrap_err()
        .message();
    assert!(err.contains("join table"), "got: {err}");
}

/// A table with an inline `UNIQUE` has one to drop; one without has none.
#[test]
fn reports_an_inline_unique_constraint() {
    let (_dir, pool) = in_memory_pool();
    let conn = pool.get().unwrap();

    conn.execute_batch(
        "CREATE TABLE posts (id TEXT PRIMARY KEY, slug TEXT UNIQUE);
         CREATE TABLE pages (id TEXT PRIMARY KEY, slug TEXT);
         CREATE UNIQUE INDEX idx_pages_slug_unique ON pages (slug);",
    )
    .unwrap();

    assert_eq!(inline_unique_to_drop(&conn, "posts").unwrap(), Some(true));
    assert_eq!(
        inline_unique_to_drop(&conn, "pages").unwrap(),
        Some(false),
        "a managed unique index is not an inline constraint"
    );
}

/// Once stamped, the pass reports nothing for that collection — and only
/// for that one.
#[test]
fn inline_unique_the_gate_is_per_collection() {
    let (_dir, pool) = in_memory_pool();
    let conn = pool.get().unwrap();

    conn.execute_batch(
        "CREATE TABLE posts (id TEXT PRIMARY KEY, slug TEXT UNIQUE);
         CREATE TABLE pages (id TEXT PRIMARY KEY, slug TEXT UNIQUE);",
    )
    .unwrap();

    mark_dropped(&conn, "posts").unwrap();

    assert_eq!(inline_unique_to_drop(&conn, "posts").unwrap(), None);
    assert_eq!(inline_unique_to_drop(&conn, "pages").unwrap(), Some(true));
}

/// The primary key and the system columns keep their `NOT NULL`; a user
/// column is reported, sorted.
#[test]
fn reports_only_user_columns() {
    let (_dir, pool) = in_memory_pool();
    let conn = pool.get().unwrap();

    conn.execute_batch(
        "CREATE TABLE posts (id TEXT PRIMARY KEY NOT NULL, title TEXT NOT NULL, \
         body TEXT, alpha INTEGER NOT NULL DEFAULT 0, \
         _status TEXT NOT NULL DEFAULT 'published', _ref_count INTEGER NOT NULL DEFAULT 0)",
    )
    .unwrap();

    assert_eq!(
        columns_to_relax(&conn, "posts").unwrap(),
        Some(vec!["alpha".to_string(), "title".to_string()])
    );
}

/// Once stamped, the pass reports nothing for that collection — and only
/// for that one.
#[test]
fn nullable_columns_the_gate_is_per_collection() {
    let (_dir, pool) = in_memory_pool();
    let conn = pool.get().unwrap();

    conn.execute_batch(
        "CREATE TABLE posts (id TEXT PRIMARY KEY, title TEXT NOT NULL);
         CREATE TABLE pages (id TEXT PRIMARY KEY, title TEXT NOT NULL);",
    )
    .unwrap();

    mark_relaxed(&conn, "posts").unwrap();

    assert_eq!(columns_to_relax(&conn, "posts").unwrap(), None);
    assert_eq!(
        columns_to_relax(&conn, "pages").unwrap(),
        Some(vec!["title".to_string()])
    );
}

fn posts_with_target(target: &str) -> CollectionDefinition {
    simple_collection(
        "posts",
        vec![
            FieldDefinition::builder("links", FieldType::Relationship)
                .relationship(RelationshipConfig::new(target, true))
                .build(),
        ],
    )
}

/// The recorded target follows the definition, so a later sync compares
/// against what the rows were actually written for.
#[test]
fn the_target_is_recorded_on_the_first_sync() {
    let (_dir, pool) = in_memory_pool();
    let conn = pool.get().unwrap();

    let def = posts_with_target("tags");
    create_collection_table(&conn, "posts", &def, &no_locale()).unwrap();
    sync_join_tables(&conn, "posts", &def.fields, &no_locale()).unwrap();

    let recorded = meta::get(&conn, &meta_key("posts_links")).unwrap();
    assert_eq!(recorded.as_deref(), Some("tags"));
}

/// Re-pointing the relationship rewrites the record — and the rows that
/// were written against the old target stay exactly where they were, which
/// is what the warning is about.
#[test]
fn re_pointing_the_relationship_rewrites_the_record() {
    let (_dir, pool) = in_memory_pool();
    let conn = pool.get().unwrap();

    let def = posts_with_target("tags");
    create_collection_table(&conn, "posts", &def, &no_locale()).unwrap();
    sync_join_tables(&conn, "posts", &def.fields, &no_locale()).unwrap();

    conn.execute_batch(
        "INSERT INTO posts (id) VALUES ('p1');
         INSERT INTO posts_links (parent_id, related_id, _order) VALUES ('p1', 't1', 0);",
    )
    .unwrap();
    assert_eq!(row_count(&conn, "posts_links").unwrap(), 1);

    let moved = posts_with_target("authors");
    sync_join_tables(&conn, "posts", &moved.fields, &no_locale()).unwrap();

    let recorded = meta::get(&conn, &meta_key("posts_links")).unwrap();
    assert_eq!(
        recorded.as_deref(),
        Some("authors"),
        "the record must follow the definition"
    );
    assert_eq!(
        row_count(&conn, "posts_links").unwrap(),
        1,
        "the rows are never touched"
    );
}

/// A polymorphic relationship records every target, so adding or removing
/// one is a change like any other.
#[test]
fn a_polymorphic_relationship_records_every_target() {
    let mut rc = RelationshipConfig::new("posts", true);
    rc.polymorphic = vec!["posts".into(), "pages".into()];

    assert_eq!(target_of(&rc), "pages,posts");
}

#[test]
fn get_returns_none_for_absent_key() {
    let (_tmp, pool) = setup_db();
    let conn = pool.get().unwrap();

    assert_eq!(meta::get(&conn, "does_not_exist").unwrap(), None);
}

#[test]
fn upsert_then_get_round_trips() {
    let (_tmp, pool) = setup_db();
    let conn = pool.get().unwrap();

    meta::upsert(&conn, "k", "1").unwrap();
    assert_eq!(meta::get(&conn, "k").unwrap().as_deref(), Some("1"));
}

/// The reason this is a shared chokepoint: upsert must REPLACE a stale value
/// (not append a second row or leave the old one), so a version bump on an
/// existing database takes effect. A plain INSERT would violate the PK or
/// leave the read ambiguous.
#[test]
fn upsert_replaces_stale_value() {
    let (_tmp, pool) = setup_db();
    let conn = pool.get().unwrap();

    meta::upsert(&conn, "version_gate", "1").unwrap();
    meta::upsert(&conn, "version_gate", "2").unwrap();

    assert_eq!(meta::get(&conn, "version_gate").unwrap().as_deref(), Some("2"));

    // Exactly one row survives — the replace didn't duplicate.
    let rows = conn
        .query_all(
            "SELECT value FROM _crap_meta WHERE key = ?1",
            &[DbValue::Text("version_gate".to_string())],
        )
        .unwrap();
    assert_eq!(rows.len(), 1);
}

fn plan_names(plans: &[ColumnPlan]) -> Vec<(&str, Option<&str>)> {
    plans
        .iter()
        .map(|p| (p.name.as_str(), p.carry_from.as_deref()))
        .collect()
}

/// One text field, localized or not.
fn title(localized: bool) -> Vec<FieldDefinition> {
    vec![FieldDefinition::builder("title", FieldType::Text).localized(localized).build()]
}


/// Marking a field `localized` must carry the bare column's values into
/// the DEFAULT locale's column — and only that one.
#[test]
fn a_localized_field_carries_the_bare_column_into_the_default_locale() {
    let plans = column_plans("title", true, &locale_en_de()).unwrap();

    assert_eq!(
        plan_names(&plans),
        vec![("title__en", Some("title")), ("title__de", None)]
    );
}

/// Clearing `localized` is the mirror: the bare column takes the default
/// locale's values back.
#[test]
fn a_shared_field_carries_the_default_locale_column_back() {
    let plans = column_plans("title", false, &locale_en_de()).unwrap();

    assert_eq!(plan_names(&plans), vec![("title", Some("title__en"))]);
}

/// With localization off the bare column still takes back whatever a
/// previous localized configuration left in the default locale's column.
#[test]
fn localization_off_still_reclaims_the_default_locale_column() {
    let plans = column_plans("title", false, &no_locale()).unwrap();

    assert_eq!(plan_names(&plans), vec![("title", Some("title__en"))]);
}

/// A flag that flipped since the recorded shape moves its values even
/// though nothing was created this sync — the column they move into was
/// created by the flip before it, so keying on creation alone left the
/// reads on the value the field held before that first flip.
#[test]
fn a_flipped_flag_carries_without_a_new_column() {
    let (_dir, pool) = in_memory_pool();
    let conn = pool.get().unwrap();
    let locale_config = locale_en_de();

    let localized = title(true);
    let first =
        load_shape(&conn, "posts", &collect_column_specs(&localized, &locale_config));
    record_shape(&first, &conn, "posts");

    let unchanged =
        load_shape(&conn, "posts", &collect_column_specs(&localized, &locale_config));
    assert!(
        !unchanged.must_carry("title", false),
        "an unchanged flag moves nothing"
    );

    let shared = title(false);
    let flipped =
        load_shape(&conn, "posts", &collect_column_specs(&shared, &locale_config));
    assert!(flipped.must_carry("title", false), "the flag flipped");
}

/// A table synced before a shape was recorded has none: its columns carry
/// on creation alone, so an upgrade never replays a flip that already
/// happened. The shape is recorded for the flips that follow.
#[test]
fn an_unrecorded_shape_carries_on_creation_alone() {
    let (_dir, pool) = in_memory_pool();
    let conn = pool.get().unwrap();
    let localized = title(true);

    let shape =
        load_shape(&conn, "posts", &collect_column_specs(&localized, &locale_en_de()));

    assert!(!shape.must_carry("title", false));
    assert!(shape.must_carry("title", true), "a created column carries");

    record_shape(&shape, &conn, "posts");

    let recorded = meta::get(&conn, &shape_key("posts")).unwrap();
    assert_eq!(
        recorded.as_deref(),
        Some(format!("{SHAPE_VERSION}:title").as_str()),
        "the shape names the field's column, not its per-locale ones"
    );
}

/// The default locale's column takes the bare column's value; the other
/// locales stay empty, and a second run changes nothing.
#[test]
fn switching_a_field_to_localized_keeps_its_stored_value() {
    let (_dir, pool) = in_memory_pool();
    let conn = pool.get().unwrap();
    conn.execute_batch(
        "CREATE TABLE posts (id TEXT PRIMARY KEY, title TEXT, title__en TEXT, title__de TEXT);
         INSERT INTO posts (id, title) VALUES ('p1', 'Hello');",
    )
    .unwrap();

    let existing = ["id", "title", "title__en", "title__de"];
    let plans = column_plans("title", true, &locale_en_de()).unwrap();

    for plan in &plans {
        carry(plan, &conn, "posts", &existing);
        carry(plan, &conn, "posts", &existing);
    }

    let row = conn
        .query_one(
            "SELECT title__en, title__de FROM posts WHERE id = 'p1'",
            &[],
        )
        .unwrap()
        .unwrap();
    assert_eq!(row.get_string("title__en").unwrap(), "Hello");
    assert!(row.text_at(1).is_none(), "only the default locale");
}

/// Clearing `localized` moves the default locale's values back into the
/// bare column the reads return to.
#[test]
fn switching_a_field_back_to_shared_reclaims_its_translation() {
    let (_dir, pool) = in_memory_pool();
    let conn = pool.get().unwrap();
    conn.execute_batch(
        "CREATE TABLE posts (id TEXT PRIMARY KEY, title TEXT, title__en TEXT);
         INSERT INTO posts (id, title__en) VALUES ('p1', 'Hello');",
    )
    .unwrap();

    let existing = ["id", "title", "title__en"];

    for plan in &column_plans("title", false, &locale_en_de()).unwrap() {
        carry(plan, &conn, "posts", &existing);
    }

    let row = conn
        .query_one("SELECT title FROM posts WHERE id = 'p1'", &[])
        .unwrap()
        .unwrap();
    assert_eq!(row.get_string("title").unwrap(), "Hello");
}

/// A source column the table does not have is skipped rather than named in
/// an UPDATE that would fail.
#[test]
fn a_missing_source_column_is_skipped() {
    let (_dir, pool) = in_memory_pool();
    let conn = pool.get().unwrap();
    conn.execute_batch("CREATE TABLE posts (id TEXT PRIMARY KEY, title__en TEXT);")
        .unwrap();

    for plan in &column_plans("title", true, &locale_en_de()).unwrap() {
        carry(plan, &conn, "posts", &["id", "title__en"]);
    }
}

/// The locale fingerprint is recorded on the first sync and re-checked on
/// the next; only a changed `default_locale` is worth a warning, and the
/// stored value always ends up matching the live configuration.
#[test]
fn a_changed_default_locale_is_detected_once() {
    let (_dir, pool) = in_memory_pool();
    let conn = pool.get().unwrap();
    let registry = Registry::new();

    let en_de = locale_en_de();
    warn_on_default_locale_change(&conn, &registry, &en_de).unwrap();
    assert_eq!(
        meta::get(&conn, LOCALE_FINGERPRINT_KEY).unwrap().as_deref(),
        Some(en_de.fingerprint().as_str())
    );

    let de_first = LocaleConfig {
        default_locale: "de".to_string(),
        ..en_de.copy()
    };
    assert_ne!(de_first.fingerprint(), en_de.fingerprint());

    warn_on_default_locale_change(&conn, &registry, &de_first).unwrap();
    assert_eq!(
        meta::get(&conn, LOCALE_FINGERPRINT_KEY).unwrap().as_deref(),
        Some(de_first.fingerprint().as_str()),
        "the recorded fingerprint follows the live configuration"
    );
}

/// Adding a locale changes the fingerprint (so the ref-count gate
/// recomputes) without claiming the default locale moved.
#[test]
fn adding_a_locale_changes_the_fingerprint_but_not_the_default() {
    let en_de = locale_en_de();
    let mut en_de_fr = en_de.copy();
    en_de_fr.locales.push("fr".to_string());

    assert_ne!(en_de.fingerprint(), en_de_fr.fingerprint());
    assert_eq!(
        LocaleConfig::default_locale_of_fingerprint(&en_de_fr.fingerprint()),
        Some("en".to_string())
    );
}

/// A `posts` collection with an array field and versions, so a sync gives
/// it a table, a junction table and a versions table.
fn posts() -> CollectionDefinition {
    let mut def = simple_collection(
        "posts",
        vec![
            text_field("title"),
            FieldDefinition::builder("items", FieldType::Array)
                .fields(vec![text_field("label")])
                .build(),
        ],
    );
    def.versions = Some(VersionsConfig { drafts: true });

    def
}

fn registry_with_posts() -> Registry {
    let mut registry = Registry::new();
    registry.register_collection(posts());

    registry
}

fn orphan_names(conn: &Conn, registry: &Registry) -> Vec<String> {
    find_orphan_tables(conn, registry)
        .unwrap()
        .into_iter()
        .map(|o| o.name)
        .collect()
}

/// A collection removed from the registry leaves three tables behind —
/// its own, its junction table and its versions table — and every
/// registry-driven pass walks straight past them. The scan names all
/// three, and leaves the live collection's tables alone.
#[test]
fn a_removed_collection_leaves_every_one_of_its_tables_behind() {
    let (_dir, pool) = in_memory_pool();
    sync_all(&pool, &registry_with_posts(), &no_locale()).unwrap();

    let conn = pool.get().unwrap();

    assert!(
        orphan_names(&conn, &registry_with_posts()).is_empty(),
        "a synced registry accounts for its own tables"
    );

    let names = orphan_names(&conn, &Registry::new());

    for expected in ["posts", "posts_items", "_versions_posts"] {
        assert!(
            names.contains(&expected.to_string()),
            "{expected} must be reported: {names:?}"
        );
    }
}

/// A field removed from a live collection leaves its junction table, which
/// is reported on its own — the collection's other tables are fine.
#[test]
fn a_removed_field_leaves_its_junction_table() {
    let (_dir, pool) = in_memory_pool();
    sync_all(&pool, &registry_with_posts(), &no_locale()).unwrap();

    let conn = pool.get().unwrap();

    let mut without_array = Registry::new();
    let mut def = simple_collection("posts", vec![text_field("title")]);
    def.versions = Some(VersionsConfig { drafts: true });
    without_array.register_collection(def);

    assert_eq!(orphan_names(&conn, &without_array), vec!["posts_items"]);
}

/// A relationship turned from has-many to has-one stores its value in the
/// owning table's column; the junction its has-many past left is reported
/// like any other leftover, so `db cleanup` can drop it.
#[test]
fn a_has_one_reference_leaves_its_old_junction_reported() {
    let (_dir, pool) = in_memory_pool();

    let posts = |has_many: bool| {
        let mut registry = Registry::new();
        registry.register_collection(simple_collection("tags", vec![]));
        registry.register_collection(simple_collection(
            "posts",
            vec![
                FieldDefinition::builder("tags", FieldType::Relationship)
                    .relationship(RelationshipConfig::new("tags", has_many))
                    .build(),
            ],
        ));

        registry
    };

    sync_all(&pool, &posts(true), &no_locale()).unwrap();
    let conn = pool.get().unwrap();

    assert!(orphan_names(&conn, &posts(true)).is_empty());
    assert_eq!(orphan_names(&conn, &posts(false)), vec!["posts_tags"]);
}

/// A global removed from the registry leaves its `_global_` table.
#[test]
fn a_removed_global_leaves_its_table() {
    let (_dir, pool) = in_memory_pool();
    let conn = pool.get().unwrap();

    conn.execute_batch(
        "CREATE TABLE _global_site (id TEXT PRIMARY KEY, title TEXT, _ref_count INTEGER)",
    )
    .unwrap();

    assert_eq!(orphan_names(&conn, &Registry::new()), vec!["_global_site"]);
}

/// The framework's own tables are never leftovers, whatever the registry
/// holds.
#[test]
fn system_tables_are_never_reported() {
    let (_dir, pool) = in_memory_pool();
    let conn = pool.get().unwrap();

    assert!(
        orphan_names(&conn, &Registry::new()).is_empty(),
        "a database with nothing but system tables is clean"
    );
}

/// A table another application put in the same database carries none of
/// the markers, so it is left out of the report entirely.
#[test]
fn a_foreign_table_is_not_reported() {
    let (_dir, pool) = in_memory_pool();
    let conn = pool.get().unwrap();

    conn.execute_batch("CREATE TABLE billing_invoices (id TEXT PRIMARY KEY, total REAL)")
        .unwrap();

    assert!(
        orphan_names(&conn, &Registry::new()).is_empty(),
        "only tables of the right shape are reported"
    );
}

#[test]
fn migration_tracking_roundtrip() {
    let (_dir, pool) = in_memory_pool();
    let conn = pool.get().unwrap();
    conn.execute_batch(
        "CREATE TABLE _crap_migrations (filename TEXT PRIMARY KEY, applied_at TEXT DEFAULT (datetime('now')))"
    ).unwrap();

    record_migration(&conn, "001_init.lua").unwrap();
    record_migration(&conn, "002_add_field.lua").unwrap();

    let applied = get_applied_migrations(&pool).unwrap();
    assert!(applied.contains("001_init.lua"));
    assert!(applied.contains("002_add_field.lua"));
    assert_eq!(applied.len(), 2);
}

#[test]
fn remove_migration_works() {
    let (_dir, pool) = in_memory_pool();
    let conn = pool.get().unwrap();
    conn.execute_batch(
        "CREATE TABLE _crap_migrations (filename TEXT PRIMARY KEY, applied_at TEXT DEFAULT (datetime('now')))"
    ).unwrap();

    record_migration(&conn, "001_init.lua").unwrap();
    remove_migration(&conn, "001_init.lua").unwrap();

    let applied = get_applied_migrations(&pool).unwrap();
    assert!(applied.is_empty());
}

#[test]
fn get_applied_migrations_no_table() {
    let (_dir, pool) = in_memory_pool();
    let applied = get_applied_migrations(&pool).unwrap();
    assert!(applied.is_empty());
}

#[test]
fn get_pending_migrations_filters_applied() {
    let (_dir, pool) = in_memory_pool();
    let conn = pool.get().unwrap();
    conn.execute_batch(
        "CREATE TABLE _crap_migrations (filename TEXT PRIMARY KEY, applied_at TEXT DEFAULT (datetime('now')))"
    ).unwrap();
    record_migration(&conn, "001_init.lua").unwrap();

    let names = ["001_init.lua", "002_new.lua"];
    let pending = get_pending_migrations(&pool, &names).unwrap();
    assert_eq!(pending, vec!["002_new.lua"]);
}

#[test]
fn list_migration_files_sorted() {
    let names: Vec<String> = ["003_z.lua", "001_a.lua", "002_b.lua", "readme.txt"]
        .iter()
        .map(|n| n.to_string())
        .collect();

    let files = cms_db::migrate::tracking::migration_files(&names);
    assert_eq!(files, vec!["001_a.lua", "002_b.lua", "003_z.lua"]);
}

#[test]
fn drop_all_tables_cleans_everything() {
    let (_dir, pool) = in_memory_pool();
    {
        let conn = pool.get().unwrap();
        conn.execute("CREATE TABLE posts (id TEXT PRIMARY KEY)", &[])
            .unwrap();
        conn.execute("CREATE TABLE users (id TEXT PRIMARY KEY)", &[])
            .unwrap();
    }
    drop_all_tables(&pool).unwrap();
    let conn = pool.get().unwrap();
    assert!(!table_exists(&conn, "posts").unwrap());
    assert!(!table_exists(&conn, "users").unwrap());
}

#[test]
fn get_applied_migrations_desc_no_table() {
    let (_dir, pool) = in_memory_pool();
    let result = get_applied_migrations_desc(&pool).unwrap();
    assert!(result.is_empty());
}

#[test]
fn get_applied_migrations_desc_ordering() {
    let (_dir, pool) = in_memory_pool();
    let conn = pool.get().unwrap();
    conn.execute_batch(
        "CREATE TABLE _crap_migrations (filename TEXT PRIMARY KEY, applied_at TEXT DEFAULT (datetime('now')))"
    ).unwrap();
    record_migration(&conn, "001_a.lua").unwrap();
    record_migration(&conn, "002_b.lua").unwrap();
    record_migration(&conn, "003_c.lua").unwrap();

    let applied = get_applied_migrations_desc(&pool).unwrap();
    assert_eq!(applied, vec!["003_c.lua", "002_b.lua", "001_a.lua"]);
}

/// Only an orphan pointing at a rebuilt table is the sync's doing; one in
/// an unrelated table predates the boot and must not block it.
#[test]
fn the_dangling_reference_check_is_scoped_to_the_rebuilt_tables() {
    let c = memory_conn();
    // Enforcement off to plant the orphan; `foreign_key_check` reports it
    // regardless of the pragma.
    c.execute_batch(
        "PRAGMA foreign_keys = OFF; \
         CREATE TABLE p (id TEXT PRIMARY KEY); \
         CREATE TABLE p_tags (id TEXT, p_id TEXT REFERENCES p(id)); \
         INSERT INTO p_tags VALUES ('x', 'missing');",
    )
    .unwrap();

    assert_no_dangling_references(&c, &["other".to_string()])
        .expect("an orphan under a table that was not rebuilt is ignored");

    let err = assert_no_dangling_references(&c, &["p".to_string()])
        .expect_err("an orphan under the rebuilt table fails the sync");
    assert!(err.message().contains("p_tags"), "{}", err.message());
}

#[test]
fn create_jobs_table_upgrades_alpha8_schema() {
    let (_dir, p) = in_memory_pool();
    let conn = p.get().unwrap();

    conn.execute_batch(
        "CREATE TABLE _crap_jobs (
            id TEXT PRIMARY KEY,
            slug TEXT NOT NULL,
            status TEXT NOT NULL DEFAULT 'pending',
            queue TEXT NOT NULL DEFAULT 'default',
            data TEXT DEFAULT '{}',
            result TEXT,
            error TEXT,
            attempt INTEGER NOT NULL DEFAULT 0,
            max_attempts INTEGER NOT NULL DEFAULT 1,
            scheduled_by TEXT,
            created_at TEXT DEFAULT (datetime('now')),
            started_at TEXT,
            completed_at TEXT,
            heartbeat_at TEXT
        );",
    )
    .unwrap();

    conn.execute(
        "INSERT INTO _crap_jobs (id, slug, status, queue, data, max_attempts, scheduled_by) \
         VALUES ('legacy-1', 'cleanup', 'pending', 'default', '{}', 1, 'cron')",
        &[],
    )
    .unwrap();

    // Upgrade path.
    create_jobs_table(&conn, "TEXT DEFAULT (datetime('now'))", "TEXT")
        .expect("create_jobs_table must upgrade alpha.8 schema cleanly");

    // All new columns present.
    let cols = get_table_columns(&conn, "_crap_jobs").unwrap();
    for col in ["priority", "unique_key", "retry_after"] {
        assert!(
            cols.contains(col),
            "expected `{col}` column after upgrade; got {cols:?}"
        );
    }

    // Legacy row preserved.
    let row = conn
        .query_one(
            "SELECT slug, priority, unique_key FROM _crap_jobs WHERE id = ?1",
            &[DbValue::Text("legacy-1".to_string())],
        )
        .unwrap()
        .expect("legacy row should still exist");
    assert_eq!(row.text_at(0).as_deref(), Some("cleanup"));
    assert_eq!(row.i64_at(1), Some(0), "priority should default to 0");
    assert!(row.text_at(2).is_none(), "unique_key should be NULL");

    // The new indexes exist (idempotent re-run is a no-op).
    create_jobs_table(&conn, "TEXT DEFAULT (datetime('now'))", "TEXT")
        .expect("second create_jobs_table call must be idempotent");
}

/// `migrate fresh` drops and recreates in one transaction: a recreate that
/// fails (here on an identifier Postgres could not hold) leaves every table
/// and row as it was — no half-dropped schema.
#[test]
fn a_failing_recreate_leaves_the_database_intact() {
    let (_dir, p) = in_memory_pool();
    let locale_config = no_locale();

    let mut registry = Registry::new();
    registry.register_collection(CollectionDefinition::new("posts"));
    sync_all(&p, &registry, &locale_config).expect("sync");

    p.get()
        .unwrap()
        .execute("INSERT INTO posts (id) VALUES ('p1')", &[])
        .unwrap();

    let mut broken = Registry::new();
    broken.register_collection(CollectionDefinition::new("x".repeat(70).as_str()));
    recreate_all(&p, &broken, &locale_config).expect_err("the long slug fails the sync");

    let conn = p.get().unwrap();
    assert!(
        conn.query_one("SELECT id FROM posts WHERE id = 'p1'", &[])
            .unwrap()
            .is_some(),
        "the failed recreate must not have dropped anything"
    );

    drop(conn);
    recreate_all(&p, &registry, &locale_config).expect("recreate");

    let conn = p.get().unwrap();
    assert!(
        conn.query_one("SELECT id FROM posts WHERE id = 'p1'", &[])
            .unwrap()
            .is_none(),
        "a recreate empties the tables"
    );
}

#[test]
fn sync_removes_retired_meta_keys() {
    let (_dir, p) = in_memory_pool();
    let registry = Registry::new();
    let locale_config = no_locale();

    sync_all(&p, &registry, &locale_config).expect("first sync");

    let conn = p.get().unwrap();
    for key in RETIRED_META_KEYS {
        meta::upsert(&conn, key, "1").unwrap();
    }
    meta::upsert(&conn, "ref_count_backfilled:posts", "2").unwrap();
    drop(conn);

    sync_all(&p, &registry, &locale_config).expect("second sync");

    let conn = p.get().unwrap();
    for key in RETIRED_META_KEYS {
        assert_eq!(meta::get(&conn, key).unwrap(), None, "{key}");
    }
    assert_eq!(
        meta::get(&conn, "ref_count_backfilled:posts")
            .unwrap()
            .as_deref(),
        Some("2"),
        "a per-slug gate must survive"
    );
}
#[test]
fn a_record_is_kept_once_and_taken_back_whole() {
    let pool = in_memory_pool().1;
    let conn = pool.get().unwrap();
    conn.execute_batch(
        "CREATE TABLE _crap_migrations (filename TEXT PRIMARY KEY, applied_at TEXT)",
    )
    .unwrap();
    record_migration(&conn, "001_a.lua").unwrap();
    let before = get_applied_migrations(&pool).unwrap();

    let again = record_migration(&conn, "001_a.lua").unwrap_err().message();
    assert!(again.starts_with("Failed to record migration 001_a.lua: "), "{again}");
    assert_eq!(get_applied_migrations(&pool).unwrap(), before);

    record_migration(&conn, "002_b.lua").unwrap();
    remove_migration(&conn, "002_b.lua").unwrap();
    assert_eq!(get_applied_migrations(&pool).unwrap(), before);

    remove_migration(&conn, "003_never.lua").unwrap();
    assert_eq!(get_applied_migrations(&pool).unwrap(), before);
}

#[test]
fn defining_more_reports_less_and_in_order() {
    let conn = memory_conn();
    conn.execute_batch(
        "CREATE TABLE zebras (id TEXT, _ref_count INTEGER);
         CREATE TABLE zebras_stripes (id TEXT, parent_id TEXT, _order INTEGER);
         CREATE TABLE ants (id TEXT, _ref_count INTEGER);
         CREATE TABLE _global_site (id TEXT);
         CREATE TABLE _versions_ants (id TEXT);
         CREATE TABLE theirs (id TEXT);",
    )
    .unwrap();
    let mut registry = Registry::new();
    let kinds: Vec<(String, OrphanKind)> = find_orphan_tables(&conn, &registry)
        .unwrap()
        .into_iter()
        .map(|o| (o.name, o.kind))
        .collect();
    assert_eq!(
        kinds,
        vec![
            ("_global_site".to_string(), OrphanKind::Global),
            ("_versions_ants".to_string(), OrphanKind::Versions),
            ("ants".to_string(), OrphanKind::Collection),
            ("zebras".to_string(), OrphanKind::Collection),
            ("zebras_stripes".to_string(), OrphanKind::Junction),
        ]
    );
    registry.register_collection(CollectionDefinition::new("ants"));
    assert_eq!(orphan_names(&conn, &registry), ["_global_site", "zebras", "zebras_stripes"]);
    registry.register_global(GlobalDefinition::new("site"));
    assert_eq!(orphan_names(&conn, &registry), ["zebras", "zebras_stripes"]);
}
