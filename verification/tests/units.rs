use cms_db::definition::{
    BlockDefinition, CollectionDefinition, FieldDefinition, FieldType, GlobalDefinition,
    LocaleConfig, Registry, RelationshipConfig,
};
use cms_db::digest::{digest_text, hex_encode};
use cms_db::migrate::helpers::alter::{
    check_type_mismatch, is_system_column, reconcile_scalar_list_column, warn_orphan_columns,
};
use cms_db::migrate::helpers::gate::{versioned_fingerprint, versioned_value};
use cms_db::migrate::helpers::introspection::{
    get_table_column_types, get_table_columns, index_names, list_user_tables, table_constraints,
    table_exists, ConstraintKind, TableConstraint,
};
use cms_db::migrate::join_tables::junction_shape::{reconcile_junction_shape, JunctionShape};
use cms_db::migrate::helpers::versions::sync_versions_table;
use cms_db::migrate::join_tables::locale_rows::sync_locale_rows;
use cms_db::migrate::join_tables::orchestrator::sync_join_tables;
use cms_db::migrate::join_tables::parent_index::row_parent_index_name;
use cms_db::migrate::{nested_timezone_dates, nested_values};
use cms_db::migrate::nested_values::{
    changed_rows, convert_join_tables, convertible_block, read_block_candidates,
    read_column_candidates, Candidate,
};
use cms_db::migrate::nullable_columns::{columns_to_relax, drop_not_null};
use cms_db::migrate::reference_cardinality::Shape;
use cms_db::migrate::sync::{recreate_all, sync_all, SCHEMA_SYNC_LOCK_KEY};
use cms_db::migrate::system_tables::{
    drain_legacy_image_queue, Attempts, ImageConvertJob, ScheduledBy,
};
use cms_db::migrate::tracking::{
    drop_tables, migration_files, record_migration, remove_migration,
};
use cms_db::names::{
    escape_text, global_table, join_table, locale_column, placeholder, quote_ident,
    sanitize_locale, tz_column, versions_table,
};
use cms_db::order::{dedup_texts, sort_texts, text_not_after};
use cms_db::pool::DbPool;
use cms_db::session::{Dialect, Reply, Request, Session};
use cms_db::text::{
    decimal_text, join_with, replace_char, same_ignoring_case, signed_decimal_text, split,
    strip_prefix, substitute,
};
use cms_db::value::{DbError, DbRow, DbValue};

fn texts(list: &[&str]) -> Vec<String> {
    list.iter().map(|s| s.to_string()).collect()
}

fn text(s: &str) -> DbValue {
    DbValue::Text(s.to_string())
}

fn row(columns: &[&str], values: Vec<DbValue>) -> DbRow {
    DbRow::new(texts(columns), values)
}

/// Runs an operation to its end, each request answered by `host`, and hands back
/// the requests too.
fn run<T>(
    dialect: Dialect,
    mut host: impl FnMut(&Request) -> Reply,
    mut operation: impl FnMut(&mut Session) -> Result<T, DbError>,
) -> (Result<T, DbError>, Vec<String>) {
    let mut session = Session::new(dialect);
    loop {
        session.rewind();
        let result = operation(&mut session);
        let reply = match session.pending() {
            None => {
                let sent = session.sent().iter().map(|r| format!("{r:?}")).collect();
                return (result, sent);
            }
            Some(request) => host(request),
        };
        session.answer(reply);
    }
}

#[test]
fn numbers_are_written_in_decimal() {
    assert_eq!(decimal_text(0), "0");
    assert_eq!(decimal_text(1000), "1000");
    assert_eq!(decimal_text(u64::MAX), "18446744073709551615");
    assert_eq!(signed_decimal_text(-64000), "-64000");
    assert_eq!(signed_decimal_text(i64::MIN), "-9223372036854775808");
    assert_eq!(signed_decimal_text(7), "7");
}

#[test]
fn splitting_undoes_joining() {
    let parts = texts(&["a", "", "bc"]);
    let joined = join_with(&parts, ",");
    assert_eq!(joined, "a,,bc");
    assert_eq!(split(&joined, ','), parts);
    assert_eq!(split("", ','), texts(&[""]));
}

#[test]
fn texts_are_rewritten() {
    assert_eq!(replace_char("pt-BR-x", '-', "_"), "pt_BR_x");
    assert_eq!(substitute("n INTEGER, m INTEGER", " INTEGER", " BIGINT"), "n BIGINT, m BIGINT");
    assert_eq!(strip_prefix("_versions_posts", "_versions_"), Some("posts".to_string()));
    assert_eq!(strip_prefix("posts", "_versions_"), None);
    assert!(same_ignoring_case("BigInt", "BIGINT"));
    assert!(!same_ignoring_case("BIGINT", "INTEGER"));
}

#[test]
fn sorting_keeps_what_is_there() {
    let list = texts(&["b", "a", "c", "a"]);
    assert_eq!(sort_texts(&list), texts(&["a", "a", "b", "c"]));
    assert_eq!(dedup_texts(&sort_texts(&list)), texts(&["a", "b", "c"]));
    assert!(text_not_after("a", "ab"));
    assert!(!text_not_after("b", "ab"));
}

#[test]
fn digests_are_those_of_sha_256() {
    assert_eq!(digest_text("abc"), "ba7816bf8f01cfea");
    assert_eq!(digest_text(""), "e3b0c44298fc1c14");
    assert_eq!(hex_encode(&vec![0, 15, 255], 2), "000f");
}

#[test]
fn a_fingerprint_leads_with_its_version() {
    assert_eq!(versioned_value("2", "ff"), "2:ff");
    assert_eq!(versioned_fingerprint("1", &Vec::new()), "1:e3b0c44298fc1c14");
    let parts = texts(&["posts.title:text", "posts.body:text"]);
    assert_eq!(versioned_fingerprint("1", &parts), "1:d62ae3b0bf66109b");
    let swapped = texts(&["posts.body:text", "posts.title:text"]);
    assert_ne!(versioned_fingerprint("1", &parts), versioned_fingerprint("1", &swapped));
}

#[test]
fn a_long_index_name_is_cut_and_ends_in_a_digest() {
    assert_eq!(row_parent_index_name("posts_items", false), "idx__rows_posts_items");
    assert_eq!(row_parent_index_name("posts_items", true), "idx__lrows_posts_items");
    let long = "a_table_with_a_rather_long_name_that_goes_past_what_postgres_keeps";
    let name = row_parent_index_name(long, false);
    assert_eq!(name.len(), 63);
    assert_eq!(name, "idx__rows_a_table_with_a_rather_long_name_that_3efcaf15fefcc429");
}

#[test]
fn names_are_put_together() {
    assert_eq!(quote_ident("order"), "\"order\"");
    assert_eq!(quote_ident("a\"b"), "\"a\"\"b\"");
    assert_eq!(escape_text("it's"), "it''s");
    assert_eq!(join_table("posts", "seo__tags"), "posts_seo__tags");
    assert_eq!(global_table("settings"), "_global_settings");
    assert_eq!(versions_table("posts"), "_versions_posts");
    assert_eq!(tz_column("starts"), "starts_tz");
    assert_eq!(sanitize_locale("pt-BR"), Ok("pt_BR".to_string()));
    assert_eq!(locale_column("title", "pt-BR"), Ok("title__pt_BR".to_string()));
    assert_eq!(placeholder(Dialect::Sqlite, 3), "?3");
    assert_eq!(placeholder(Dialect::Postgres, 3), "$3");
}

#[test]
fn a_locale_that_fits_no_column_is_refused() {
    for locale in ["", "en'; --", "e n"] {
        assert!(matches!(sanitize_locale(locale), Err(DbError::Refused(_))), "{locale}");
    }
}

#[test]
fn a_fingerprint_tells_the_default_locale() {
    let config = LocaleConfig {
        default_locale: "de".to_string(),
        locales: texts(&["en", "de"]),
        fallback: true,
    };
    assert_eq!(config.fingerprint(), "de;en,de");
    assert_eq!(
        LocaleConfig::default_locale_of_fingerprint("de;en,de"),
        Some("de".to_string())
    );
    assert_eq!(LocaleConfig::default_locale_of_fingerprint("de"), None);
}

#[test]
fn migrations_are_the_lua_files_by_name() {
    let names = texts(&["20260102_b.lua", "notes.txt", "20260101_a.lua", ".lua"]);
    assert_eq!(migration_files(&names), texts(&["20260101_a.lua", "20260102_b.lua"]));
}

#[test]
fn a_session_asks_one_thing_more_each_time() {
    let mut session = Session::new(Dialect::Sqlite);
    let two = |s: &mut Session| -> Result<(bool, bool), DbError> {
        Ok((table_exists(s, "a")?, table_exists(s, "b")?))
    };
    assert_eq!(two(&mut session), Err(DbError::Pending));
    assert_eq!(session.pending(), Some(&Request::TableExists { table: "a".to_string() }));

    session.answer(Reply::Flag(true));
    assert_eq!(two(&mut session), Err(DbError::Pending));
    assert_eq!(session.pending(), Some(&Request::TableExists { table: "b".to_string() }));

    session.answer(Reply::Flag(false));
    assert_eq!(two(&mut session), Ok((true, false)));
    assert_eq!(session.pending(), None);
    assert_eq!(session.sent().len(), 2);
}

#[test]
fn a_failure_and_a_wrong_answer_stop_an_operation() {
    let (failed, sent) = run(
        Dialect::Sqlite,
        |_| Reply::Failed("disk full".to_string()),
        |s| table_exists(s, "a"),
    );
    assert_eq!(failed, Err(DbError::Backend("disk full".to_string())));
    assert_eq!(failed.unwrap_err().message(), "disk full");
    assert_eq!(sent.len(), 1);

    let (wrong, _) = run(Dialect::Sqlite, |_| Reply::Done, |s| table_exists(s, "a"));
    assert_eq!(wrong, Err(DbError::Unexpected));
    assert_eq!(DbError::Unexpected.message(), "the answer does not fit the request");
    assert_eq!(DbError::Pending.message(), "the request has not been answered");
    assert_eq!(
        DbError::NoText { column: "id".to_string() }.message(),
        "no text in column id"
    );
    assert_eq!(
        DbError::NoInteger { column: "n".to_string() }.message(),
        "no integer in column n"
    );
}

#[test]
fn postgres_has_wider_integers() {
    let mut session = Session::new(Dialect::Postgres);
    let sql = "CREATE TABLE t (n INTEGER NOT NULL, m INTEGER)";
    assert_eq!(session.execute_batch_ddl(sql.to_string()), Err(DbError::Pending));
    assert_eq!(
        session.pending(),
        Some(&Request::ExecuteBatch {
            sql: "CREATE TABLE t (n BIGINT NOT NULL, m BIGINT)".to_string()
        })
    );
    let mut session = Session::new(Dialect::Sqlite);
    assert_eq!(session.execute_batch_ddl(sql.to_string()), Err(DbError::Pending));
    assert_eq!(session.pending(), Some(&Request::ExecuteBatch { sql: sql.to_string() }));
}

#[test]
fn postgres_reads_its_catalog() {
    let host = |request: &Request| match request {
        Request::QueryOne { params, .. } => {
            assert_eq!(params, &vec![text("posts")]);
            Reply::Row(Some(row(&["?column?"], vec![DbValue::Integer(1)])))
        }
        Request::QueryAll { sql, .. } if sql.contains("data_type") => Reply::Rows(vec![
            row(&["column_name", "data_type"], vec![text("id"), text("text")]),
            row(&["column_name", "data_type"], vec![text("n"), text("bigint")]),
        ]),
        Request::QueryAll { sql, .. } if sql.contains("column_name") => Reply::Rows(vec![
            row(&["column_name"], vec![text("id")]),
            row(&["column_name"], vec![DbValue::Null]),
        ]),
        Request::QueryAll { sql, params } if sql.contains("pg_indexes") => {
            assert_eq!(params, &vec![text("posts"), text("idx_%")]);
            Reply::Rows(vec![row(&["indexname"], vec![text("idx_a")])])
        }
        Request::QueryAll { .. } => Reply::Rows(vec![row(&["table_name"], vec![text("posts")])]),
        other => panic!("{other:?} was not expected"),
    };
    let pg = Dialect::Postgres;
    assert_eq!(run(pg, host, |s| table_exists(s, "posts")).0, Ok(true));
    assert_eq!(run(pg, host, |s| get_table_columns(s, "posts")).0, Ok(texts(&["id"])));
    assert_eq!(
        run(pg, host, |s| get_table_column_types(s, "posts")).0,
        Ok(vec![
            ("id".to_string(), "text".to_string()),
            ("n".to_string(), "bigint".to_string())
        ])
    );
    assert_eq!(run(pg, host, |s| index_names(s, "posts", "idx_")).0, Ok(texts(&["idx_a"])));
    assert_eq!(run(pg, host, list_user_tables).0, Ok(texts(&["posts"])));
}

#[test]
fn stored_json_is_read_in_one_form() {
    let columns = ["id", "meta"];
    let rows = vec![
        row(&columns, vec![text("r1"), text("{ \"b\" : [1,  2] }")]),
        row(&columns, vec![text("r2"), text("no json")]),
        row(&columns, vec![text("r3"), DbValue::Null]),
    ];
    let found = read_column_candidates(&rows, "meta");
    assert_eq!(found.len(), 1);
    assert_eq!(found[0].id, "r1");
    assert_eq!(found[0].part, "meta");
    assert_eq!(found[0].value, "{\"b\":[1,2]}");
}

#[test]
fn only_objects_of_defined_blocks_are_converted() {
    let blocks = vec![BlockDefinition::new("quote", Vec::new())];
    let object = || Some("{}".to_string());
    assert_eq!(convertible_block(&blocks, "quote", object()), object());
    assert_eq!(convertible_block(&blocks, "gone", object()), None);
    assert_eq!(convertible_block(&blocks, "quote", Some("[]".to_string())), None);
    assert_eq!(convertible_block(&blocks, "quote", None), None);

    let columns = ["id", "_block_type", "data"];
    let rows = vec![
        row(&columns, vec![text("r1"), text("quote"), text(" { } ")]),
        row(&columns, vec![text("r2"), text("gone"), text("{}")]),
    ];
    let found = read_block_candidates(&rows, &blocks);
    assert_eq!(found.len(), 1);
    assert_eq!((found[0].id.as_str(), found[0].value.as_str()), ("r1", "{}"));
}

#[test]
fn only_changed_values_are_written() {
    let candidate = |id: &str, value: &str| Candidate {
        id: id.to_string(),
        part: "meta".to_string(),
        value: value.to_string(),
    };
    let candidates = vec![candidate("r1", "{}"), candidate("r2", "{\"n\":\"1\"}")];
    let updates = changed_rows(&candidates, &texts(&["{}", "{\"n\":1}"]));
    assert_eq!(updates, vec![vec![text("{\"n\":1}"), text("r2")]]);
}

#[test]
fn a_shape_is_read_back() {
    for has_many in [false, true] {
        for polymorphic in [false, true] {
            for localized in [false, true] {
                let shape = Shape { has_many, polymorphic, localized };
                assert_eq!(Shape::decode(&shape.encode()), Some(shape));
            }
        }
    }
    for other in ["anything", "", "one+junk", "one+", "many+poly+", "ONE", " one"] {
        assert_eq!(Shape::decode(other), None, "{other}");
    }
}

fn legacy_queue(request: &Request) -> Reply {
    match request {
        Request::QueryAll { sql, .. } if sql.contains("sqlite_master") => {
            Reply::Rows(vec![row(&["name"], vec![text("_crap_image_queue")])])
        }
        Request::QueryAll { .. } => Reply::Rows(vec![row(
            &[
                "collection",
                "document_id",
                "source_path",
                "target_path",
                "format",
                "quality",
                "url_column",
                "url_value",
            ],
            vec![
                text("media"),
                text("m1"),
                text("a.png"),
                text("a.webp"),
                text("webp"),
                DbValue::Integer(300),
                text("url"),
                DbValue::Null,
            ],
        )]),
        _ => Reply::Done,
    }
}

#[test]
fn queued_images_become_jobs_and_the_queue_is_dropped() {
    let (done, sent) = run(Dialect::Sqlite, legacy_queue, drain_legacy_image_queue);
    assert_eq!(done, Ok(()));
    let job = ImageConvertJob {
        collection: "media".to_string(),
        document_id: "m1".to_string(),
        source_path: "a.png".to_string(),
        target_path: "a.webp".to_string(),
        format: "webp".to_string(),
        quality: 80,
        url_column: "url".to_string(),
        url_value: String::new(),
    };
    assert_eq!(sent.len(), 4);
    assert_eq!(
        sent[2],
        format!(
            "{:?}",
            Request::EnqueueImageConversions {
                job: "_system_image_convert".to_string(),
                queue: "images".to_string(),
                scheduled_by: ScheduledBy::System,
                attempts: Attempts::Fallback,
                priority: 0,
                jobs: vec![job],
            }
        )
    );
    assert_eq!(
        sent[3],
        format!(
            "{:?}",
            Request::ExecuteBatch { sql: "DROP TABLE IF EXISTS _crap_image_queue".to_string() }
        )
    );

    let (done, sent) = run(Dialect::Postgres, legacy_queue, drain_legacy_image_queue);
    assert_eq!((done, sent.len()), (Ok(()), 0));
}

#[test]
fn only_a_failed_search_for_the_old_queue_is_passed_over() {
    let (done, sent) = run(
        Dialect::Sqlite,
        |_| Reply::Failed("locked".to_string()),
        drain_legacy_image_queue,
    );
    assert_eq!((done, sent.len()), (Ok(()), 1));

    let (done, _) = run(Dialect::Sqlite, |_| Reply::Done, drain_legacy_image_queue);
    assert_eq!(done, Err(DbError::Unexpected));

    let mut session = Session::new(Dialect::Sqlite);
    assert_eq!(drain_legacy_image_queue(&mut session), Err(DbError::Pending));
    assert!(session.pending().is_some());
}

/// Answers every request with nothing, but for one that fails.
fn empty_database(failing: &'static str) -> impl FnMut(&Request) -> Reply {
    move |request| {
        if format!("{request:?}").contains(failing) {
            return Reply::Failed("refused".to_string());
        }
        match request {
            Request::QueryAll { .. } => Reply::Rows(Vec::new()),
            Request::QueryOne { .. } => Reply::Row(None),
            Request::Execute { .. } | Request::ExecuteMany { .. } => Reply::Count(0),
            Request::TableExists { .. } => Reply::Flag(false),
            Request::TableColumns { .. }
            | Request::ListUserTables
            | Request::IndexNames { .. }
            | Request::HeldLocales { .. } => Reply::Names(Vec::new()),
            Request::TableColumnTypes { .. } => Reply::Types(Vec::new()),
            _ => Reply::Done,
        }
    }
}

#[test]
fn a_sync_locks_and_commits() {
    let pool = DbPool::from_backend(Dialect::Postgres);
    let registry = Registry::new();
    let config = LocaleConfig::disabled();
    let (done, sent) = run(Dialect::Postgres, empty_database("no such request"), |s| {
        sync_all(&pool, s, &registry, &config)
    });
    assert_eq!(done, Ok(()));
    let begin = sent.iter().position(|r| r == "Begin").expect("a transaction is begun");
    let lock = format!("{:?}", Request::AdvisoryLock { key: SCHEMA_SYNC_LOCK_KEY });
    assert_eq!(sent[begin + 1], lock);
    assert_eq!(sent.last().map(|r| r.as_str()), Some("Commit"));
    assert!(!sent.iter().any(|r| r == "Rollback"));
    assert_eq!(SCHEMA_SYNC_LOCK_KEY, 0x6372_6170_7379_6e63);
}

#[test]
fn a_failed_sync_is_rolled_back() {
    let pool = DbPool::from_backend(Dialect::Sqlite);
    let registry = Registry::new();
    let config = LocaleConfig::disabled();
    let (failed, sent) = run(Dialect::Sqlite, empty_database("_crap_meta"), |s| {
        sync_all(&pool, s, &registry, &config)
    });
    let refused = DbError::Backend("Failed to create _crap_meta table: refused".to_string());
    assert_eq!(failed, Err(refused));
    assert_eq!(sent.last().map(|r| r.as_str()), Some("Rollback"));
    assert!(!sent.iter().any(|r| r == "Commit"));

    let (failed, sent) = run(Dialect::Sqlite, empty_database("_crap_meta"), |s| {
        recreate_all(&pool, s, &registry, &config)
    });
    let refused = DbError::Backend("Failed to create _crap_meta table: refused".to_string());
    assert_eq!(failed, Err(refused));
    assert_eq!(sent.last().map(|r| r.as_str()), Some("Rollback"));
}

#[test]
fn an_error_says_what_was_being_done() {
    let pool = DbPool::from_backend(Dialect::Postgres);
    let registry = Registry::new();
    let config = LocaleConfig::disabled();
    for (failing, text) in [
        ("Connect", "Failed to get DB connection"),
        ("Begin", "Failed to start migration transaction"),
        ("AdvisoryLock", "Failed to acquire the schema-sync lock"),
        ("_crap_migrations", "Failed to create _crap_migrations table"),
        ("_crap_cron_fired", "Failed to create _crap_cron_fired table"),
        ("_crap_user_settings", "Failed to create _crap_user_settings table"),
        ("EXISTS _crap_jobs", "Failed to create _crap_jobs table"),
        ("ADD COLUMN retry_after", "Failed to add retry_after column to _crap_jobs"),
        ("ADD COLUMN priority", "Failed to add priority column to _crap_jobs"),
        ("ADD COLUMN unique_key", "Failed to add unique_key column to _crap_jobs"),
        ("idx_crap_jobs_priority", "Failed to create alpha.9 indexes on _crap_jobs"),
        (
            "ref_count_backfilled",
            "Failed to remove the retired meta key ref_count_backfilled",
        ),
        ("Commit", "Failed to commit migration transaction"),
    ] {
        let (failed, _) = run(Dialect::Postgres, empty_database(failing), |s| {
            sync_all(&pool, s, &registry, &config)
        });
        assert_eq!(failed.unwrap_err().message(), format!("{text}: refused"));
    }
    let (failed, _) = run(Dialect::Postgres, empty_database("Commit"), |s| {
        recreate_all(&pool, s, &registry, &config)
    });
    let text = "Failed to commit the recreated schema: refused";
    assert_eq!(failed, Err(DbError::Backend(text.to_string())));

    let (failed, _) = run(Dialect::Sqlite, empty_database("INSERT"), |s| {
        record_migration(s, "20260101_a.lua")
    });
    let text = "Failed to record migration 20260101_a.lua: refused";
    assert_eq!(failed, Err(DbError::Backend(text.to_string())));
    let (failed, _) = run(Dialect::Sqlite, empty_database("DELETE"), |s| {
        remove_migration(s, "20260101_a.lua")
    });
    let text = "Failed to remove migration record 20260101_a.lua: refused";
    assert_eq!(failed, Err(DbError::Backend(text.to_string())));
}

#[test]
fn foreign_keys_that_stay_off_are_an_error_of_their_own() {
    let pool = DbPool::from_backend(Dialect::Sqlite);
    let mut registry = Registry::new();
    registry.register_collection(CollectionDefinition::new("posts"));
    let config = LocaleConfig::disabled();
    let rebuilt = |failing: &'static [&'static str]| {
        move |request: &Request| {
            let text = format!("{request:?}");
            if failing.iter().any(|f| text.contains(f)) {
                return Reply::Failed("refused".to_string());
            }
            match request {
                Request::NeedsRebuild { .. } => Reply::Flag(true),
                Request::TableExists { .. } => Reply::Flag(true),
                other => empty_database("no such request")(other),
            }
        }
    };

    let mut session = Session::new(Dialect::Sqlite);
    let mut host = rebuilt(&["foreign_keys = ON", "_crap_meta"]);
    let failed = loop {
        session.rewind();
        let outcome = sync_all(&pool, &mut session, &registry, &config);
        let reply = match session.pending() {
            Some(request) => host(request),
            None => break outcome,
        };
        session.answer(reply);
    };
    let text = "Failed to create _crap_meta table: refused";
    assert_eq!(failed, Err(DbError::Backend(text.to_string())));
    assert!(session.warnings().is_empty());
    assert_eq!(
        session.errors(),
        &texts(&[
            "Failed to re-enable foreign keys after the failed schema sync: Failed to set \
             foreign_keys = ON: refused",
        ])
    );

    let (failed, _) = run(Dialect::Sqlite, rebuilt(&["foreign_keys = OFF"]), |s| {
        sync_all(&pool, s, &registry, &config)
    });
    let text = "Failed to set foreign_keys = OFF: refused";
    assert_eq!(failed, Err(DbError::Backend(text.to_string())));
}

#[test]
fn columns_without_a_field_are_reported_by_name() {
    let mut session = Session::new(Dialect::Sqlite);
    warn_orphan_columns(
        &mut session,
        "posts",
        &texts(&["id", "title", "old_b", "_status", "old_a", "created_at"]),
        &texts(&["title"]),
    );
    assert_eq!(
        session.warnings(),
        &texts(&[
            "Column 'old_a' exists in table 'posts' but not in Lua definition (not removed)",
            "Column 'old_b' exists in table 'posts' but not in Lua definition (not removed)",
        ])
    );
    assert!(session.sent().is_empty());
    assert!(is_system_column("updated_at"));
    assert!(!is_system_column("title"));
}

#[test]
fn a_column_of_another_type_is_refused() {
    let types = vec![("price".to_string(), "text".to_string())];
    assert_eq!(check_type_mismatch("posts", &types, "price", "TEXT"), Ok(()));
    assert_eq!(check_type_mismatch("posts", &types, "title", "REAL"), Ok(()));
    let refused = check_type_mismatch("posts", &types, "price", "REAL").unwrap_err().message();
    assert!(
        refused.starts_with(
            "Column 'price' in table 'posts' is 'text' but the field definition expects 'REAL'."
        ),
        "{refused}"
    );
}

#[test]
fn postgres_alters_columns_in_place() {
    let count = |_: &Request| Reply::Count(0);
    let columns = texts(&["title", "order"]);
    let (done, sent) =
        run(Dialect::Postgres, count, |s| drop_not_null(s, "posts", &columns));
    assert_eq!(done, Ok(()));
    let relaxed = |column: &str| {
        format!(
            "{:?}",
            Request::Execute {
                sql: format!("ALTER TABLE \"posts\" ALTER COLUMN \"{column}\" DROP NOT NULL"),
                params: Vec::new(),
            }
        )
    };
    assert_eq!(sent, vec![relaxed("title"), relaxed("order")]);

    let types = vec![("scores".to_string(), "double precision".to_string())];
    let (done, sent) = run(Dialect::Postgres, count, |s| {
        reconcile_scalar_list_column(s, "posts", "scores", &types)
    });
    assert_eq!(done, Ok(()));
    assert_eq!(sent.len(), 1);
    assert!(sent[0].contains("TYPE TEXT USING"), "{sent:?}");
    let (_, sent) = run(Dialect::Sqlite, count, |s| {
        reconcile_scalar_list_column(s, "posts", "scores", &types)
    });
    assert!(sent.is_empty());
}

#[test]
fn the_host_carries_out_what_the_last_run_asks_for() {
    let pool = DbPool::from_backend(Dialect::Sqlite);
    let registry = Registry::new();
    let config = LocaleConfig::disabled();
    let mut host = empty_database("no such request");
    let mut carried_out: Vec<String> = Vec::new();
    let (done, sent) = run(
        Dialect::Sqlite,
        |request| {
            carried_out.push(format!("{request:?}"));
            host(request)
        },
        |s| sync_all(&pool, s, &registry, &config),
    );
    assert_eq!(done, Ok(()));
    assert!(sent.len() > 10);
    assert_eq!(sent, carried_out);
}

fn key_row(constraint: &str, column: &str) -> DbRow {
    row(&["constraint_name", "column_name"], vec![text(constraint), text(column)])
}

#[test]
fn postgres_constraints_are_grouped_by_name() {
    let host = |request: &Request| match request {
        Request::QueryAll { params, .. } => {
            assert_eq!(params, &vec![text("posts"), text("UNIQUE")]);
            Reply::Rows(vec![
                key_row("posts_slug_key", "slug"),
                key_row("posts_a_b_key", "a"),
                key_row("posts_a_b_key", "b"),
            ])
        }
        other => panic!("{other:?} was not expected"),
    };
    let (found, _) = run(Dialect::Postgres, host, |s| {
        table_constraints(s, "posts", ConstraintKind::Unique)
    });
    assert_eq!(
        found,
        Ok(vec![
            TableConstraint { name: "posts_a_b_key".to_string(), columns: texts(&["a", "b"]) },
            TableConstraint { name: "posts_slug_key".to_string(), columns: texts(&["slug"]) },
        ])
    );

    let (found, _) = run(
        Dialect::Postgres,
        |_| Reply::Rows(vec![row(&["constraint_name"], vec![text("posts_pkey")])]),
        |s| table_constraints(s, "posts", ConstraintKind::PrimaryKey),
    );
    let text = "Failed to read the constraints of 'posts': no text in column column_name";
    assert_eq!(found, Err(DbError::Backend(text.to_string())));
}

#[test]
fn postgres_widens_a_key_in_place() {
    let host = |request: &Request| match request {
        Request::QueryAll { sql, .. } if sql.contains("constraint_name") => Reply::Rows(vec![
            key_row("posts_tags_pkey", "parent_id"),
            key_row("posts_tags_pkey", "related_id"),
        ]),
        Request::QueryAll { .. } => Reply::Rows(vec![
            row(&["column_name"], vec![text("parent_id")]),
            row(&["column_name"], vec![text("related_id")]),
            row(&["column_name"], vec![text("_order")]),
        ]),
        Request::Execute { .. } => Reply::Count(0),
        other => panic!("{other:?} was not expected"),
    };
    let shape = JunctionShape::new(true, Some("en".to_string()));
    let (done, sent) = run(Dialect::Postgres, host, |s| {
        reconcile_junction_shape(s, "posts_tags", "posts", &shape)
    });
    assert_eq!(done, Ok(()));
    let altered: Vec<&String> = sent.iter().filter(|r| r.starts_with("Execute")).collect();
    let ddl = |sql: &str| {
        format!("{:?}", Request::Execute { sql: sql.to_string(), params: Vec::new() })
    };
    assert_eq!(
        altered,
        vec![
            &ddl("ALTER TABLE \"posts_tags\" ADD COLUMN related_collection TEXT NOT NULL DEFAULT ''"),
            &ddl("ALTER TABLE \"posts_tags\" ADD COLUMN _locale TEXT NOT NULL DEFAULT 'en'"),
            &ddl("ALTER TABLE \"posts_tags\" DROP CONSTRAINT \"posts_tags_pkey\""),
            &ddl(
                "ALTER TABLE \"posts_tags\" ADD PRIMARY KEY \
                 (parent_id, related_id, related_collection, _locale)"
            ),
        ]
    );

    let (done, sent) = run(Dialect::Postgres, host, |s| {
        reconcile_junction_shape(s, "posts_tags", "posts", &JunctionShape::new(false, None))
    });
    assert_eq!((done, sent.len()), (Ok(()), 1));
}

#[test]
fn postgres_lists_the_columns_to_relax() {
    let host = |request: &Request| match request {
        Request::QueryOne { .. } => Reply::Row(None),
        Request::QueryAll { sql, .. } => {
            assert!(sql.ends_with("AND table_name = $1 AND is_nullable = 'NO'"), "{sql}");
            Reply::Rows(
                ["title", "id", "_status", "body"]
                    .iter()
                    .map(|name| row(&["name"], vec![text(name)]))
                    .collect(),
            )
        }
        other => panic!("{other:?} was not expected"),
    };
    let (columns, _) = run(Dialect::Postgres, host, |s| columns_to_relax(s, "posts"));
    assert_eq!(columns, Ok(Some(texts(&["body", "title"]))));
}

#[test]
fn checkboxes_have_a_small_type_on_postgres() {
    assert_eq!(Dialect::Postgres.column_type_for(FieldType::Checkbox), "SMALLINT");
    assert_eq!(Dialect::Sqlite.column_type_for(FieldType::Checkbox), "INTEGER");
}

#[test]
fn the_converted_rows_of_every_table_are_counted() {
    let mut blocks = FieldDefinition::new("body", FieldType::Blocks);
    blocks.blocks = vec![BlockDefinition::new(
        "quote",
        vec![FieldDefinition::new("shown", FieldType::Checkbox)],
    )];
    let mut meta = FieldDefinition::new("meta", FieldType::Group);
    meta.fields = vec![FieldDefinition::new("on", FieldType::Checkbox)];
    let mut items = FieldDefinition::new("items", FieldType::Array);
    items.fields = vec![meta];
    let fields = vec![blocks, items];
    let host = |request: &Request| match request {
        Request::TableExists { .. } => Reply::Flag(true),
        Request::QueryAll { sql, .. } if sql.contains("posts_body") => Reply::Rows(vec![
            row(&["id", "_block_type", "data"], vec![text("b1"), text("quote"), text("{\"shown\":\"1\"}")]),
            row(&["id", "_block_type", "data"], vec![text("b2"), text("quote"), text("{\"shown\":true}")]),
            row(&["id", "_block_type", "data"], vec![text("b3"), text("gone"), text("{}")]),
        ]),
        Request::QueryAll { .. } => Reply::Rows(vec![
            row(&["id", "meta"], vec![text("i1"), text("{\"on\":\"1\"}")]),
        ]),
        Request::StoreNestedValues { table, fields: subs, blocks, values, .. } => {
            if table == "posts_body" {
                assert_eq!((subs, blocks), (&Vec::new(), &fields[0].blocks));
            } else {
                assert_eq!((subs, blocks), (&fields[1].fields, &Vec::new()));
            }
            Reply::Names(values.iter().map(|v| v.replace("\"1\"", "true")).collect())
        }
        Request::ExecuteMany { rows, .. } => Reply::Count(rows.len() as u64),
        other => panic!("{other:?} was not expected"),
    };
    let (converted, _) = run(Dialect::Sqlite, host, |s| convert_join_tables(s, "posts", &fields));
    assert_eq!(converted, Ok(2), "b1 and i1 changed, b2 and b3 did not");

    let mut registry = Registry::new();
    let mut posts = CollectionDefinition::new("posts");
    posts.fields = fields.iter().map(|f| f.copy()).collect();
    registry.register_collection(posts);
    let recorded = |request: &Request| match request {
        Request::QueryOne { .. } => Reply::Row(None),
        Request::Execute { .. } => Reply::Count(1),
        Request::ConvertTimezoneDates { values, .. } => {
            Reply::Names(values.iter().map(|v| format!("{v} ")).collect())
        }
        other => host(other),
    };
    assert_eq!(
        notes_of(Dialect::Sqlite, recorded, |s| nested_values::convert_if_needed(s, &registry)),
        texts(&["Stored the nested values of 2 row(s) of 'posts' in their typed form"])
    );
    assert_eq!(
        notes_of(Dialect::Sqlite, recorded, |s| {
            nested_timezone_dates::convert_if_needed(s, &registry)
        }),
        texts(&["Converted nested timezone dates to UTC in 3 row(s) of 'posts'"])
    );

    let failing = |request: &Request| match request {
        Request::ExecuteMany { .. } => Reply::Failed("full".to_string()),
        other => host(other),
    };
    let (failed, _) = run(Dialect::Sqlite, failing, |s| convert_join_tables(s, "posts", &fields));
    assert_eq!(
        failed.unwrap_err().message(),
        "Failed to convert nested values in posts_body: full"
    );
}

#[test]
fn a_slug_is_defined_once() {
    let mut registry = Registry::new();
    registry.register_collection(CollectionDefinition::new("posts"));
    registry.register_collection(CollectionDefinition::new("tags"));
    let mut later = CollectionDefinition::new("posts");
    later.soft_delete = true;
    registry.register_collection(later);
    let found: Vec<(&str, bool)> =
        registry.collections.iter().map(|c| (c.slug.as_str(), c.soft_delete)).collect();
    assert_eq!(found, vec![("posts", true), ("tags", false)]);

    registry.register_global(GlobalDefinition::new("site"));
    let mut later = GlobalDefinition::new("site");
    later.fields = vec![FieldDefinition::new("title", FieldType::Text)];
    registry.register_global(later);
    assert_eq!(registry.globals.len(), 1);
    assert_eq!(registry.globals[0].fields.len(), 1);
}

/// Runs an operation and hands back what it says of what it does.
fn notes_of<T>(
    dialect: Dialect,
    mut host: impl FnMut(&Request) -> Reply,
    mut operation: impl FnMut(&mut Session) -> Result<T, DbError>,
) -> Vec<String> {
    let mut session = Session::new(dialect);
    loop {
        session.rewind();
        let _ = operation(&mut session);
        let reply = match session.pending() {
            Some(request) => host(request),
            None => return session.notes().clone(),
        };
        session.answer(reply);
    }
}

#[test]
fn operations_say_what_they_do() {
    let mut scores = FieldDefinition::new("scores", FieldType::Number);
    scores.has_many = true;
    let mut items = FieldDefinition::new("items", FieldType::Array);
    items.fields = vec![scores, FieldDefinition::new("name", FieldType::Text)];
    let mut body = FieldDefinition::new("body", FieldType::Blocks);
    body.localized = true;
    let mut tags = FieldDefinition::new("tags", FieldType::Relationship);
    tags.relationship = Some(RelationshipConfig::new("tags", true));
    let fields = vec![items, body, tags];
    let config = LocaleConfig {
        default_locale: "en".to_string(),
        locales: texts(&["en", "de"]),
        fallback: false,
    };
    let made = notes_of(Dialect::Sqlite, empty_database("no such request"), |s| {
        sync_join_tables(s, "posts", &fields, &config)
    });
    assert_eq!(
        made,
        texts(&[
            "Creating array table: posts_items",
            "Creating blocks table: posts_body",
            "Creating junction table: posts_tags",
        ])
    );

    let stored = |request: &Request| match request {
        Request::QueryOne { sql, .. } if sql.contains("information_schema.tables") => {
            Reply::Row(Some(row(&["1"], vec![DbValue::Integer(1)])))
        }
        Request::QueryAll { sql, .. } if sql.contains("data_type") => Reply::Rows(vec![row(
            &["column_name", "data_type"],
            vec![text("scores"), text("double precision")],
        )]),
        Request::QueryAll { sql, .. } if sql.contains("information_schema.columns") => {
            Reply::Rows(vec![row(&["column_name"], vec![text("scores")])])
        }
        Request::QueryAll { sql, .. } if sql.contains("key_column_usage") => {
            Reply::Rows(vec![row(
                &["constraint_name", "column_name"],
                vec![text("pk"), text("parent_id")],
            )])
        }
        other => empty_database("no such request")(other),
    };
    let changed = notes_of(Dialect::Postgres, stored, |s| {
        sync_join_tables(s, "posts", &fields, &config)
    });
    assert_eq!(
        changed,
        texts(&[
            "Reconciling scalar has-many column posts_items.scores to TEXT",
            "Adding column to posts_items: name",
            "Adding _locale column to posts_body",
            "Re-keying junction table posts_tags by (parent_id, related_id) (was (parent_id))",
        ])
    );

    assert_eq!(
        notes_of(Dialect::Sqlite, legacy_queue, drain_legacy_image_queue),
        texts(&["Drained 1 legacy image-queue entries into _crap_jobs (table dropped)"])
    );
    assert_eq!(
        notes_of(Dialect::Sqlite, empty_database("no such request"), |s| {
            sync_versions_table(s, "posts")
        }),
        texts(&["Creating versions table: _versions_posts"])
    );
    let two = |request: &Request| match request {
        Request::ListUserTables => Reply::Names(texts(&["a", "b"])),
        other => empty_database("no such request")(other),
    };
    assert_eq!(
        notes_of(Dialect::Sqlite, two, drop_tables),
        texts(&["Dropped table: a", "Dropped table: b"])
    );

    let narrowed = |request: &Request| match request {
        Request::QueryOne { .. } => {
            Reply::Row(Some(row(&["value"], vec![text("1:per_locale")])))
        }
        Request::HeldLocales { .. } => Reply::Names(texts(&["en", "de"])),
        Request::DeleteRowsOutsideLocales { .. } => Reply::Count(3),
        other => empty_database("no such request")(other),
    };
    assert_eq!(
        notes_of(Dialect::Sqlite, narrowed, |s| {
            sync_locale_rows(s, "posts_items", false, &config)
        }),
        texts(&[
            "Dropped 3 row(s) of locales other than 'en' from 'posts_items': its field is no \
             longer localized",
        ])
    );
}
