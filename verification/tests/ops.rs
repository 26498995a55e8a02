use cms_db::definition::{
    CollectionDefinition, FieldDefinition, FieldType, GlobalDefinition, LocaleConfig,
    VersionsConfig,
};
use cms_db::document::{flatten_group_fields, keep_empty_groups, nest_group_fields, Document};
use cms_db::json::{get_value, Json};
use cms_db::ops::{
    count_documents, find_by_id_full, find_document_by_id, find_documents, get_global,
    FindByIdFullParams,
};
use cms_db::pool::DbPool;
use cms_db::query::{Filter, FilterClause, FilterOp, FindQuery, VersionSnapshot};
use cms_db::session::{Dialect, Reply, Request, Session};
use cms_db::snapshot::{
    document_from_snapshot, resolve_snapshot_locale, LocaleContext, LocaleMode,
};
use cms_db::value::DbError;
use serde_json::Value;

fn from_value(value: &Value) -> Json {
    match value {
        Value::Null => Json::Null,
        Value::Bool(b) => Json::Bool(*b),
        Value::Number(n) => Json::Number(n.to_string()),
        Value::String(s) => Json::Text(s.clone()),
        Value::Array(items) => Json::Array(items.iter().map(from_value).collect()),
        Value::Object(map) => {
            Json::Object(map.iter().map(|(k, v)| (k.clone(), from_value(v))).collect())
        }
    }
}

fn to_value(json: &Json) -> Value {
    match json {
        Json::Null => Value::Null,
        Json::Bool(b) => Value::Bool(*b),
        Json::Number(n) => serde_json::from_str(n).unwrap(),
        Json::Text(s) => Value::String(s.clone()),
        Json::Array(items) => Value::Array(items.iter().map(to_value).collect()),
        Json::Object(entries) => {
            Value::Object(entries.iter().map(|(k, v)| (k.clone(), to_value(v))).collect())
        }
    }
}

fn json(text: &str) -> Json {
    from_value(&serde_json::from_str(text).unwrap())
}

fn value(text: &str) -> Value {
    serde_json::from_str(text).unwrap()
}

fn get(doc: &Document, key: &str) -> Option<Value> {
    get_value(&doc.fields, key).map(|v| to_value(&v))
}

fn get_str(doc: &Document, key: &str) -> Option<String> {
    match get_value(&doc.fields, key) {
        Some(Json::Text(s)) => Some(s),
        _ => None,
    }
}

fn contains_key(doc: &Document, key: &str) -> bool {
    get_value(&doc.fields, key).is_some()
}

fn field(name: &str, field_type: FieldType) -> FieldDefinition {
    FieldDefinition::new(name, field_type)
}

fn localized(name: &str, field_type: FieldType) -> FieldDefinition {
    let mut f = field(name, field_type);
    f.localized = true;
    f
}

fn localized_date(name: &str) -> FieldDefinition {
    let mut f = localized(name, FieldType::Date);
    f.timezone = true;
    f
}

fn group(name: &str, fields: Vec<FieldDefinition>) -> FieldDefinition {
    let mut f = field(name, FieldType::Group);
    f.fields = fields;
    f
}

fn context(mode: LocaleMode, locales: &[&str], fallback: bool) -> LocaleContext {
    LocaleContext {
        mode,
        config: LocaleConfig {
            default_locale: "en".to_string(),
            locales: locales.iter().map(|l| l.to_string()).collect(),
            fallback,
        },
    }
}

/// Runs an operation to its end, each request answered by `host`, and hands back
/// the requests too.
fn run<T>(
    host: impl Fn(&Request) -> Reply,
    mut operation: impl FnMut(&mut Session) -> Result<T, DbError>,
) -> (Result<T, DbError>, Vec<String>) {
    let mut session = Session::new(Dialect::Sqlite);
    loop {
        session.rewind();
        let result = operation(&mut session);
        let reply = match session.pending() {
            None => {
                let sent = session.sent().iter().map(|r| format!("{r:?}")).collect();
                return (result, sent);
            }
            Some(request) => host(request),
        };
        session.answer(reply);
    }
}

/// A draft read resolves a hyphenated locale from its column-form key
/// (`title__pt_BR`), a timezone date's companion follows the locale its
/// date came from, and no decorated key — the companion's included —
/// reaches the caller.
#[test]
fn snapshot_resolves_a_hyphenated_locale_and_its_timezone() {
    let fields = vec![localized("title", FieldType::Text), localized_date("starts")];
    let ctx = context(LocaleMode::Single("pt-BR".to_string()), &["en", "pt-BR"], true);
    let snapshot = json(
        r#"{
            "title": "Hello",
            "title__en": "Hello",
            "title__pt_BR": "Olá",
            "starts": "2026-01-01T10:00:00.000Z",
            "starts__en": "2026-01-01T10:00:00.000Z",
            "starts__pt_BR": "2026-01-01T13:00:00.000Z",
            "starts_tz": "Europe/London",
            "starts_tz__en": "Europe/London",
            "starts_tz__pt_BR": "America/Sao_Paulo"
        }"#,
    );
    let mut doc = document_from_snapshot("d1", &snapshot).unwrap();

    resolve_snapshot_locale(&mut doc, &fields, Some(&ctx)).unwrap();

    assert_eq!(get_str(&doc, "title").as_deref(), Some("Ol\u{e1}"));
    assert_eq!(get_str(&doc, "starts").as_deref(), Some("2026-01-01T13:00:00.000Z"));
    assert_eq!(get_str(&doc, "starts_tz").as_deref(), Some("America/Sao_Paulo"));
    for key in ["title__pt_BR", "starts__en", "starts_tz__en", "starts_tz__pt_BR"] {
        assert!(!contains_key(&doc, key), "{key} must be dropped");
    }
}

/// A draft read of every locale returns each locale's value, as the published
/// read does.
#[test]
fn an_all_locales_draft_read_maps_every_locale() {
    let fields = vec![localized("title", FieldType::Text)];
    let ctx = context(LocaleMode::All, &["en", "de"], false);
    let snapshot = json(r#"{ "title": "Hallo", "title__en": "Hello", "title__de": "Hallo" }"#);
    let mut doc = document_from_snapshot("d1", &snapshot).unwrap();

    resolve_snapshot_locale(&mut doc, &fields, Some(&ctx)).unwrap();

    assert_eq!(get(&doc, "title"), Some(value(r#"{ "en": "Hello", "de": "Hallo" }"#)));
}

/// An empty group object the snapshot carries is kept.
#[test]
fn an_empty_group_survives_resolution() {
    let fields = vec![group("seo", vec![field("title", FieldType::Text)])];
    let mut doc = document_from_snapshot("d1", &json(r#"{ "seo": {} }"#)).unwrap();

    resolve_snapshot_locale(&mut doc, &fields, None).unwrap();

    assert_eq!(get(&doc, "seo"), Some(value("{}")));
}

/// A localized field inside a group is resolved where it is, and leaves no
/// stray key beside the group.
#[test]
fn snapshot_resolves_a_localized_group_field_in_place() {
    let fields =
        vec![group("seo", vec![localized("title", FieldType::Text), localized_date("starts")])];
    let ctx = context(LocaleMode::Single("de".to_string()), &["en", "de"], false);
    let snapshot = json(
        r#"{
            "seo": {
                "title": "Hello",
                "starts": "2026-01-01T10:00:00.000Z",
                "starts_tz": "Europe/London"
            },
            "seo__title__en": "Hello",
            "seo__title__de": "Hallo",
            "seo__starts__en": "2026-01-01T10:00:00.000Z",
            "seo__starts__de": "2026-01-01T09:00:00.000Z",
            "seo__starts_tz__en": "Europe/London",
            "seo__starts_tz__de": "Europe/Berlin"
        }"#,
    );
    let mut doc = document_from_snapshot("d1", &snapshot).unwrap();

    resolve_snapshot_locale(&mut doc, &fields, Some(&ctx)).unwrap();

    assert_eq!(
        get(&doc, "seo"),
        Some(value(
            r#"{
                "title": "Hallo",
                "starts": "2026-01-01T09:00:00.000Z",
                "starts_tz": "Europe/Berlin"
            }"#
        ))
    );
    assert!(!contains_key(&doc, "seo__title"), "{:?}", doc.fields);
}

/// A locale without rows of a localized join field counts as empty: with
/// fallback on the draft read takes the default locale's rows, as the
/// published read does; with nothing to take it reads `[]`.
#[test]
fn snapshot_join_rows_fall_back_like_the_published_read() {
    let fields = vec![localized("slides", FieldType::Array)];
    let snapshot = json(
        r#"{
            "slides": [{ "id": "r1" }],
            "slides__en": [{ "id": "r1" }],
            "slides__de": []
        }"#,
    );

    for (fallback, expected) in [(true, value(r#"[{ "id": "r1" }]"#)), (false, value("[]"))] {
        let ctx = context(LocaleMode::Single("de".to_string()), &["en", "de"], fallback);
        let mut doc = document_from_snapshot("d1", &snapshot).unwrap();

        resolve_snapshot_locale(&mut doc, &fields, Some(&ctx)).unwrap();

        assert_eq!(get(&doc, "slides"), Some(expected), "fallback {fallback}");
    }
}

/// A draft read in a locale the snapshot has no value for returns nothing, as
/// the published read does, and not the value under the bare key.
#[test]
fn snapshot_without_a_value_in_the_reading_locale_reads_null() {
    let fields = vec![localized("title", FieldType::Text)];
    let ctx = context(LocaleMode::Single("fr".to_string()), &["en", "de", "fr"], false);
    let snapshot = json(
        r#"{
            "title": "Hallo",
            "title__en": "Hello",
            "title__de": "Hallo",
            "title__fr": null
        }"#,
    );
    let mut doc = document_from_snapshot("d1", &snapshot).unwrap();

    resolve_snapshot_locale(&mut doc, &fields, Some(&ctx)).unwrap();

    assert_eq!(get(&doc, "title"), Some(Value::Null));
}

#[test]
fn snapshot_object_lifts_timestamps_out_of_fields() {
    let snapshot = json(
        r#"{
            "title": "Hello",
            "created_at": "2026-01-01T00:00:00Z",
            "updated_at": "2026-01-02T00:00:00Z"
        }"#,
    );

    let doc = document_from_snapshot("doc-1", &snapshot).unwrap();

    assert_eq!(doc.id, "doc-1");
    assert_eq!(doc.created_at.as_deref(), Some("2026-01-01T00:00:00Z"));
    assert_eq!(doc.updated_at.as_deref(), Some("2026-01-02T00:00:00Z"));

    assert_eq!(get_str(&doc, "title").as_deref(), Some("Hello"));
    assert!(!contains_key(&doc, "created_at"));
    assert!(!contains_key(&doc, "updated_at"));
}

#[test]
fn snapshot_without_timestamps_yields_none_metadata() {
    let doc = document_from_snapshot("doc-2", &json(r#"{ "title": "x" }"#)).unwrap();
    assert!(doc.created_at.is_none());
    assert!(doc.updated_at.is_none());
    assert_eq!(get_str(&doc, "title").as_deref(), Some("x"));
}

#[test]
fn non_object_snapshot_is_rejected() {
    assert!(document_from_snapshot("doc-3", &json("null")).is_none());
    assert!(document_from_snapshot("doc-3", &json("[1, 2, 3]")).is_none());
    assert!(document_from_snapshot("doc-3", &json("\"scalar\"")).is_none());
}

/// Without a locale context the values per locale are dropped all the same.
#[test]
fn a_read_without_locales_drops_the_values_per_locale() {
    let fields = vec![localized("title", FieldType::Text)];
    let snapshot = json(r#"{ "title": "Hello", "title__en": "Hello", "title__de": "Hallo" }"#);
    let mut doc = document_from_snapshot("d1", &snapshot).unwrap();

    resolve_snapshot_locale(&mut doc, &fields, None).unwrap();

    assert_eq!(to_value(&Json::Object(doc.fields)), value(r#"{ "title": "Hello" }"#));
}

fn entries(text: &str) -> Vec<(String, Json)> {
    match json(text) {
        Json::Object(entries) => entries,
        other => panic!("{other:?} is no object"),
    }
}

#[test]
fn groups_are_put_at_the_top_and_back() {
    let fields = vec![
        group("seo", vec![field("title", FieldType::Text), group("og", vec![
            field("image", FieldType::Text),
        ])]),
        field("body", FieldType::Text),
    ];
    let nested = entries(r#"{ "body": "b", "seo": { "title": "t", "og": { "image": "i" } } }"#);

    let flat = flatten_group_fields(&nested, &fields);

    assert_eq!(
        to_value(&Json::Object(flat)),
        value(r#"{ "body": "b", "seo__title": "t", "seo__og__image": "i" }"#)
    );
    let flat = entries(r#"{ "body": "b", "seo__title": "t", "seo__og__image": "i" }"#);
    assert_eq!(
        to_value(&Json::Object(nest_group_fields(&flat, &fields))),
        to_value(&Json::Object(nested))
    );
}

#[test]
fn an_empty_group_is_put_back_at_any_depth() {
    let mut og = field("og", FieldType::Group);
    og.fields = vec![field("image", FieldType::Text)];
    let mut seo = field("seo", FieldType::Group);
    seo.fields = vec![field("title", FieldType::Text), og];
    let mut row = field("row", FieldType::Row);
    row.fields = vec![field("extra", FieldType::Group)];
    let fields = vec![seo, row, field("data", FieldType::Json)];
    let source = entries(
        r#"{ "seo": { "og": {}, "title": "t" }, "extra": {}, "data": {}, "title__en": {} }"#,
    );
    let kept = keep_empty_groups(&source, &fields, entries(r#"{ "seo": { "title": "t" } }"#));
    assert_eq!(
        to_value(&Json::Object(kept)),
        value(r#"{ "seo": { "og": {}, "title": "t" }, "extra": {} }"#)
    );
}

#[test]
fn an_empty_object_under_a_locales_name_is_not_read() {
    let mut title = field("title", FieldType::Text);
    title.localized = true;
    let mut starts = field("starts", FieldType::Date);
    starts.localized = true;
    starts.timezone = true;
    let fields = vec![title, starts, field("seo", FieldType::Group)];
    let snapshot = json(
        r#"{ "title": "a", "title__en": {}, "title__xx": {}, "starts_tz__de": {}, "seo": {},
             "created_at": "c", "updated_at": "u" }"#,
    );
    let disabled = LocaleContext { mode: LocaleMode::Default, config: LocaleConfig::disabled() };
    for ctx in [None, Some(disabled)] {
        let mut doc = document_from_snapshot("d1", &snapshot).unwrap();
        resolve_snapshot_locale(&mut doc, &fields, ctx.as_ref()).unwrap();
        for key in ["title__en", "title__xx", "starts_tz__de"] {
            assert!(!contains_key(&doc, key), "{key} must be dropped");
        }
        assert!(contains_key(&doc, "seo"));
        assert_eq!(doc.id, "d1");
        assert_eq!(doc.created_at.as_deref(), Some("c"));
        assert_eq!(doc.updated_at.as_deref(), Some("u"));
    }
}

fn drafts_collection(soft_delete: bool) -> CollectionDefinition {
    let mut def = CollectionDefinition::new("posts");
    def.fields = vec![field("title", FieldType::Text)];
    def.versions = Some(VersionsConfig { drafts: true });
    def.soft_delete = soft_delete;
    def
}

fn row() -> Document {
    Document {
        id: "p1".to_string(),
        fields: entries(r#"{ "title": "published" }"#),
        created_at: None,
        updated_at: None,
    }
}

/// Answers for one post: its row, and a latest version with the status given.
fn posts_host(version: &'static str, live: bool, allowed: bool) -> impl Fn(&Request) -> Reply {
    move |request| match request {
        Request::DocumentIsLive { .. } => Reply::Flag(live),
        Request::FindLatestVersion { .. } => Reply::Version(Some(VersionSnapshot {
            status: version.to_string(),
            snapshot: json(r#"{ "title": "drafted", "_status": "stale" }"#),
        })),
        Request::MatchesConstraints { .. } => Reply::Flag(allowed),
        Request::DocumentStatus { .. } => Reply::Text(Some("published".to_string())),
        Request::FindByIdRaw { .. } => Reply::Document(Some(row())),
        Request::Find { .. } => Reply::Documents(vec![row()]),
        Request::Hydrate { document, .. } => {
            let mut whole = document.copy();
            whole.fields.push(("tags".to_string(), Json::Array(Vec::new())));
            Reply::Document(Some(whole))
        }
        other => panic!("{other:?} was not expected"),
    }
}

fn params<'a>(def: &'a CollectionDefinition, use_draft: bool) -> FindByIdFullParams<'a> {
    FindByIdFullParams {
        slug: "posts",
        def,
        id: "p1",
        locale_ctx: None,
        constraints: None,
        snapshot_constraints: Vec::new(),
        use_draft,
        include_deleted: false,
    }
}

#[test]
fn a_draft_is_read_in_place_of_the_row_with_the_rows_status() {
    let def = drafts_collection(false);
    let (doc, sent) = run(posts_host("draft", true, true), |s| {
        find_by_id_full(s, params(&def, true))
    });
    let doc = doc.unwrap().unwrap();
    assert_eq!(get_str(&doc, "title").as_deref(), Some("drafted"));
    assert_eq!(get_str(&doc, "_status").as_deref(), Some("published"));
    assert!(!contains_key(&doc, "tags"));
    assert_eq!(sent.len(), 3, "{sent:?}");
}

#[test]
fn a_draft_that_misses_its_constraints_is_not_served() {
    let def = drafts_collection(false);
    let (doc, _) = run(posts_host("draft", true, false), |s| {
        find_by_id_full(s, params(&def, true))
    });
    let doc = doc.unwrap().unwrap();
    assert_eq!(get_str(&doc, "title").as_deref(), Some("published"));
    assert!(contains_key(&doc, "tags"), "the row is read with its other tables");
}

#[test]
fn the_draft_of_a_deleted_document_is_not_served() {
    let def = drafts_collection(true);
    let (doc, sent) = run(posts_host("draft", false, true), |s| {
        find_by_id_full(s, params(&def, true))
    });
    assert_eq!(get_str(&doc.unwrap().unwrap(), "title").as_deref(), Some("published"));
    assert!(sent[0].starts_with("DocumentIsLive"), "{sent:?}");
    assert!(sent.iter().all(|r| !r.starts_with("FindLatestVersion")), "{sent:?}");

    let (doc, sent) = run(posts_host("draft", false, true), |s| {
        let mut asked = params(&def, true);
        asked.include_deleted = true;
        find_by_id_full(s, asked)
    });
    assert_eq!(get_str(&doc.unwrap().unwrap(), "title").as_deref(), Some("drafted"));
    assert!(sent[0].starts_with("FindLatestVersion"), "{sent:?}");
}

#[test]
fn a_published_version_is_no_draft() {
    let def = drafts_collection(false);
    let (doc, _) = run(posts_host("published", true, true), |s| {
        find_by_id_full(s, params(&def, true))
    });
    assert_eq!(get_str(&doc.unwrap().unwrap(), "title").as_deref(), Some("published"));
}

#[test]
fn a_read_without_drafts_reads_the_row_alone() {
    let def = drafts_collection(true);
    let (_, sent) = run(posts_host("draft", true, true), |s| {
        find_by_id_full(s, params(&def, false))
    });
    assert_eq!(sent.len(), 2, "{sent:?}");
    assert!(sent[0].starts_with("FindByIdRaw"));
    assert!(sent[1].starts_with("Hydrate"));
}

#[test]
fn a_constrained_read_looks_for_the_id_among_the_matches() {
    let def = drafts_collection(false);
    let owned = || {
        FilterClause::Single(Filter {
            field: "owner".to_string(),
            op: FilterOp::Equals("u1".to_string()),
        })
    };
    let (doc, sent) = run(posts_host("draft", true, true), |s| {
        let mut asked = params(&def, false);
        asked.constraints = Some(vec![owned()]);
        find_by_id_full(s, asked)
    });
    assert_eq!(doc.unwrap().unwrap().id, "p1");
    let expected = Request::Find {
        slug: "posts".to_string(),
        definition: def.copy(),
        query: FindQuery {
            filters: vec![
                owned(),
                FilterClause::Single(Filter {
                    field: "id".to_string(),
                    op: FilterOp::Equals("p1".to_string()),
                }),
            ],
            include_deleted: false,
            order_by: None,
            limit: None,
            offset: None,
        },
        locale: None,
    };
    assert_eq!(sent[0], format!("{expected:?}"));

    let (doc, sent) = run(
        |request| match request {
            Request::Find { .. } => Reply::Documents(Vec::new()),
            other => panic!("{other:?} was not expected"),
        },
        |s| {
            let mut asked = params(&def, false);
            asked.constraints = Some(vec![owned()]);
            find_by_id_full(s, asked)
        },
    );
    assert_eq!(doc.unwrap(), None);
    assert_eq!(sent.len(), 1);
}

#[test]
fn reads_take_a_connection_first() {
    let pool = DbPool::from_backend(Dialect::Sqlite);
    let host = |request: &Request| match request {
        Request::Connect { write: false } => Reply::Done,
        Request::Find { .. } => Reply::Documents(vec![row()]),
        Request::FindById { .. } | Request::GetGlobal { .. } => Reply::Document(Some(row())),
        Request::CountDocuments { .. } => Reply::Integer(7),
        other => panic!("{other:?} was not expected"),
    };
    let def = drafts_collection(false);
    let mut settings = GlobalDefinition::new("settings");
    settings.fields = vec![field("site_name", FieldType::Text)];
    let everything = || FindQuery {
        filters: Vec::new(),
        include_deleted: false,
        order_by: None,
        limit: None,
        offset: None,
    };

    let (found, sent) = run(host, |s| find_documents(&pool, s, "posts", &def, everything(), None));
    assert_eq!(found.unwrap(), vec![row()]);
    assert_eq!(sent.len(), 2);
    let expected = Request::Find {
        slug: "posts".to_string(),
        definition: drafts_collection(false),
        query: everything(),
        locale: None,
    };
    assert_eq!(sent[1], format!("{expected:?}"), "the documents are read by the definition");

    let (found, _) = run(host, |s| find_document_by_id(&pool, s, "posts", &def, "p1", None));
    assert_eq!(found.unwrap(), Some(row()));

    let (count, _) = run(host, |s| count_documents(&pool, s, "posts", &def, Vec::new(), None));
    assert_eq!(count.unwrap(), 7);

    let (global, sent) = run(host, |s| get_global(&pool, s, "settings", &settings, None));
    assert_eq!(global.unwrap(), row());
    let expected = Request::GetGlobal {
        slug: "settings".to_string(),
        definition: settings.copy(),
        locale: None,
    };
    assert_eq!(sent[1], format!("{expected:?}"));
    assert_eq!(settings.copy(), settings);

    let refused = |_: &Request| Reply::Failed("no connection".to_string());
    let (found, sent) = run(refused, |s| find_documents(&pool, s, "posts", &def, everything(), None));
    let text = "Failed to get DB connection: no connection";
    assert_eq!(found, Err(DbError::Backend(text.to_string())));
    assert_eq!(sent.len(), 1);
}

#[test]
fn a_global_without_a_document_is_an_answer_of_the_wrong_kind() {
    let pool = DbPool::from_backend(Dialect::Sqlite);
    let host = |request: &Request| match request {
        Request::Connect { .. } => Reply::Done,
        _ => Reply::Document(None),
    };
    let (def, settings) = (drafts_collection(false), GlobalDefinition::new("settings"));
    let (global, _) = run(host, |s| get_global(&pool, s, "settings", &settings, None));
    assert_eq!(global, Err(DbError::Unexpected));

    let (count, _) = run(host, |s| count_documents(&pool, s, "posts", &def, Vec::new(), None));
    assert_eq!(count, Err(DbError::Unexpected));
}
