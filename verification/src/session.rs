//! The conversation with a database: requests out, recorded answers in.
//!
//! A [`Session`] carries the answers the host has given so far. An operation
//! runs over it from the start, sending its requests in order; each is answered
//! from the record, and the first one without an answer stops the operation. The
//! host performs that request, records its answer and runs the operation again,
//! until it comes to an end. Rerunning costs no request twice: the answers
//! recorded are the answers given.
use crate::document::{Document, DocumentView, copy_documents};
use crate::migrate::system_tables::{Attempts, ImageConvertJob, ImageConvertJobView, ScheduledBy};
use crate::query::{
    FilterClause, FilterClauseView, FindQuery, FindQueryView, LocaleContextView, VersionSnapshot,
    VersionView,
};
use crate::snapshot::LocaleContext;
use crate::text::{copy_pairs, copy_texts, push_item, substitute, substituted};
use crate::value::{
    DbError, DbRow, DbRowView, DbValue, DbValueView, ErrorView, copy_rows, no_params, out,
    with_context,
};
use crate::definition::{
    BlockDefinition, BlockView, CollectionDefinition, CollectionView, FieldDefinition, FieldView,
    GlobalDefinition, GlobalView, blocks_view, fields_view,
};
use vstd::prelude::*;

verus! {

/// The kind of database at the other end.
#[derive(Debug, Clone, Copy, PartialEq, Eq, Structural)]
pub enum Dialect {
    Sqlite,
    Postgres,
}

/// One thing the host is asked to do.
#[derive(Debug, PartialEq, Eq)]
pub enum Request {
    /// Run a statement and hand back every row.
    QueryAll { sql: String, params: Vec<DbValue> },
    /// Run a statement and hand back its first row, if any.
    QueryOne { sql: String, params: Vec<DbValue> },
    /// Run a statement and hand back how many rows it changed.
    Execute { sql: String, params: Vec<DbValue> },
    /// Run a statement once per list of parameters, up to the first failure, and
    /// hand back how many rows were changed.
    ExecuteMany { sql: String, rows: Vec<Vec<DbValue>> },
    /// Run several statements.
    ExecuteBatch { sql: String },
    /// Whether a table of that name exists.
    TableExists { table: String },
    /// The names of a table's columns.
    TableColumns { table: String },
    /// The names of a table's columns, each with its declared type.
    TableColumnTypes { table: String },
    /// The names of a table's indexes that begin with `prefix`.
    IndexNames { table: String, prefix: String },
    /// The names of every table but the database's own.
    ListUserTables,
    /// The locales the rows of a table belong to.
    HeldLocales { table: String },
    /// Delete the rows of a table that belong to none of the locales.
    DeleteRowsOutsideLocales { table: String, locales: Vec<String> },
    /// Have every reference count computed anew.
    InvalidateRefCounts,
    /// Take a connection out of the pool, one for writing where `write` says so.
    Connect { write: bool },
    /// Read the documents of a collection, by its definition.
    Find {
        slug: String,
        definition: CollectionDefinition,
        query: FindQuery,
        locale: Option<LocaleContext>,
    },
    /// Read one document of a collection with what its other tables hold.
    FindById {
        slug: String,
        definition: CollectionDefinition,
        id: String,
        locale: Option<LocaleContext>,
    },
    /// Read one document's own row.
    FindByIdRaw {
        slug: String,
        definition: CollectionDefinition,
        id: String,
        locale: Option<LocaleContext>,
        include_deleted: bool,
    },
    /// Count the documents of a collection that meet the filters.
    CountDocuments {
        slug: String,
        definition: CollectionDefinition,
        filters: Vec<FilterClause>,
        locale: Option<LocaleContext>,
    },
    /// Read a global, by its definition.
    GetGlobal { slug: String, definition: GlobalDefinition, locale: Option<LocaleContext> },
    /// Fill in what a document's other tables hold of its fields.
    Hydrate {
        slug: String,
        fields: Vec<FieldDefinition>,
        document: Document,
        locale: Option<LocaleContext>,
    },
    /// The latest stored version of a document.
    FindLatestVersion { slug: String, id: String },
    /// Whether a document is there and not marked as deleted.
    DocumentIsLive { slug: String, id: String },
    /// The status in a document's own row.
    DocumentStatus { slug: String, id: String },
    /// Whether a document's values, of those fields, meet the filters.
    MatchesConstraints {
        fields: Vec<FieldDefinition>,
        document: Document,
        filters: Vec<FilterClause>,
    },
    /// The shape a collection's search index has now: its fingerprint, and whether
    /// there is anything to index.
    SearchIndexShape { slug: String },
    /// Whether a collection's search index exists.
    SearchIndexExists { slug: String },
    /// Build a collection's search index anew.
    SyncSearchIndex { slug: String },
    /// Bring values kept as JSON inside the rows of a join table to the form their
    /// fields store them in. Each comes with the one of the sub-fields, or of the blocks'
    /// types, that it belongs to; they are answered in order.
    StoreNestedValues {
        table: String,
        fields: Vec<FieldDefinition>,
        blocks: Vec<BlockDefinition>,
        parts: Vec<String>,
        values: Vec<String>,
    },
    /// Bring the dates with a zone inside such values to UTC. They are answered in order.
    ConvertTimezoneDates {
        table: String,
        fields: Vec<FieldDefinition>,
        blocks: Vec<BlockDefinition>,
        parts: Vec<String>,
        values: Vec<String>,
    },
    /// Begin a transaction that holds the write lock from the start.
    Begin,
    /// Hold a lock among all sessions until the transaction ends, where the transaction
    /// does not do so itself.
    AdvisoryLock { key: i64 },
    /// End the transaction and keep what it did.
    Commit,
    /// End the transaction and undo what it did.
    Rollback,
    /// Whether a collection's table, with the columns it has, can only be brought to
    /// its definition by making it anew.
    NeedsRebuild { slug: String, columns: Vec<String> },
    /// Check the names of a collection's indexes.
    CheckIndexNames { slug: String },
    /// Check that no two indexes share a name.
    CheckIndexNameCollisions,
    /// Bring the columns of checkboxes to the type they have now.
    MigrateCheckboxColumns,
    /// Bring a collection's tables to its definition.
    SyncCollection { slug: String },
    /// Bring a global's tables to its definition.
    SyncGlobal { slug: String },
    /// Compute the reference counts that are not known yet.
    BackfillRefCounts,
    /// Store the lists of plain values as lists.
    NormalizeLists,
    /// Store texts and addresses in their canonical form.
    CanonicalizeText,
    /// Put image conversions into the table of jobs, in order, each as a job of this
    /// name in this queue with the image as its data.
    EnqueueImageConversions {
        job: String,
        queue: String,
        scheduled_by: ScheduledBy,
        attempts: Attempts,
        priority: i64,
        jobs: Vec<ImageConvertJob>,
    },
    /// Create the directory a database file lies in, where there is none: the parent of
    /// `path`, which is taken from `config_dir` on where it is relative.
    CreateDatabaseDirectory { config_dir: String, path: String },
    /// Open a pool of SQLite connections to one file: how many there are at most, the
    /// seconds to wait for one, the statements run on each new one, and how many
    /// prepared statements each keeps. None is opened ahead of use or tested when it is
    /// handed out, and a token in double quotes is never a string on any of them.
    OpenSqlitePool {
        write: bool,
        config_dir: String,
        path: String,
        max_size: u64,
        timeout: u64,
        pragmas: String,
        statements: u64,
    },
    /// Open a pool of Postgres connections: how many there are at most.
    OpenPostgresPool { url: String, max_size: u64 },
}

/// The mathematical value of a [`Request`].
#[verifier::ext_equal]
pub ghost enum RequestView {
    QueryAll { sql: Seq<char>, params: Seq<DbValueView> },
    QueryOne { sql: Seq<char>, params: Seq<DbValueView> },
    Execute { sql: Seq<char>, params: Seq<DbValueView> },
    ExecuteMany { sql: Seq<char>, rows: Seq<Seq<DbValueView>> },
    ExecuteBatch { sql: Seq<char> },
    TableExists { table: Seq<char> },
    TableColumns { table: Seq<char> },
    TableColumnTypes { table: Seq<char> },
    IndexNames { table: Seq<char>, prefix: Seq<char> },
    ListUserTables,
    HeldLocales { table: Seq<char> },
    DeleteRowsOutsideLocales { table: Seq<char>, locales: Seq<Seq<char>> },
    InvalidateRefCounts,
    Connect { write: bool },
    Find {
        slug: Seq<char>,
        definition: CollectionView,
        query: FindQueryView,
        locale: Option<LocaleContextView>,
    },
    FindById {
        slug: Seq<char>,
        definition: CollectionView,
        id: Seq<char>,
        locale: Option<LocaleContextView>,
    },
    FindByIdRaw {
        slug: Seq<char>,
        definition: CollectionView,
        id: Seq<char>,
        locale: Option<LocaleContextView>,
        include_deleted: bool,
    },
    CountDocuments {
        slug: Seq<char>,
        definition: CollectionView,
        filters: Seq<FilterClauseView>,
        locale: Option<LocaleContextView>,
    },
    GetGlobal {
        slug: Seq<char>,
        definition: GlobalView,
        locale: Option<LocaleContextView>,
    },
    Hydrate {
        slug: Seq<char>,
        fields: Seq<FieldView>,
        document: DocumentView,
        locale: Option<LocaleContextView>,
    },
    FindLatestVersion { slug: Seq<char>, id: Seq<char> },
    DocumentIsLive { slug: Seq<char>, id: Seq<char> },
    DocumentStatus { slug: Seq<char>, id: Seq<char> },
    MatchesConstraints {
        fields: Seq<FieldView>,
        document: DocumentView,
        filters: Seq<FilterClauseView>,
    },
    SearchIndexShape { slug: Seq<char> },
    SearchIndexExists { slug: Seq<char> },
    SyncSearchIndex { slug: Seq<char> },
    StoreNestedValues {
        table: Seq<char>,
        fields: Seq<FieldView>,
        blocks: Seq<BlockView>,
        parts: Seq<Seq<char>>,
        values: Seq<Seq<char>>,
    },
    ConvertTimezoneDates {
        table: Seq<char>,
        fields: Seq<FieldView>,
        blocks: Seq<BlockView>,
        parts: Seq<Seq<char>>,
        values: Seq<Seq<char>>,
    },
    Begin,
    AdvisoryLock { key: i64 },
    Commit,
    Rollback,
    NeedsRebuild { slug: Seq<char>, columns: Seq<Seq<char>> },
    CheckIndexNames { slug: Seq<char> },
    CheckIndexNameCollisions,
    MigrateCheckboxColumns,
    SyncCollection { slug: Seq<char> },
    SyncGlobal { slug: Seq<char> },
    BackfillRefCounts,
    NormalizeLists,
    CanonicalizeText,
    EnqueueImageConversions {
        job: Seq<char>,
        queue: Seq<char>,
        scheduled_by: ScheduledBy,
        attempts: Attempts,
        priority: i64,
        jobs: Seq<ImageConvertJobView>,
    },
    CreateDatabaseDirectory { config_dir: Seq<char>, path: Seq<char> },
    OpenSqlitePool {
        write: bool,
        config_dir: Seq<char>,
        path: Seq<char>,
        max_size: u64,
        timeout: u64,
        pragmas: Seq<char>,
        statements: u64,
    },
    OpenPostgresPool { url: Seq<char>, max_size: u64 },
}

impl DeepView for Request {
    type V = RequestView;

    open spec fn deep_view(&self) -> RequestView {
        match self {
            Request::QueryAll { sql, params } => RequestView::QueryAll {
                sql: sql@,
                params: params.deep_view(),
            },
            Request::QueryOne { sql, params } => RequestView::QueryOne {
                sql: sql@,
                params: params.deep_view(),
            },
            Request::Execute { sql, params } => RequestView::Execute {
                sql: sql@,
                params: params.deep_view(),
            },
            Request::ExecuteMany { sql, rows } => RequestView::ExecuteMany {
                sql: sql@,
                rows: rows.deep_view(),
            },
            Request::ExecuteBatch { sql } => RequestView::ExecuteBatch { sql: sql@ },
            Request::TableExists { table } => RequestView::TableExists { table: table@ },
            Request::TableColumns { table } => RequestView::TableColumns { table: table@ },
            Request::TableColumnTypes { table } => RequestView::TableColumnTypes { table: table@ },
            Request::IndexNames { table, prefix } => RequestView::IndexNames {
                table: table@,
                prefix: prefix@,
            },
            Request::ListUserTables => RequestView::ListUserTables,
            Request::HeldLocales { table } => RequestView::HeldLocales { table: table@ },
            Request::DeleteRowsOutsideLocales { table, locales } => {
                RequestView::DeleteRowsOutsideLocales {
                    table: table@,
                    locales: locales.deep_view(),
                }
            },
            Request::InvalidateRefCounts => RequestView::InvalidateRefCounts,
            Request::Connect { write } => RequestView::Connect { write: *write },
            Request::Find { slug, definition, query, locale } => RequestView::Find {
                slug: slug@,
                definition: definition.deep_view(),
                query: query.deep_view(),
                locale: locale.deep_view(),
            },
            Request::FindById { slug, definition, id, locale } => RequestView::FindById {
                slug: slug@,
                definition: definition.deep_view(),
                id: id@,
                locale: locale.deep_view(),
            },
            Request::FindByIdRaw { slug, definition, id, locale, include_deleted } => {
                RequestView::FindByIdRaw {
                    slug: slug@,
                    definition: definition.deep_view(),
                    id: id@,
                    locale: locale.deep_view(),
                    include_deleted: *include_deleted,
                }
            },
            Request::CountDocuments { slug, definition, filters, locale } => {
                RequestView::CountDocuments {
                    slug: slug@,
                    definition: definition.deep_view(),
                    filters: filters.deep_view(),
                    locale: locale.deep_view(),
                }
            },
            Request::GetGlobal { slug, definition, locale } => RequestView::GetGlobal {
                slug: slug@,
                definition: definition.deep_view(),
                locale: locale.deep_view(),
            },
            Request::Hydrate { slug, fields, document, locale } => RequestView::Hydrate {
                slug: slug@,
                fields: fields_view(fields@),
                document: document.deep_view(),
                locale: locale.deep_view(),
            },
            Request::FindLatestVersion { slug, id } => RequestView::FindLatestVersion {
                slug: slug@,
                id: id@,
            },
            Request::DocumentIsLive { slug, id } => RequestView::DocumentIsLive {
                slug: slug@,
                id: id@,
            },
            Request::DocumentStatus { slug, id } => RequestView::DocumentStatus {
                slug: slug@,
                id: id@,
            },
            Request::MatchesConstraints { fields, document, filters } => {
                RequestView::MatchesConstraints {
                    fields: fields_view(fields@),
                    document: document.deep_view(),
                    filters: filters.deep_view(),
                }
            },
            Request::SearchIndexShape { slug } => RequestView::SearchIndexShape { slug: slug@ },
            Request::SearchIndexExists { slug } => RequestView::SearchIndexExists { slug: slug@ },
            Request::SyncSearchIndex { slug } => RequestView::SyncSearchIndex { slug: slug@ },
            Request::StoreNestedValues { table, fields, blocks, parts, values } => {
                RequestView::StoreNestedValues {
                    table: table@,
                    fields: fields_view(fields@),
                    blocks: blocks_view(blocks@),
                    parts: parts.deep_view(),
                    values: values.deep_view(),
                }
            },
            Request::ConvertTimezoneDates { table, fields, blocks, parts, values } => {
                RequestView::ConvertTimezoneDates {
                    table: table@,
                    fields: fields_view(fields@),
                    blocks: blocks_view(blocks@),
                    parts: parts.deep_view(),
                    values: values.deep_view(),
                }
            },
            Request::Begin => RequestView::Begin,
            Request::AdvisoryLock { key } => RequestView::AdvisoryLock { key: *key },
            Request::Commit => RequestView::Commit,
            Request::Rollback => RequestView::Rollback,
            Request::NeedsRebuild { slug, columns } => RequestView::NeedsRebuild {
                slug: slug@,
                columns: columns.deep_view(),
            },
            Request::CheckIndexNames { slug } => RequestView::CheckIndexNames { slug: slug@ },
            Request::CheckIndexNameCollisions => RequestView::CheckIndexNameCollisions,
            Request::MigrateCheckboxColumns => RequestView::MigrateCheckboxColumns,
            Request::SyncCollection { slug } => RequestView::SyncCollection { slug: slug@ },
            Request::SyncGlobal { slug } => RequestView::SyncGlobal { slug: slug@ },
            Request::BackfillRefCounts => RequestView::BackfillRefCounts,
            Request::NormalizeLists => RequestView::NormalizeLists,
            Request::CanonicalizeText => RequestView::CanonicalizeText,
            Request::EnqueueImageConversions {
                job,
                queue,
                scheduled_by,
                attempts,
                priority,
                jobs,
            } => RequestView::EnqueueImageConversions {
                job: job@,
                queue: queue@,
                scheduled_by: *scheduled_by,
                attempts: *attempts,
                priority: *priority,
                jobs: jobs.deep_view(),
            },
            Request::CreateDatabaseDirectory { config_dir, path } => {
                RequestView::CreateDatabaseDirectory {
                    config_dir: config_dir@,
                    path: path@,
                }
            },
            Request::OpenSqlitePool {
                write,
                config_dir,
                path,
                max_size,
                timeout,
                pragmas,
                statements,
            } => RequestView::OpenSqlitePool {
                write: *write,
                config_dir: config_dir@,
                path: path@,
                max_size: *max_size,
                timeout: *timeout,
                pragmas: pragmas@,
                statements: *statements,
            },
            Request::OpenPostgresPool { url, max_size } => RequestView::OpenPostgresPool {
                url: url@,
                max_size: *max_size,
            },
        }
    }
}

/// The host's answer to one request.
#[derive(Debug, PartialEq, Eq)]
pub enum Reply {
    /// The request failed, with this message.
    Failed(String),
    /// The request was carried out.
    Done,
    /// So many rows were changed.
    Count(u64),
    Rows(Vec<DbRow>),
    Row(Option<DbRow>),
    Flag(bool),
    Names(Vec<String>),
    Types(Vec<(String, String)>),
    Integer(i64),
    /// A text, where there is one.
    Text(Option<String>),
    Documents(Vec<Document>),
    /// A document, where there is one.
    Document(Option<Document>),
    /// A version, where there is one.
    Version(Option<VersionSnapshot>),
    /// The shape of a search index.
    IndexShape { fingerprint: String, indexed: bool },
}

/// The mathematical value of a [`Reply`].
#[verifier::ext_equal]
pub ghost enum ReplyView {
    Failed(Seq<char>),
    Done,
    Count(u64),
    Rows(Seq<DbRowView>),
    Row(Option<DbRowView>),
    Flag(bool),
    Names(Seq<Seq<char>>),
    Types(Seq<(Seq<char>, Seq<char>)>),
    Integer(i64),
    Text(Option<Seq<char>>),
    Documents(Seq<DocumentView>),
    Document(Option<DocumentView>),
    Version(Option<VersionView>),
    IndexShape { fingerprint: Seq<char>, indexed: bool },
}

impl DeepView for Reply {
    type V = ReplyView;

    open spec fn deep_view(&self) -> ReplyView {
        match self {
            Reply::Failed(m) => ReplyView::Failed(m@),
            Reply::Done => ReplyView::Done,
            Reply::Count(n) => ReplyView::Count(*n),
            Reply::Rows(rows) => ReplyView::Rows(rows.deep_view()),
            Reply::Row(row) => ReplyView::Row(row.deep_view()),
            Reply::Flag(b) => ReplyView::Flag(*b),
            Reply::Names(names) => ReplyView::Names(names.deep_view()),
            Reply::Types(types) => ReplyView::Types(types.deep_view()),
            Reply::Integer(n) => ReplyView::Integer(*n),
            Reply::Text(text) => ReplyView::Text(text.deep_view()),
            Reply::Documents(documents) => ReplyView::Documents(documents.deep_view()),
            Reply::Document(document) => ReplyView::Document(document.deep_view()),
            Reply::Version(version) => ReplyView::Version(version.deep_view()),
            Reply::IndexShape { fingerprint, indexed } => ReplyView::IndexShape {
                fingerprint: fingerprint@,
                indexed: *indexed,
            },
        }
    }
}

/// One run of an operation over the answers recorded so far.
#[derive(Debug)]
pub struct Session {
    dialect: Dialect,
    replies: Vec<Reply>,
    sent: Vec<Request>,
    warnings: Vec<String>,
    errors: Vec<String>,
    notes: Vec<String>,
}

/// The mathematical value of a [`Session`]: what was asked in this run, what has
/// been answered, and what the operator is to be told.
#[verifier::ext_equal]
pub ghost struct SessionView {
    pub dialect: Dialect,
    pub replies: Seq<ReplyView>,
    pub sent: Seq<RequestView>,
    pub warnings: Seq<Seq<char>>,
    pub errors: Seq<Seq<char>>,
    pub notes: Seq<Seq<char>>,
}

impl View for Session {
    type V = SessionView;

    closed spec fn view(&self) -> SessionView {
        SessionView {
            dialect: self.dialect,
            replies: self.replies.deep_view(),
            sent: self.sent.deep_view(),
            warnings: self.warnings.deep_view(),
            errors: self.errors.deep_view(),
            notes: self.notes.deep_view(),
        }
    }
}

/// Where an operation leaves a session, and what it returns.
pub type Step<T> = (SessionView, Result<T, ErrorView>);

impl SessionView {
    /// The session after one more request.
    pub open spec fn asked(self, request: RequestView) -> SessionView {
        SessionView { sent: self.sent.push(request), ..self }
    }

    /// The session after one more warning.
    pub open spec fn warned(self, message: Seq<char>) -> SessionView {
        SessionView { warnings: self.warnings.push(message), ..self }
    }

    /// The session after one more error that the operation goes on past.
    pub open spec fn reported(self, message: Seq<char>) -> SessionView {
        SessionView { errors: self.errors.push(message), ..self }
    }

    /// The session after one more line on what is being done.
    pub open spec fn noted(self, message: Seq<char>) -> SessionView {
        SessionView { notes: self.notes.push(message), ..self }
    }

    /// The answer on record for the next request to be sent.
    pub open spec fn next_reply(self) -> Option<ReplyView> {
        if self.sent.len() < self.replies.len() {
            Some(self.replies[self.sent.len() as int])
        } else {
            None
        }
    }
}

/// How many answers are on record for requests yet to be sent.
pub open spec fn answers_left(s: SessionView) -> nat {
    if s.sent.len() <= s.replies.len() {
        (s.replies.len() - s.sent.len()) as nat
    } else {
        0
    }
}

/// Whether `after` is `before` with requests, warnings, errors and notes added: what every
/// operation does to a session, and all it does.
pub open spec fn extends(before: SessionView, after: SessionView) -> bool {
    &&& after.dialect == before.dialect
    &&& after.replies == before.replies
    &&& before.sent.is_prefix_of(after.sent)
    &&& before.warnings.is_prefix_of(after.warnings)
    &&& before.errors.is_prefix_of(after.errors)
    &&& before.notes.is_prefix_of(after.notes)
}

/// What an answer of the wrong kind, or none, amounts to.
pub open spec fn no_answer(reply: Option<ReplyView>) -> ErrorView {
    match reply {
        None => ErrorView::Pending,
        Some(ReplyView::Failed(m)) => ErrorView::Backend(m),
        Some(_) => ErrorView::Unexpected,
    }
}

/// A step, with what it does before what its error says.
pub open spec fn within<T>(step: Step<T>, text: Seq<char>) -> Step<T> {
    (step.0, with_context(step.1, text))
}

/// Sends `request`, which is answered once it has been carried out.
pub open spec fn ask_done(s: SessionView, request: RequestView) -> Step<()> {
    (
        s.asked(request),
        match s.next_reply() {
            Some(ReplyView::Done) => Ok(()),
            other => Err(no_answer(other)),
        },
    )
}

/// Sends `request`, which is answered by a number of rows.
pub open spec fn ask_count(s: SessionView, request: RequestView) -> Step<u64> {
    (
        s.asked(request),
        match s.next_reply() {
            Some(ReplyView::Count(n)) => Ok(n),
            other => Err(no_answer(other)),
        },
    )
}

/// Sends `request`, which is answered by yes or no.
pub open spec fn ask_flag(s: SessionView, request: RequestView) -> Step<bool> {
    (
        s.asked(request),
        match s.next_reply() {
            Some(ReplyView::Flag(b)) => Ok(b),
            other => Err(no_answer(other)),
        },
    )
}

/// Sends `request`, which is answered by a list of names.
pub open spec fn ask_names(s: SessionView, request: RequestView) -> Step<Seq<Seq<char>>> {
    (
        s.asked(request),
        match s.next_reply() {
            Some(ReplyView::Names(names)) => Ok(names),
            other => Err(no_answer(other)),
        },
    )
}

/// Sends `request`, which is answered by pairs of a name and a type.
pub open spec fn ask_types(s: SessionView, request: RequestView) -> Step<
    Seq<(Seq<char>, Seq<char>)>,
> {
    (
        s.asked(request),
        match s.next_reply() {
            Some(ReplyView::Types(types)) => Ok(types),
            other => Err(no_answer(other)),
        },
    )
}

/// Sends `request`, which is answered by a number.
pub open spec fn ask_integer(s: SessionView, request: RequestView) -> Step<i64> {
    (
        s.asked(request),
        match s.next_reply() {
            Some(ReplyView::Integer(v)) => Ok(v),
            other => Err(no_answer(other)),
        },
    )
}

/// Sends `request`, which is answered by a text or none.
pub open spec fn ask_text(s: SessionView, request: RequestView) -> Step<Option<Seq<char>>> {
    (
        s.asked(request),
        match s.next_reply() {
            Some(ReplyView::Text(v)) => Ok(v),
            other => Err(no_answer(other)),
        },
    )
}

/// Sends `request`, which is answered by documents.
pub open spec fn ask_documents(s: SessionView, request: RequestView) -> Step<Seq<DocumentView>> {
    (
        s.asked(request),
        match s.next_reply() {
            Some(ReplyView::Documents(v)) => Ok(v),
            other => Err(no_answer(other)),
        },
    )
}

/// Sends `request`, which is answered by a document or none.
pub open spec fn ask_document(s: SessionView, request: RequestView) -> Step<Option<DocumentView>> {
    (
        s.asked(request),
        match s.next_reply() {
            Some(ReplyView::Document(v)) => Ok(v),
            other => Err(no_answer(other)),
        },
    )
}

/// Sends `request`, which is answered by a version or none.
pub open spec fn ask_version(s: SessionView, request: RequestView) -> Step<Option<VersionView>> {
    (
        s.asked(request),
        match s.next_reply() {
            Some(ReplyView::Version(v)) => Ok(v),
            other => Err(no_answer(other)),
        },
    )
}

/// Sends `request`, which is answered by the shape of a search index.
pub open spec fn ask_shape(s: SessionView, request: RequestView) -> Step<(Seq<char>, bool)> {
    (
        s.asked(request),
        match s.next_reply() {
            Some(ReplyView::IndexShape { fingerprint, indexed }) => Ok((fingerprint, indexed)),
            other => Err(no_answer(other)),
        },
    )
}

/// Runs `sql` and hands back every row.
pub open spec fn query_all_step(s: SessionView, sql: Seq<char>, params: Seq<DbValueView>) -> Step<
    Seq<DbRowView>,
> {
    (
        s.asked(RequestView::QueryAll { sql, params }),
        match s.next_reply() {
            Some(ReplyView::Rows(rows)) => Ok(rows),
            other => Err(no_answer(other)),
        },
    )
}

/// Runs `sql` and hands back its first row.
pub open spec fn query_one_step(s: SessionView, sql: Seq<char>, params: Seq<DbValueView>) -> Step<
    Option<DbRowView>,
> {
    (
        s.asked(RequestView::QueryOne { sql, params }),
        match s.next_reply() {
            Some(ReplyView::Row(row)) => Ok(row),
            other => Err(no_answer(other)),
        },
    )
}

/// Runs `sql` and hands back how many rows it changed.
pub open spec fn execute_step(s: SessionView, sql: Seq<char>, params: Seq<DbValueView>) -> Step<
    u64,
> {
    ask_count(s, RequestView::Execute { sql, params })
}

/// Runs `sql` once per list of parameters; nothing is sent where there is none.
pub open spec fn execute_many_step(
    s: SessionView,
    sql: Seq<char>,
    params: Seq<Seq<DbValueView>>,
) -> Step<()> {
    if params.len() == 0 {
        (s, Ok(()))
    } else {
        let (s1, r) = ask_count(s, RequestView::ExecuteMany { sql, rows: params });
        (
            s1,
            match r {
                Ok(_) => Ok(()),
                Err(e) => Err(e),
            },
        )
    }
}

/// The form a schema statement is sent in: Postgres keeps every integer column
/// wide, so that its type reads the same values SQLite's does.
pub open spec fn ddl_text(dialect: Dialect, sql: Seq<char>) -> Seq<char> {
    match dialect {
        Dialect::Sqlite => sql,
        Dialect::Postgres => substituted(sql, " INTEGER"@, " BIGINT"@),
    }
}

/// Runs one schema statement.
pub open spec fn ddl_step(s: SessionView, sql: Seq<char>) -> Step<()> {
    let (s1, r) = execute_step(s, ddl_text(s.dialect, sql), Seq::empty());
    (
        s1,
        match r {
            Ok(_) => Ok(()),
            Err(e) => Err(e),
        },
    )
}

/// Runs several statements.
pub open spec fn batch_step(s: SessionView, sql: Seq<char>) -> Step<()> {
    ask_done(s, RequestView::ExecuteBatch { sql })
}

/// Runs several schema statements.
pub open spec fn batch_ddl_step(s: SessionView, sql: Seq<char>) -> Step<()> {
    batch_step(s, ddl_text(s.dialect, sql))
}

impl Session {
    /// A session with no answers yet.
    pub fn new(dialect: Dialect) -> (s: Session)
        ensures
            s@ == (SessionView {
                dialect,
                replies: Seq::empty(),
                sent: Seq::empty(),
                warnings: Seq::empty(),
                errors: Seq::empty(),
                notes: Seq::empty(),
            }),
    {
        let s = Session {
            dialect,
            replies: Vec::new(),
            sent: Vec::new(),
            warnings: Vec::new(),
            errors: Vec::new(),
            notes: Vec::new(),
        };
        assert(s.replies.deep_view() =~= Seq::<ReplyView>::empty());
        assert(s.sent.deep_view() =~= Seq::<RequestView>::empty());
        assert(s.warnings.deep_view() =~= Seq::<Seq<char>>::empty());
        assert(s.errors.deep_view() =~= Seq::<Seq<char>>::empty());
        assert(s.notes.deep_view() =~= Seq::<Seq<char>>::empty());
        s
    }

    pub fn dialect(&self) -> (d: Dialect)
        ensures
            d == self@.dialect,
    {
        self.dialect
    }

    pub fn is_postgres(&self) -> (r: bool)
        ensures
            r == (self@.dialect == Dialect::Postgres),
    {
        self.dialect == Dialect::Postgres
    }

    /// Goes back to before the first request, keeping the answers.
    pub fn rewind(&mut self)
        ensures
            final(self)@ == (SessionView {
                sent: Seq::empty(),
                warnings: Seq::empty(),
                errors: Seq::empty(),
                notes: Seq::empty(),
                ..old(self)@
            }),
    {
        self.sent = Vec::new();
        self.warnings = Vec::new();
        self.errors = Vec::new();
        self.notes = Vec::new();
        assert(self.sent.deep_view() =~= Seq::<RequestView>::empty());
        assert(self.warnings.deep_view() =~= Seq::<Seq<char>>::empty());
        assert(self.errors.deep_view() =~= Seq::<Seq<char>>::empty());
        assert(self.notes.deep_view() =~= Seq::<Seq<char>>::empty());
    }

    /// The first request of this run that no answer is on record for.
    pub fn pending(&self) -> (r: Option<&Request>)
        ensures
            match r {
                Some(request) => self@.replies.len() < self@.sent.len() && request.deep_view()
                    == self@.sent[self@.replies.len() as int],
                None => self@.sent.len() <= self@.replies.len(),
            },
    {
        let n: usize = self.replies.len();
        if n < self.sent.len() {
            Some(&self.sent[n])
        } else {
            None
        }
    }

    /// Records the next answer and goes back to before the first request.
    pub fn answer(&mut self, reply: Reply)
        ensures
            final(self)@ == (SessionView {
                replies: old(self)@.replies.push(reply.deep_view()),
                sent: Seq::empty(),
                warnings: Seq::empty(),
                errors: Seq::empty(),
                notes: Seq::empty(),
                dialect: old(self)@.dialect,
            }),
    {
        push_item(&mut self.replies, reply);
        self.rewind();
    }

    /// The requests of this run.
    pub fn sent(&self) -> (r: &Vec<Request>)
        ensures
            r.deep_view() == self@.sent,
    {
        &self.sent
    }

    /// What the operator is to be told.
    pub fn warnings(&self) -> (r: &Vec<String>)
        ensures
            r.deep_view() == self@.warnings,
    {
        &self.warnings
    }

    /// Adds to what the operator is to be told.
    pub fn warn(&mut self, message: String)
        ensures
            final(self)@ == old(self)@.warned(message@),
    {
        push_item(&mut self.warnings, message);
    }

    /// The errors that the operation went on past.
    pub fn errors(&self) -> (r: &Vec<String>)
        ensures
            r.deep_view() == self@.errors,
    {
        &self.errors
    }

    /// Adds to the errors that the operation went on past.
    pub fn report(&mut self, message: String)
        ensures
            final(self)@ == old(self)@.reported(message@),
    {
        push_item(&mut self.errors, message);
    }

    /// What the operation says of what it does.
    pub fn notes(&self) -> (r: &Vec<String>)
        ensures
            r.deep_view() == self@.notes,
    {
        &self.notes
    }

    /// Adds to what the operation says of what it does.
    pub fn note(&mut self, message: String)
        ensures
            final(self)@ == old(self)@.noted(message@),
    {
        push_item(&mut self.notes, message);
    }

    /// Sends a request and looks its answer up.
    fn ask(&mut self, request: Request) -> (r: Option<&Reply>)
        ensures
            final(self)@ == old(self)@.asked(request.deep_view()),
            r.deep_view() == old(self)@.next_reply(),
    {
        let n: usize = self.sent.len();
        push_item(&mut self.sent, request);
        if n < self.replies.len() {
            let reply = &self.replies[n];
            assert(reply.deep_view() == self.replies.deep_view()[n as int]);
            Some(reply)
        } else {
            None
        }
    }

    pub fn ask_done(&mut self, request: Request) -> (r: Result<(), DbError>)
        ensures
            (final(self)@, out(r)) == ask_done(old(self)@, request.deep_view()),
    {
        match self.ask(request) {
            Some(Reply::Done) => Ok(()),
            other => Err(no_answer_error(other)),
        }
    }

    pub fn ask_count(&mut self, request: Request) -> (r: Result<u64, DbError>)
        ensures
            (final(self)@, out(r)) == ask_count(old(self)@, request.deep_view()),
    {
        match self.ask(request) {
            Some(Reply::Count(n)) => Ok(*n),
            other => Err(no_answer_error(other)),
        }
    }

    pub fn ask_flag(&mut self, request: Request) -> (r: Result<bool, DbError>)
        ensures
            (final(self)@, out(r)) == ask_flag(old(self)@, request.deep_view()),
    {
        match self.ask(request) {
            Some(Reply::Flag(b)) => Ok(*b),
            other => Err(no_answer_error(other)),
        }
    }

    pub fn ask_names(&mut self, request: Request) -> (r: Result<Vec<String>, DbError>)
        ensures
            (final(self)@, out(r)) == ask_names(old(self)@, request.deep_view()),
    {
        match self.ask(request) {
            Some(Reply::Names(names)) => Ok(copy_texts(names)),
            other => Err(no_answer_error(other)),
        }
    }

    pub fn ask_types(&mut self, request: Request) -> (r: Result<Vec<(String, String)>, DbError>)
        ensures
            (final(self)@, out(r)) == ask_types(old(self)@, request.deep_view()),
    {
        match self.ask(request) {
            Some(Reply::Types(types)) => Ok(copy_pairs(types)),
            other => Err(no_answer_error(other)),
        }
    }

    pub fn ask_integer(&mut self, request: Request) -> (r: Result<i64, DbError>)
        ensures
            (final(self)@, out(r)) == ask_integer(old(self)@, request.deep_view()),
    {
        match self.ask(request) {
            Some(Reply::Integer(n)) => Ok(*n),
            other => Err(no_answer_error(other)),
        }
    }

    pub fn ask_text(&mut self, request: Request) -> (r: Result<Option<String>, DbError>)
        ensures
            (final(self)@, out(r)) == ask_text(old(self)@, request.deep_view()),
    {
        match self.ask(request) {
            Some(Reply::Text(Some(text))) => Ok(Some(text.clone())),
            Some(Reply::Text(None)) => Ok(None),
            other => Err(no_answer_error(other)),
        }
    }

    pub fn ask_documents(&mut self, request: Request) -> (r: Result<Vec<Document>, DbError>)
        ensures
            (final(self)@, out(r)) == ask_documents(old(self)@, request.deep_view()),
    {
        match self.ask(request) {
            Some(Reply::Documents(documents)) => Ok(copy_documents(documents)),
            other => Err(no_answer_error(other)),
        }
    }

    pub fn ask_document(&mut self, request: Request) -> (r: Result<Option<Document>, DbError>)
        ensures
            (final(self)@, out(r)) == ask_document(old(self)@, request.deep_view()),
    {
        match self.ask(request) {
            Some(Reply::Document(Some(document))) => Ok(Some(document.copy())),
            Some(Reply::Document(None)) => Ok(None),
            other => Err(no_answer_error(other)),
        }
    }

    pub fn ask_version(&mut self, request: Request) -> (r: Result<Option<VersionSnapshot>, DbError>)
        ensures
            (final(self)@, out(r)) == ask_version(old(self)@, request.deep_view()),
    {
        match self.ask(request) {
            Some(Reply::Version(Some(version))) => Ok(Some(version.copy())),
            Some(Reply::Version(None)) => Ok(None),
            other => Err(no_answer_error(other)),
        }
    }

    pub fn ask_shape(&mut self, request: Request) -> (r: Result<(String, bool), DbError>)
        ensures
            (final(self)@, out(r)) == ask_shape(old(self)@, request.deep_view()),
    {
        match self.ask(request) {
            Some(Reply::IndexShape { fingerprint, indexed }) => Ok((fingerprint.clone(), *indexed)),
            other => Err(no_answer_error(other)),
        }
    }

    /// Runs a statement and hands back every row.
    pub fn query_all(&mut self, sql: String, params: Vec<DbValue>) -> (r: Result<
        Vec<DbRow>,
        DbError,
    >)
        ensures
            (final(self)@, out(r)) == query_all_step(old(self)@, sql@, params.deep_view()),
    {
        match self.ask(Request::QueryAll { sql, params }) {
            Some(Reply::Rows(rows)) => Ok(copy_rows(rows)),
            other => Err(no_answer_error(other)),
        }
    }

    /// Runs a statement and hands back its first row.
    pub fn query_one(&mut self, sql: String, params: Vec<DbValue>) -> (r: Result<
        Option<DbRow>,
        DbError,
    >)
        ensures
            (final(self)@, out(r)) == query_one_step(old(self)@, sql@, params.deep_view()),
    {
        match self.ask(Request::QueryOne { sql, params }) {
            Some(Reply::Row(Some(row))) => Ok(Some(row.copy())),
            Some(Reply::Row(None)) => Ok(None),
            other => Err(no_answer_error(other)),
        }
    }

    /// Runs a statement and hands back how many rows it changed.
    pub fn execute(&mut self, sql: String, params: Vec<DbValue>) -> (r: Result<u64, DbError>)
        ensures
            (final(self)@, out(r)) == execute_step(old(self)@, sql@, params.deep_view()),
    {
        self.ask_count(Request::Execute { sql, params })
    }

    /// Runs a statement once per list of parameters; sends nothing where there is
    /// none.
    pub fn execute_many(&mut self, sql: String, params: Vec<Vec<DbValue>>) -> (r: Result<
        (),
        DbError,
    >)
        ensures
            (final(self)@, out(r)) == execute_many_step(old(self)@, sql@, params.deep_view()),
    {
        if params.len() == 0 {
            return Ok(());
        }
        self.ask_count(Request::ExecuteMany { sql, rows: params })?;
        Ok(())
    }

    /// Runs one schema statement.
    pub fn execute_ddl(&mut self, sql: String) -> (r: Result<(), DbError>)
        ensures
            (final(self)@, out(r)) == ddl_step(old(self)@, sql@),
    {
        let sql = self.adjusted(sql);
        match self.execute(sql, no_params()) {
            Ok(_) => Ok(()),
            Err(e) => Err(e),
        }
    }

    /// Runs several statements.
    pub fn execute_batch(&mut self, sql: String) -> (r: Result<(), DbError>)
        ensures
            (final(self)@, out(r)) == batch_step(old(self)@, sql@),
    {
        self.ask_done(Request::ExecuteBatch { sql })
    }

    /// Runs several schema statements.
    pub fn execute_batch_ddl(&mut self, sql: String) -> (r: Result<(), DbError>)
        ensures
            (final(self)@, out(r)) == batch_ddl_step(old(self)@, sql@),
    {
        let sql = self.adjusted(sql);
        self.execute_batch(sql)
    }

    fn adjusted(&self, sql: String) -> (r: String)
        ensures
            r@ == ddl_text(self@.dialect, sql@),
    {
        match self.dialect {
            Dialect::Sqlite => sql,
            Dialect::Postgres => {
                proof {
                    reveal_strlit(" INTEGER");
                }
                substitute(sql.as_str(), " INTEGER", " BIGINT")
            },
        }
    }
}

fn no_answer_error(reply: Option<&Reply>) -> (e: DbError)
    ensures
        e.deep_view() == no_answer(reply.deep_view()),
{
    match reply {
        None => DbError::Pending,
        Some(Reply::Failed(m)) => DbError::Backend(m.clone()),
        Some(_) => DbError::Unexpected,
    }
}

/// Whether a request changes nothing it is about.
pub open spec fn reads(request: RequestView) -> bool {
    match request {
        RequestView::QueryAll { .. } => true,
        RequestView::QueryOne { .. } => true,
        RequestView::TableExists { .. } => true,
        RequestView::TableColumns { .. } => true,
        RequestView::TableColumnTypes { .. } => true,
        RequestView::IndexNames { .. } => true,
        RequestView::ListUserTables => true,
        RequestView::HeldLocales { .. } => true,
        _ => false,
    }
}

/// Whether `after` is `before` with warnings and requests added that change
/// nothing they are about.
pub open spec fn only_reads(before: SessionView, after: SessionView) -> bool {
    &&& extends(before, after)
    &&& forall|i: int|
        before.sent.len() <= i < after.sent.len() ==> reads(#[trigger] after.sent[i])
}

/// What only reads and then only reads, only reads.
pub proof fn only_reads_on(a: SessionView, b: SessionView, c: SessionView)
    requires
        only_reads(a, b),
        only_reads(b, c),
    ensures
        only_reads(a, c),
{
    assert forall|i: int| a.sent.len() <= i < c.sent.len() implies reads(#[trigger] c.sent[i]) by {
        if i < b.sent.len() {
            assert(b.sent[i] == c.sent[i]);
        }
    }
    assert(a.sent =~= c.sent.take(a.sent.len() as int));
    assert(a.warnings =~= c.warnings.take(a.warnings.len() as int));
    assert(a.errors =~= c.errors.take(a.errors.len() as int));
    assert(a.notes =~= c.notes.take(a.notes.len() as int));
}

} // verus!
