//! Reads of documents.
use crate::definition::{
    CollectionDefinition, CollectionView, FieldDefinition, GlobalDefinition, GlobalView,
    copy_fields,
};
use crate::document::{Document, DocumentView};
use crate::json::{Json, JsonView, insert_entry, value_of, value_with, with};
use crate::pool::{DbPool, connect_step};
use crate::query::{
    Filter, FilterClause, FilterClauseView, FilterOp, FilterOpView, FilterView, FindQuery,
    FindQueryView, LocaleContextView, VersionView, context_view, copy_context,
};
use crate::session::{
    ReplyView, Request, RequestView, Session, SessionView, Step, ask_document, ask_documents, ask_flag,
    ask_integer, ask_text, ask_version,
};
use crate::snapshot::{
    LocaleContext, document_from_snapshot, resolve_snapshot_locale, resolved_fields,
    snapshot_document,
};
use crate::text::{push_item, same};
use crate::value::{DbError, ErrorView, out};
use vstd::prelude::*;

verus! {

/// Reads the documents of a collection over a pooled connection.
pub open spec fn find_documents_step(
    s: SessionView,
    slug: Seq<char>,
    definition: CollectionView,
    query: FindQueryView,
    locale: Option<LocaleContextView>,
) -> Step<Seq<DocumentView>> {
    let (s1, connected) = connect_step(s, false);
    match connected {
        Err(e) => (s1, Err(e)),
        Ok(_) => ask_documents(s1, RequestView::Find { slug, definition, query, locale }),
    }
}

/// The documents of a collection that a query asks for.
pub fn find_documents(
    pool: &DbPool,
    conn: &mut Session,
    slug: &str,
    def: &CollectionDefinition,
    find_query: FindQuery,
    locale_ctx: Option<&LocaleContext>,
) -> (r: Result<Vec<Document>, DbError>)
    ensures
        (final(conn)@, out(r)) == find_documents_step(
            old(conn)@,
            slug@,
            def.deep_view(),
            find_query.deep_view(),
            context_view(locale_ctx),
        ),
        old(conn)@.next_reply() == Some(ReplyView::Done) ==> final(conn)@.sent == old(
            conn,
        )@.sent.push(RequestView::Connect { write: false }).push(
            RequestView::Find {
                slug: slug@,
                definition: def.deep_view(),
                query: find_query.deep_view(),
                locale: context_view(locale_ctx),
            },
        ),
{
    pool.connect(conn, false)?;
    conn.ask_documents(
        Request::Find {
            slug: slug.to_owned(),
            definition: def.copy(),
            query: find_query,
            locale: copy_context(locale_ctx),
        },
    )
}

/// Reads one document of a collection over a pooled connection.
pub open spec fn find_document_by_id_step(
    s: SessionView,
    slug: Seq<char>,
    definition: CollectionView,
    id: Seq<char>,
    locale: Option<LocaleContextView>,
) -> Step<Option<DocumentView>> {
    let (s1, connected) = connect_step(s, false);
    match connected {
        Err(e) => (s1, Err(e)),
        Ok(_) => ask_document(s1, RequestView::FindById { slug, definition, id, locale }),
    }
}

/// The document of a collection with an id.
pub fn find_document_by_id(
    pool: &DbPool,
    conn: &mut Session,
    slug: &str,
    def: &CollectionDefinition,
    id: &str,
    locale_ctx: Option<&LocaleContext>,
) -> (r: Result<Option<Document>, DbError>)
    ensures
        (final(conn)@, out(r)) == find_document_by_id_step(
            old(conn)@,
            slug@,
            def.deep_view(),
            id@,
            context_view(locale_ctx),
        ),
        old(conn)@.next_reply() == Some(ReplyView::Done) ==> final(conn)@.sent == old(
            conn,
        )@.sent.push(RequestView::Connect { write: false }).push(
            RequestView::FindById {
                slug: slug@,
                definition: def.deep_view(),
                id: id@,
                locale: context_view(locale_ctx),
            },
        ),
{
    pool.connect(conn, false)?;
    conn.ask_document(
        Request::FindById {
            slug: slug.to_owned(),
            definition: def.copy(),
            id: id.to_owned(),
            locale: copy_context(locale_ctx),
        },
    )
}

/// Counts the documents of a collection over a pooled connection.
pub open spec fn count_documents_step(
    s: SessionView,
    slug: Seq<char>,
    definition: CollectionView,
    filters: Seq<FilterClauseView>,
    locale: Option<LocaleContextView>,
) -> Step<i64> {
    let (s1, connected) = connect_step(s, false);
    match connected {
        Err(e) => (s1, Err(e)),
        Ok(_) => ask_integer(
            s1,
            RequestView::CountDocuments { slug, definition, filters, locale },
        ),
    }
}

/// How many documents of a collection meet the filters.
pub fn count_documents(
    pool: &DbPool,
    conn: &mut Session,
    slug: &str,
    def: &CollectionDefinition,
    filters: Vec<FilterClause>,
    locale_ctx: Option<&LocaleContext>,
) -> (r: Result<i64, DbError>)
    ensures
        (final(conn)@, out(r)) == count_documents_step(
            old(conn)@,
            slug@,
            def.deep_view(),
            filters.deep_view(),
            context_view(locale_ctx),
        ),
        old(conn)@.next_reply() == Some(ReplyView::Done) ==> final(conn)@.sent == old(
            conn,
        )@.sent.push(RequestView::Connect { write: false }).push(
            RequestView::CountDocuments {
                slug: slug@,
                definition: def.deep_view(),
                filters: filters.deep_view(),
                locale: context_view(locale_ctx),
            },
        ),
{
    pool.connect(conn, false)?;
    conn.ask_integer(
        Request::CountDocuments {
            slug: slug.to_owned(),
            definition: def.copy(),
            filters,
            locale: copy_context(locale_ctx),
        },
    )
}

/// Reads a global over a pooled connection.
pub open spec fn get_global_step(
    s: SessionView,
    slug: Seq<char>,
    definition: GlobalView,
    locale: Option<LocaleContextView>,
) -> Step<DocumentView> {
    let (s1, connected) = connect_step(s, false);
    match connected {
        Err(e) => (s1, Err(e)),
        Ok(_) => {
            let (s2, document) = ask_document(
                s1,
                RequestView::GetGlobal { slug, definition, locale },
            );
            (
                s2,
                match document {
                    Err(e) => Err(e),
                    Ok(Some(d)) => Ok(d),
                    Ok(None) => Err(ErrorView::Unexpected),
                },
            )
        },
    }
}

/// The document of a global.
pub fn get_global(
    pool: &DbPool,
    conn: &mut Session,
    slug: &str,
    def: &GlobalDefinition,
    locale_ctx: Option<&LocaleContext>,
) -> (r: Result<Document, DbError>)
    ensures
        (final(conn)@, out(r)) == get_global_step(
            old(conn)@,
            slug@,
            def.deep_view(),
            context_view(locale_ctx),
        ),
        old(conn)@.next_reply() == Some(ReplyView::Done) ==> final(conn)@.sent == old(
            conn,
        )@.sent.push(RequestView::Connect { write: false }).push(
            RequestView::GetGlobal {
                slug: slug@,
                definition: def.deep_view(),
                locale: context_view(locale_ctx),
            },
        ),
{
    pool.connect(conn, false)?;
    let document = conn.ask_document(
        Request::GetGlobal {
            slug: slug.to_owned(),
            definition: def.copy(),
            locale: copy_context(locale_ctx),
        },
    )?;
    match document {
        Some(d) => Ok(d),
        None => Err(DbError::Unexpected),
    }
}

/// What [`find_by_id_full`] reads.
pub struct FindByIdFullParams<'a> {
    pub slug: &'a str,
    pub def: &'a CollectionDefinition,
    pub id: &'a str,
    pub locale_ctx: Option<&'a LocaleContext>,
    /// What the document has to meet, where it may not be any.
    pub constraints: Option<Vec<FilterClause>>,
    /// What a draft has to meet: it is not read from the document's row, so the
    /// row's constraints do not apply to it by themselves.
    pub snapshot_constraints: Vec<FilterClause>,
    /// Whether a draft is read in place of the document.
    pub use_draft: bool,
    /// Whether a document marked as deleted is read too.
    pub include_deleted: bool,
}

/// The mathematical value of [`FindByIdFullParams`].
pub ghost struct FullReadView {
    pub slug: Seq<char>,
    pub definition: CollectionView,
    pub fields: Seq<FieldDefinition>,
    pub drafts: bool,
    pub soft_delete: bool,
    pub id: Seq<char>,
    pub ctx: Option<LocaleContext>,
    pub locale: Option<LocaleContextView>,
    pub constraints: Option<Seq<FilterClauseView>>,
    pub snapshot_constraints: Seq<FilterClauseView>,
    pub use_draft: bool,
    pub include_deleted: bool,
}

impl<'a> FindByIdFullParams<'a> {
    pub open spec fn view(self) -> FullReadView {
        FullReadView {
            slug: self.slug@,
            definition: self.def.deep_view(),
            fields: self.def.fields@,
            drafts: self.def.drafts(),
            soft_delete: self.def.soft_delete,
            id: self.id@,
            ctx: match self.locale_ctx {
                Some(c) => Some(*c),
                None => None,
            },
            locale: context_view(self.locale_ctx),
            constraints: self.constraints.deep_view(),
            snapshot_constraints: self.snapshot_constraints.deep_view(),
            use_draft: self.use_draft,
            include_deleted: self.include_deleted,
        }
    }
}

/// Whether a draft may be served: the document it is of must not be deleted,
/// where deletion only marks it and deleted ones are not asked for.
pub open spec fn may_overlay_step(s: SessionView, p: FullReadView) -> Step<bool> {
    if !p.use_draft || !p.drafts {
        (s, Ok(false))
    } else if !p.soft_delete || p.include_deleted {
        (s, Ok(true))
    } else {
        ask_flag(s, RequestView::DocumentIsLive { slug: p.slug, id: p.id })
    }
}

/// The draft in a version, resolved for the locale read.
pub open spec fn draft_in(version: Option<VersionView>, p: FullReadView) -> Result<
    Option<DocumentView>,
    ErrorView,
> {
    match version {
        None => Ok(None),
        Some(version) => if version.status != "draft"@ {
            Ok(None)
        } else {
            match snapshot_document(p.id, version.snapshot) {
                None => Ok(None),
                Some(doc) => match resolved_fields(doc.fields, p.fields, p.ctx) {
                    Err(e) => Err(e),
                    Ok(fields) => Ok(Some(DocumentView { fields, ..doc })),
                },
            }
        },
    }
}

/// A draft with the status of the document's own row: a version may hold a stale
/// one.
pub open spec fn with_row_status(doc: DocumentView, status: Option<Seq<char>>) -> DocumentView {
    match status {
        Some(status) => DocumentView {
            fields: with(doc.fields, "_status"@, JsonView::Text(status)),
            ..doc
        },
        None => doc,
    }
}

/// Serves a draft that meets its constraints.
pub open spec fn serve_draft_step(s: SessionView, doc: DocumentView, p: FullReadView) -> Step<
    Option<DocumentView>,
> {
    let (s1, matches) = ask_flag(
        s,
        RequestView::MatchesConstraints {
            fields: p.definition.fields,
            document: doc,
            filters: p.snapshot_constraints,
        },
    );
    match matches {
        Err(e) => (s1, Err(e)),
        Ok(false) => (s1, Ok(None)),
        Ok(true) => {
            let (s2, status) = ask_text(
                s1,
                RequestView::DocumentStatus { slug: p.slug, id: p.id },
            );
            (
                s2,
                match status {
                    Err(e) => Err(e),
                    Ok(status) => Ok(Some(with_row_status(doc, status))),
                },
            )
        },
    }
}

/// Reads the draft that is served in place of a document, if there is one.
pub open spec fn overlay_step(s: SessionView, p: FullReadView) -> Step<Option<DocumentView>> {
    let (s1, may) = may_overlay_step(s, p);
    match may {
        Err(e) => (s1, Err(e)),
        Ok(false) => (s1, Ok(None)),
        Ok(true) => {
            let (s2, version) = ask_version(
                s1,
                RequestView::FindLatestVersion { slug: p.slug, id: p.id },
            );
            match version {
                Err(e) => (s2, Err(e)),
                Ok(version) => match draft_in(version, p) {
                    Err(e) => (s2, Err(e)),
                    Ok(None) => (s2, Ok(None)),
                    Ok(Some(doc)) => serve_draft_step(s2, doc, p),
                },
            }
        },
    }
}

/// The query for the document with an id among those that meet the constraints.
pub open spec fn constrained_query(
    constraints: Seq<FilterClauseView>,
    id: Seq<char>,
    include_deleted: bool,
) -> FindQueryView {
    FindQueryView {
        filters: constraints.push(
            FilterClauseView::Single(
                FilterView { field: "id"@, op: FilterOpView::Equals(id) },
            ),
        ),
        include_deleted,
        order_by: None,
        limit: None,
        offset: None,
    }
}

/// Reads a document's row: by its id alone, or among those that meet the
/// constraints.
pub open spec fn row_step(s: SessionView, p: FullReadView) -> Step<Option<DocumentView>> {
    match p.constraints {
        None => ask_document(
            s,
            RequestView::FindByIdRaw {
                slug: p.slug,
                definition: p.definition,
                id: p.id,
                locale: p.locale,
                include_deleted: p.include_deleted,
            },
        ),
        Some(constraints) => {
            let (s1, found) = ask_documents(
                s,
                RequestView::Find {
                    slug: p.slug,
                    definition: p.definition,
                    query: constrained_query(constraints, p.id, p.include_deleted),
                    locale: p.locale,
                },
            );
            (
                s1,
                match found {
                    Err(e) => Err(e),
                    Ok(found) => if found.len() > 0 {
                        Ok(Some(found[0]))
                    } else {
                        Ok(None)
                    },
                },
            )
        },
    }
}

/// Reads a document's row and what its other tables hold.
pub open spec fn full_row_step(s: SessionView, p: FullReadView) -> Step<Option<DocumentView>> {
    let (s1, row) = row_step(s, p);
    match row {
        Err(e) => (s1, Err(e)),
        Ok(None) => (s1, Ok(None)),
        Ok(Some(doc)) => ask_document(
            s1,
            RequestView::Hydrate {
                slug: p.slug,
                fields: p.definition.fields,
                document: doc,
                locale: p.locale,
            },
        ),
    }
}

/// Reads a document in full: the draft that stands in for it, or its row with
/// what its other tables hold.
pub open spec fn find_by_id_full_step(s: SessionView, p: FullReadView) -> Step<
    Option<DocumentView>,
> {
    let (s1, draft) = overlay_step(s, p);
    match draft {
        Err(e) => (s1, Err(e)),
        Ok(Some(doc)) => (s1, Ok(Some(doc))),
        Ok(None) => full_row_step(s1, p),
    }
}

fn may_overlay<'a>(conn: &mut Session, p: &FindByIdFullParams<'a>) -> (r: Result<bool, DbError>)
    ensures
        (final(conn)@, out(r)) == may_overlay_step(old(conn)@, p.view()),
{
    if !p.use_draft || !p.def.has_drafts() {
        return Ok(false);
    }
    if !p.def.soft_delete || p.include_deleted {
        return Ok(true);
    }
    conn.ask_flag(Request::DocumentIsLive { slug: p.slug.to_owned(), id: p.id.to_owned() })
}

fn read_draft<'a>(
    version: Option<crate::query::VersionSnapshot>,
    p: &FindByIdFullParams<'a>,
) -> (r: Result<Option<Document>, DbError>)
    ensures
        out(r) == draft_in(version.deep_view(), p.view()),
{
    let version = match version {
        None => {
            return Ok(None);
        },
        Some(version) => version,
    };
    if !same(version.status.as_str(), "draft") {
        return Ok(None);
    }
    match document_from_snapshot(p.id, &version.snapshot) {
        None => Ok(None),
        Some(mut doc) => {
            resolve_snapshot_locale(&mut doc, &p.def.fields, p.locale_ctx)?;
            Ok(Some(doc))
        },
    }
}

fn serve_draft(
    conn: &mut Session,
    doc: Document,
    slug: &str,
    def: &CollectionDefinition,
    id: &str,
    snapshot_constraints: Vec<FilterClause>,
    p: Ghost<FullReadView>,
) -> (r: Result<Option<Document>, DbError>)
    requires
        p@.slug == slug@,
        p@.definition == def.deep_view(),
        p@.id == id@,
        p@.snapshot_constraints == snapshot_constraints.deep_view(),
    ensures
        (final(conn)@, out(r)) == serve_draft_step(old(conn)@, doc.deep_view(), p@),
{
    let matches = conn.ask_flag(
        Request::MatchesConstraints {
            fields: copy_fields(&def.fields),
            document: doc.copy(),
            filters: snapshot_constraints,
        },
    )?;
    if !matches {
        return Ok(None);
    }
    let status = conn.ask_text(
        Request::DocumentStatus { slug: slug.to_owned(), id: id.to_owned() },
    )?;
    match status {
        None => Ok(Some(doc)),
        Some(status) => {
            let fields = insert_entry(doc.fields, "_status", Json::Text(status));
            Ok(
                Some(
                    Document {
                        id: doc.id,
                        fields,
                        created_at: doc.created_at,
                        updated_at: doc.updated_at,
                    },
                ),
            )
        },
    }
}

fn first_document(mut found: Vec<Document>) -> (r: Option<Document>)
    ensures
        r.deep_view() == (if found@.len() > 0 {
            Some(found.deep_view()[0])
        } else {
            None
        }),
{
    if found.len() == 0 {
        return None;
    }
    Some(found.swap_remove(0))
}

fn read_row<'a>(
    conn: &mut Session,
    slug: &'a str,
    def: &'a CollectionDefinition,
    id: &'a str,
    locale_ctx: Option<&'a LocaleContext>,
    constraints: Option<Vec<FilterClause>>,
    include_deleted: bool,
    p: Ghost<FullReadView>,
) -> (r: Result<Option<Document>, DbError>)
    requires
        p@.slug == slug@,
        p@.definition == def.deep_view(),
        p@.id == id@,
        p@.locale == context_view(locale_ctx),
        p@.constraints == constraints.deep_view(),
        p@.include_deleted == include_deleted,
    ensures
        (final(conn)@, out(r)) == row_step(old(conn)@, p@),
{
    match constraints {
        None => conn.ask_document(
            Request::FindByIdRaw {
                slug: slug.to_owned(),
                definition: def.copy(),
                id: id.to_owned(),
                locale: copy_context(locale_ctx),
                include_deleted,
            },
        ),
        Some(mut filters) => {
            push_item(
                &mut filters,
                FilterClause::Single(
                    Filter { field: "id".to_owned(), op: FilterOp::Equals(id.to_owned()) },
                ),
            );
            let query = FindQuery {
                filters,
                include_deleted,
                order_by: None,
                limit: None,
                offset: None,
            };
            let found = conn.ask_documents(
                Request::Find {
                    slug: slug.to_owned(),
                    definition: def.copy(),
                    query,
                    locale: copy_context(locale_ctx),
                },
            )?;
            Ok(first_document(found))
        },
    }
}

/// Reads a document in full. Where a draft is asked for and the latest version is
/// one that meets its constraints, that is what is read, for the locale asked
/// for and with the status of the document's row. Else it is the document's row,
/// among those that meet the constraints where there are any, with what its other
/// tables hold.
pub fn find_by_id_full<'a>(conn: &mut Session, p: FindByIdFullParams<'a>) -> (r: Result<
    Option<Document>,
    DbError,
>)
    ensures
        (final(conn)@, out(r)) == find_by_id_full_step(old(conn)@, p.view()),
{
    let ghost asked = p.view();
    if may_overlay(conn, &p)? {
        let version = conn.ask_version(
            Request::FindLatestVersion { slug: p.slug.to_owned(), id: p.id.to_owned() },
        )?;
        if let Some(doc) = read_draft(version, &p)? {
            let served = serve_draft(
                conn,
                doc,
                p.slug,
                p.def,
                p.id,
                p.snapshot_constraints,
                Ghost(asked),
            )?;
            if served.is_some() {
                return Ok(served);
            }
        }
    }
    let row = read_row(
        conn,
        p.slug,
        p.def,
        p.id,
        p.locale_ctx,
        p.constraints,
        p.include_deleted,
        Ghost(asked),
    )?;
    match row {
        None => Ok(None),
        Some(document) => conn.ask_document(
            Request::Hydrate {
                slug: p.slug.to_owned(),
                fields: copy_fields(&p.def.fields),
                document,
                locale: copy_context(p.locale_ctx),
            },
        ),
    }
}

/// A draft is served only if it meets its constraints: what is handed out is the
/// draft of the latest version, for which the answer was that it does, with the
/// status of the document's own row.
pub proof fn a_served_draft_meets_its_constraints(s: SessionView, p: FullReadView)
    requires
        overlay_step(s, p).1 matches Ok(Some(_)),
    ensures
        ({
            let (s1, may) = may_overlay_step(s, p);
            let (s2, version) = ask_version(
                s1,
                RequestView::FindLatestVersion { slug: p.slug, id: p.id },
            );
            let draft = draft_in(version->Ok_0, p)->Ok_0->Some_0;
            let (s3, meets) = ask_flag(
                s2,
                RequestView::MatchesConstraints {
                    fields: p.definition.fields,
                    document: draft,
                    filters: p.snapshot_constraints,
                },
            );
            &&& may == Ok::<bool, ErrorView>(true)
            &&& version matches Ok(Some(v)) && v.status == "draft"@
            &&& meets == Ok::<bool, ErrorView>(true)
            &&& ask_text(s3, RequestView::DocumentStatus { slug: p.slug, id: p.id }).1 matches Ok(
                status,
            ) && overlay_step(s, p).1 == Ok::<Option<DocumentView>, ErrorView>(
                Some(with_row_status(draft, status)),
            )
        }),
{
}

/// The draft of a document that is marked as deleted is not served, unless deleted
/// ones are asked for: the row is read, as if there were no draft.
pub proof fn a_deleted_documents_draft_is_not_served(s: SessionView, p: FullReadView)
    requires
        p.use_draft,
        p.drafts,
        p.soft_delete,
        !p.include_deleted,
        ask_flag(s, RequestView::DocumentIsLive { slug: p.slug, id: p.id }).1 == Ok::<
            bool,
            ErrorView,
        >(false),
    ensures
        find_by_id_full_step(s, p) == full_row_step(
            ask_flag(s, RequestView::DocumentIsLive { slug: p.slug, id: p.id }).0,
            p,
        ),
{
}

/// A read that does not ask for drafts is a read of the row.
pub proof fn without_drafts_the_row_is_read(s: SessionView, p: FullReadView)
    requires
        !p.use_draft || !p.drafts,
    ensures
        find_by_id_full_step(s, p) == full_row_step(s, p),
{
}

/// A served draft has the status of the document's own row, whatever the version
/// holds; its other values are the version's.
pub proof fn a_draft_has_its_rows_status(
    doc: DocumentView,
    status: Seq<char>,
    other: Seq<char>,
)
    ensures
        value_of(with_row_status(doc, Some(status)).fields, "_status"@) == Some(
            JsonView::Text(status),
        ),
        other != "_status"@ ==> value_of(with_row_status(doc, Some(status)).fields, other)
            == value_of(doc.fields, other),
{
    value_with(doc.fields, "_status"@, JsonView::Text(status), other);
}

} // verus!
