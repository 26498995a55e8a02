//! Reads ask for what they were asked for, and hand out what they were told.
use crate::definition::{CollectionView, GlobalView};
use crate::document::DocumentView;
use crate::json::{JsonView, with};
use crate::ops::{
    FindByIdFullParams, FullReadView, count_documents_step, find_by_id_full_step,
    find_document_by_id_step, find_documents_step, get_global_step,
};
use crate::promises::{after, answered};
use crate::query::{
    FilterClauseView, FilterOpView, FilterView, FindQuery, FindQueryView, LocaleContextView,
    VersionView,
};
use crate::session::{ReplyView, RequestView, SessionView};
use crate::snapshot::{LocaleContext, LocaleMode, resolved_fields, snapshot_document};
use crate::value::ErrorView;
use vstd::prelude::*;

verus! {

/// A count is of the documents that meet the filters given, in the collection and the
/// locale given, over a connection for reading: those are what is asked for, and the
/// number answered is what is returned. Without a connection nothing is asked.
pub proof fn a_count_is_by_its_filters(
    s: SessionView,
    slug: Seq<char>,
    definition: CollectionView,
    filters: Seq<FilterClauseView>,
    locale: Option<LocaleContextView>,
    n: i64,
    why: Seq<char>,
)
    ensures
        answered(s, 0, ReplyView::Done) && answered(s, 1, ReplyView::Integer(n))
            ==> count_documents_step(s, slug, definition, filters, locale) == (
            after(
                s,
                seq![
                    RequestView::Connect { write: false },
                    RequestView::CountDocuments { slug, definition, filters, locale },
                ],
            ),
            Ok::<i64, ErrorView>(n),
        ),
        answered(s, 0, ReplyView::Done) && answered(s, 1, ReplyView::Failed(why))
            ==> count_documents_step(s, slug, definition, filters, locale).1 == Err::<
            i64,
            ErrorView,
        >(ErrorView::Backend(why)),
        answered(s, 0, ReplyView::Failed(why)) ==> count_documents_step(
            s,
            slug,
            definition,
            filters,
            locale,
        ) == (
            after(s, seq![RequestView::Connect { write: false }]),
            Err::<i64, ErrorView>(
                ErrorView::Backend("Failed to get DB connection: "@ + why),
            ),
        ),
{
    let asked = seq![
        RequestView::Connect { write: false },
        RequestView::CountDocuments { slug, definition, filters, locale },
    ];
    assert(s.sent.push(asked[0]).push(asked[1]) =~= s.sent + asked);
    assert(s.sent.push(asked[0]) =~= s.sent + seq![asked[0]]);
    assert("Failed to get DB connection"@ + ": "@ =~= "Failed to get DB connection: "@) by {
        reveal_strlit("Failed to get DB connection");
        reveal_strlit(": ");
        reveal_strlit("Failed to get DB connection: ");
    }
}

/// A search asks for the documents that the query given describes, in the collection and
/// the locale given, and hands out those answered.
pub proof fn a_search_is_by_its_query(
    s: SessionView,
    slug: Seq<char>,
    definition: CollectionView,
    query: FindQueryView,
    locale: Option<LocaleContextView>,
    found: Seq<DocumentView>,
    why: Seq<char>,
)
    ensures
        answered(s, 0, ReplyView::Done) && answered(s, 1, ReplyView::Documents(found))
            ==> find_documents_step(s, slug, definition, query, locale) == (
            after(
                s,
                seq![
                    RequestView::Connect { write: false },
                    RequestView::Find { slug, definition, query, locale },
                ],
            ),
            Ok::<Seq<DocumentView>, ErrorView>(found),
        ),
        answered(s, 0, ReplyView::Done) && answered(s, 1, ReplyView::Failed(why))
            ==> find_documents_step(s, slug, definition, query, locale).1 == Err::<
            Seq<DocumentView>,
            ErrorView,
        >(ErrorView::Backend(why)),
        answered(s, 0, ReplyView::Failed(why)) ==> find_documents_step(
            s,
            slug,
            definition,
            query,
            locale,
        ) == (
            after(s, seq![RequestView::Connect { write: false }]),
            Err::<Seq<DocumentView>, ErrorView>(
                ErrorView::Backend("Failed to get DB connection: "@ + why),
            ),
        ),
{
    let asked = seq![
        RequestView::Connect { write: false },
        RequestView::Find { slug, definition, query, locale },
    ];
    assert(s.sent.push(asked[0]).push(asked[1]) =~= s.sent + asked);
    assert(s.sent.push(asked[0]) =~= s.sent + seq![asked[0]]);
    assert("Failed to get DB connection"@ + ": "@ =~= "Failed to get DB connection: "@) by {
        reveal_strlit("Failed to get DB connection");
        reveal_strlit(": ");
        reveal_strlit("Failed to get DB connection: ");
    }
}

/// A read by id asks for the document with the id given, and hands out the one answered,
/// or none.
pub proof fn a_document_is_read_by_its_id(
    s: SessionView,
    slug: Seq<char>,
    definition: CollectionView,
    id: Seq<char>,
    locale: Option<LocaleContextView>,
    found: Option<DocumentView>,
    why: Seq<char>,
)
    ensures
        answered(s, 0, ReplyView::Done) && answered(s, 1, ReplyView::Document(found))
            ==> find_document_by_id_step(s, slug, definition, id, locale) == (
            after(
                s,
                seq![
                    RequestView::Connect { write: false },
                    RequestView::FindById { slug, definition, id, locale },
                ],
            ),
            Ok::<Option<DocumentView>, ErrorView>(found),
        ),
        answered(s, 0, ReplyView::Done) && answered(s, 1, ReplyView::Failed(why))
            ==> find_document_by_id_step(s, slug, definition, id, locale).1 == Err::<
            Option<DocumentView>,
            ErrorView,
        >(ErrorView::Backend(why)),
        answered(s, 0, ReplyView::Failed(why)) ==> find_document_by_id_step(
            s,
            slug,
            definition,
            id,
            locale,
        ) == (
            after(s, seq![RequestView::Connect { write: false }]),
            Err::<Option<DocumentView>, ErrorView>(
                ErrorView::Backend("Failed to get DB connection: "@ + why),
            ),
        ),
{
    let asked = seq![
        RequestView::Connect { write: false },
        RequestView::FindById { slug, definition, id, locale },
    ];
    assert(s.sent.push(asked[0]).push(asked[1]) =~= s.sent + asked);
    assert(s.sent.push(asked[0]) =~= s.sent + seq![asked[0]]);
    assert("Failed to get DB connection"@ + ": "@ =~= "Failed to get DB connection: "@) by {
        reveal_strlit("Failed to get DB connection");
        reveal_strlit(": ");
        reveal_strlit("Failed to get DB connection: ");
    }
}

/// A read of a global asks for the one given, and hands out its document.
pub proof fn a_global_is_read_by_its_slug(
    s: SessionView,
    slug: Seq<char>,
    definition: GlobalView,
    locale: Option<LocaleContextView>,
    found: DocumentView,
    why: Seq<char>,
)
    ensures
        answered(s, 0, ReplyView::Done) && answered(s, 1, ReplyView::Document(Some(found)))
            ==> get_global_step(s, slug, definition, locale) == (
            after(
                s,
                seq![
                    RequestView::Connect { write: false },
                    RequestView::GetGlobal { slug, definition, locale },
                ],
            ),
            Ok::<DocumentView, ErrorView>(found),
        ),
        answered(s, 0, ReplyView::Done) && answered(s, 1, ReplyView::Failed(why))
            ==> get_global_step(s, slug, definition, locale).1 == Err::<DocumentView, ErrorView>(
            ErrorView::Backend(why),
        ),
        answered(s, 0, ReplyView::Failed(why)) ==> get_global_step(s, slug, definition, locale)
            == (
            after(s, seq![RequestView::Connect { write: false }]),
            Err::<DocumentView, ErrorView>(
                ErrorView::Backend("Failed to get DB connection: "@ + why),
            ),
        ),
{
    let asked = seq![
        RequestView::Connect { write: false },
        RequestView::GetGlobal { slug, definition, locale },
    ];
    assert(s.sent.push(asked[0]).push(asked[1]) =~= s.sent + asked);
    assert(s.sent.push(asked[0]) =~= s.sent + seq![asked[0]]);
    assert("Failed to get DB connection"@ + ": "@ =~= "Failed to get DB connection: "@) by {
        reveal_strlit("Failed to get DB connection");
        reveal_strlit(": ");
        reveal_strlit("Failed to get DB connection: ");
    }
}

/// The query for one document among those that meet constraints: what they ask for, and
/// the id.
pub open spec fn one_among(
    constraints: Seq<FilterClauseView>,
    id: Seq<char>,
    include_deleted: bool,
) -> FindQueryView {
    FindQueryView {
        filters: constraints.push(
            FilterClauseView::Single(FilterView { field: "id"@, op: FilterOpView::Equals(id) }),
        ),
        include_deleted,
        order_by: None,
        limit: None,
        offset: None,
    }
}

/// Where no draft is asked for, or the collection has none, a read in full reads the row
/// alone: without constraints by its id, with them among the documents that meet them,
/// the first of which is handed out. What its other tables hold is filled in, over the
/// document that was read. A document that is not found is not filled in.
pub proof fn a_row_is_read_in_full(
    s: SessionView,
    p: FullReadView,
    found: DocumentView,
    whole: Option<DocumentView>,
    more: Seq<DocumentView>,
)
    requires
        !p.use_draft || !p.drafts,
    ensures
        p.constraints is None && answered(s, 0, ReplyView::Document(Some(found))) && answered(
            s,
            1,
            ReplyView::Document(whole),
        ) ==> find_by_id_full_step(s, p) == (
            after(
                s,
                seq![
                    RequestView::FindByIdRaw {
                        slug: p.slug,
                        definition: p.definition,
                        id: p.id,
                        locale: p.locale,
                        include_deleted: p.include_deleted,
                    },
                    RequestView::Hydrate {
                        slug: p.slug,
                        fields: p.definition.fields,
                        document: found,
                        locale: p.locale,
                    },
                ],
            ),
            Ok::<Option<DocumentView>, ErrorView>(whole),
        ),
        p.constraints is None && answered(s, 0, ReplyView::Document(None))
            ==> find_by_id_full_step(s, p).1 == Ok::<Option<DocumentView>, ErrorView>(None)
            && find_by_id_full_step(s, p).0.sent.len() == s.sent.len() + 1,
        p.constraints is Some && answered(s, 0, ReplyView::Documents(seq![found] + more))
            && answered(s, 1, ReplyView::Document(whole)) ==> find_by_id_full_step(s, p) == (
            after(
                s,
                seq![
                    RequestView::Find {
                        slug: p.slug,
                        definition: p.definition,
                        query: one_among(p.constraints->Some_0, p.id, p.include_deleted),
                        locale: p.locale,
                    },
                    RequestView::Hydrate {
                        slug: p.slug,
                        fields: p.definition.fields,
                        document: found,
                        locale: p.locale,
                    },
                ],
            ),
            Ok::<Option<DocumentView>, ErrorView>(whole),
        ),
        p.constraints is Some && answered(s, 0, ReplyView::Documents(Seq::empty()))
            ==> find_by_id_full_step(s, p).1 == Ok::<Option<DocumentView>, ErrorView>(None)
            && find_by_id_full_step(s, p).0.sent.len() == s.sent.len() + 1,
{
    assert((seq![found] + more)[0] == found);
    let raw = RequestView::FindByIdRaw {
        slug: p.slug,
        definition: p.definition,
        id: p.id,
        locale: p.locale,
        include_deleted: p.include_deleted,
    };
    let filled = RequestView::Hydrate {
        slug: p.slug,
        fields: p.definition.fields,
        document: found,
        locale: p.locale,
    };
    assert(s.sent.push(raw).push(filled) =~= s.sent + seq![raw, filled]);
    if let Some(constraints) = p.constraints {
        let search = RequestView::Find {
            slug: p.slug,
            definition: p.definition,
            query: one_among(constraints, p.id, p.include_deleted),
            locale: p.locale,
        };
        assert(s.sent.push(search).push(filled) =~= s.sent + seq![search, filled]);
    }
}

/// Where drafts are asked for and the collection has them, the latest version is looked
/// at, of a document that is live, unless deleted ones are asked for or deletion is for
/// good. If it is a draft that meets the constraints on drafts, it is handed out, for the
/// locale it is read in, with the status of the document's row in place of its own; the
/// row is not read.
pub proof fn a_draft_is_read_in_place(
    s: SessionView,
    p: FullReadView,
    snapshot: JsonView,
    draft: DocumentView,
    fields: Seq<(Seq<char>, JsonView)>,
    status: Seq<char>,
)
    requires
        p.use_draft,
        p.drafts,
        snapshot_document(p.id, snapshot) == Some(draft),
        resolved_fields(draft.fields, p.fields, p.ctx) == Ok::<
            Seq<(Seq<char>, JsonView)>,
            ErrorView,
        >(fields),
    ensures
        ({
            let version = ReplyView::Version(
                Some(VersionView { status: "draft"@, snapshot }),
            );
            let live = RequestView::DocumentIsLive { slug: p.slug, id: p.id };
            let latest = RequestView::FindLatestVersion { slug: p.slug, id: p.id };
            let resolved = DocumentView { fields, ..draft };
            let meets = RequestView::MatchesConstraints {
                fields: p.definition.fields,
                document: resolved,
                filters: p.snapshot_constraints,
            };
            let row_status = RequestView::DocumentStatus { slug: p.slug, id: p.id };
            let served = DocumentView {
                fields: with(fields, "_status"@, JsonView::Text(status)),
                ..draft
            };
            &&& (!p.soft_delete || p.include_deleted) && answered(s, 0, version) && answered(
                s,
                1,
                ReplyView::Flag(true),
            ) && answered(s, 2, ReplyView::Text(Some(status))) ==> find_by_id_full_step(s, p) == (
                after(s, seq![latest, meets, row_status]),
                Ok::<Option<DocumentView>, ErrorView>(Some(served)),
            )
            &&& p.soft_delete && !p.include_deleted && answered(s, 0, ReplyView::Flag(true))
                && answered(s, 1, version) && answered(s, 2, ReplyView::Flag(true)) && answered(
                s,
                3,
                ReplyView::Text(Some(status)),
            ) ==> find_by_id_full_step(s, p) == (
                after(s, seq![live, latest, meets, row_status]),
                Ok::<Option<DocumentView>, ErrorView>(Some(served)),
            )
        }),
{
    let live = RequestView::DocumentIsLive { slug: p.slug, id: p.id };
    let latest = RequestView::FindLatestVersion { slug: p.slug, id: p.id };
    let resolved = DocumentView { fields, ..draft };
    let meets = RequestView::MatchesConstraints {
        fields: p.definition.fields,
        document: resolved,
        filters: p.snapshot_constraints,
    };
    let row_status = RequestView::DocumentStatus { slug: p.slug, id: p.id };
    assert(s.sent.push(latest).push(meets).push(row_status) =~= s.sent + seq![
        latest,
        meets,
        row_status,
    ]);
    assert(s.sent.push(live).push(latest).push(meets).push(row_status) =~= s.sent + seq![
        live,
        latest,
        meets,
        row_status,
    ]);
}

/// The row is read, and not the draft, where the document is deleted, its latest version
/// is none or is not a draft, or the draft does not meet the constraints on drafts: what
/// is handed out is then the document that the row was filled in to.
pub proof fn else_the_row_is_read(
    s: SessionView,
    p: FullReadView,
    version: VersionView,
    found: DocumentView,
    whole: DocumentView,
)
    requires
        p.use_draft,
        p.drafts,
        p.constraints is None,
    ensures
        ({
            let live = RequestView::DocumentIsLive { slug: p.slug, id: p.id };
            let latest = RequestView::FindLatestVersion { slug: p.slug, id: p.id };
            let raw = RequestView::FindByIdRaw {
                slug: p.slug,
                definition: p.definition,
                id: p.id,
                locale: p.locale,
                include_deleted: p.include_deleted,
            };
            let filled = RequestView::Hydrate {
                slug: p.slug,
                fields: p.definition.fields,
                document: found,
                locale: p.locale,
            };
            let handed_out = Ok::<Option<DocumentView>, ErrorView>(Some(whole));
            &&& p.soft_delete && !p.include_deleted && answered(s, 0, ReplyView::Flag(false))
                && answered(s, 1, ReplyView::Document(Some(found))) && answered(
                s,
                2,
                ReplyView::Document(Some(whole)),
            ) ==> find_by_id_full_step(s, p) == (after(s, seq![live, raw, filled]), handed_out)
            &&& (!p.soft_delete || p.include_deleted) && (answered(s, 0, ReplyView::Version(None))
                || (version.status != "draft"@ && answered(
                s,
                0,
                ReplyView::Version(Some(version)),
            ))) && answered(s, 1, ReplyView::Document(Some(found))) && answered(
                s,
                2,
                ReplyView::Document(Some(whole)),
            ) ==> find_by_id_full_step(s, p) == (after(s, seq![latest, raw, filled]), handed_out)
        }),
{
    let live = RequestView::DocumentIsLive { slug: p.slug, id: p.id };
    let latest = RequestView::FindLatestVersion { slug: p.slug, id: p.id };
    let raw = RequestView::FindByIdRaw {
        slug: p.slug,
        definition: p.definition,
        id: p.id,
        locale: p.locale,
        include_deleted: p.include_deleted,
    };
    let filled = RequestView::Hydrate {
        slug: p.slug,
        fields: p.definition.fields,
        document: found,
        locale: p.locale,
    };
    assert(s.sent.push(live).push(raw).push(filled) =~= s.sent + seq![live, raw, filled]);
    assert(s.sent.push(latest).push(raw).push(filled) =~= s.sent + seq![latest, raw, filled]);
}

/// A draft that does not meet the constraints on drafts is not handed out: the row is.
pub proof fn a_draft_out_of_bounds_is_not_read(
    s: SessionView,
    p: FullReadView,
    snapshot: JsonView,
    draft: DocumentView,
    found: DocumentView,
    whole: DocumentView,
)
    requires
        p.use_draft,
        p.drafts,
        !p.soft_delete || p.include_deleted,
        p.constraints is None,
        snapshot_document(p.id, snapshot) == Some(draft),
        resolved_fields(draft.fields, p.fields, p.ctx) is Ok,
        answered(s, 0, ReplyView::Version(Some(VersionView { status: "draft"@, snapshot }))),
        answered(s, 1, ReplyView::Flag(false)),
        answered(s, 2, ReplyView::Document(Some(found))),
        answered(s, 3, ReplyView::Document(Some(whole))),
    ensures
        find_by_id_full_step(s, p).1 == Ok::<Option<DocumentView>, ErrorView>(Some(whole)),
{
}

/// What is read in full is what is asked for: every part of the parameters counts.
pub proof fn every_part_of_a_full_read_counts<'a>(p: FindByIdFullParams<'a>)
    ensures
        p.view().slug == p.slug@,
        p.view().definition == p.def.deep_view(),
        p.view().fields == p.def.fields@,
        p.view().drafts <==> (p.def.versions matches Some(v) && v.drafts),
        p.view().soft_delete == p.def.soft_delete,
        p.view().id == p.id@,
        p.locale_ctx matches Some(ctx) ==> p.view().ctx == Some(*ctx) && p.view().locale == Some(
            ctx.deep_view(),
        ),
        p.locale_ctx is None ==> p.view().ctx is None && p.view().locale is None,
        p.view().constraints == p.constraints.deep_view(),
        p.view().snapshot_constraints == p.snapshot_constraints.deep_view(),
        p.view().use_draft == p.use_draft,
        p.view().include_deleted == p.include_deleted,
{
}

/// What a read is asked to be made in is handed on: the one locale, all of them, and how
/// locales are configured.
pub proof fn every_part_of_a_locale_context_counts(ctx: LocaleContext)
    ensures
        ctx.mode matches LocaleMode::Single(code) ==> ctx.deep_view().single == Some(code@)
            && !ctx.deep_view().all,
        ctx.mode == LocaleMode::All ==> ctx.deep_view().all && ctx.deep_view().single is None,
        ctx.mode == LocaleMode::Default ==> !ctx.deep_view().all && ctx.deep_view().single is None,
        ctx.deep_view().default_locale == ctx.config.default_locale@,
        ctx.deep_view().locales == ctx.config.locales.deep_view(),
        ctx.deep_view().fallback == ctx.config.fallback,
{
}

/// What a search asks for is handed on, every part of it.
pub proof fn every_part_of_a_query_counts(query: FindQuery)
    ensures
        query.deep_view().filters == query.filters.deep_view(),
        query.deep_view().order_by == query.order_by.deep_view(),
        query.deep_view().limit == query.limit,
        query.deep_view().offset == query.offset,
        query.deep_view().include_deleted == query.include_deleted,
{
}

/// A version that holds no document is no draft: the row is read.
pub proof fn a_version_without_a_document_is_not_read(
    s: SessionView,
    p: FullReadView,
    snapshot: JsonView,
    found: DocumentView,
    whole: DocumentView,
)
    requires
        p.use_draft,
        p.drafts,
        !p.soft_delete || p.include_deleted,
        p.constraints is None,
        !(snapshot is Object),
        answered(s, 0, ReplyView::Version(Some(VersionView { status: "draft"@, snapshot }))),
        answered(s, 1, ReplyView::Document(Some(found))),
        answered(s, 2, ReplyView::Document(Some(whole))),
    ensures
        find_by_id_full_step(s, p).1 == Ok::<Option<DocumentView>, ErrorView>(Some(whole)),
{
}

/// A document that may not be read is not found: where the row does not meet the
/// constraints, none is handed out, draft or not.
pub proof fn what_does_not_meet_the_constraints_is_not_found(
    s: SessionView,
    p: FullReadView,
)
    requires
        p.constraints is Some,
    ensures
        (!p.use_draft || !p.drafts) && answered(s, 0, ReplyView::Documents(Seq::empty()))
            ==> find_by_id_full_step(s, p).1 == Ok::<Option<DocumentView>, ErrorView>(None),
        p.use_draft && p.drafts && (!p.soft_delete || p.include_deleted) && answered(
            s,
            0,
            ReplyView::Version(None),
        ) && answered(s, 1, ReplyView::Documents(Seq::empty())) ==> find_by_id_full_step(s, p).1
            == Ok::<Option<DocumentView>, ErrorView>(None),
{
}

} // verus!
