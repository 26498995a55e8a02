//! Keeping the collections' search indexes.
//!
//! Each write keeps an index current row by row, so the sync builds one anew only
//! when its shape changed: that takes a lock that other searches wait for. A pass
//! that rewrites stored values without the index seeing it marks the index stale,
//! and the sync builds it when those passes are done.
use crate::definition::{CollectionDefinition, Registry};
use crate::migrate::meta;
use crate::session::{
    Request, RequestView, Session, SessionView, Step, ask_done, ask_flag, ask_shape,
};
use crate::text::{cat2, same};
use crate::value::{DbError, ErrorView, out};
use vstd::prelude::*;

verus! {

/// The key under which the shape a collection's index was built from is recorded.
pub open spec fn index_gate_key(slug: Seq<char>) -> Seq<char> {
    "fts_shape:"@ + slug
}

/// Marks a collection's index stale, so that the next sync builds it anew.
pub fn invalidate(conn: &mut Session, slug: &str) -> (r: Result<(), DbError>)
    ensures
        (final(conn)@, out(r)) == meta::delete_step(old(conn)@, index_gate_key(slug@)),
{
    let key = cat2("fts_shape:", slug);
    meta::delete(conn, key.as_str())
}

/// Builds an index and records the shape it was built from.
pub open spec fn build_index_step(s: SessionView, slug: Seq<char>, fingerprint: Seq<char>) -> Step<
    (),
> {
    let (s1, r) = ask_done(s, RequestView::SyncSearchIndex { slug });
    match r {
        Err(e) => (s1, Err(e)),
        Ok(_) => meta::upsert_step(s1, index_gate_key(slug), fingerprint),
    }
}

/// Builds a collection's index, unless it was built from the shape it has now and
/// is there exactly if there is anything to index.
pub open spec fn sync_index_step(s: SessionView, slug: Seq<char>) -> Step<()> {
    let (s1, shape) = ask_shape(s, RequestView::SearchIndexShape { slug });
    match shape {
        Err(e) => (s1, Err(e)),
        Ok((fingerprint, indexed)) => {
            let (s2, stored) = meta::get_step(s1, index_gate_key(slug));
            match stored {
                Err(e) => (s2, Err(e)),
                Ok(stored) => if stored != Some(fingerprint) {
                    build_index_step(s2, slug, fingerprint)
                } else {
                    let (s3, exists) = ask_flag(s2, RequestView::SearchIndexExists { slug });
                    match exists {
                        Err(e) => (s3, Err(e)),
                        Ok(exists) => if exists == indexed {
                            (s3, Ok(()))
                        } else {
                            build_index_step(s3, slug, fingerprint)
                        },
                    }
                },
            }
        },
    }
}

fn sync_search_index(conn: &mut Session, slug: &str) -> (r: Result<(), DbError>)
    ensures
        (final(conn)@, out(r)) == sync_index_step(old(conn)@, slug@),
{
    let key = cat2("fts_shape:", slug);
    let (fingerprint, indexed) = conn.ask_shape(
        Request::SearchIndexShape { slug: slug.to_owned() },
    )?;
    if let Some(stored) = meta::get(conn, key.as_str())? {
        if same(stored.as_str(), fingerprint.as_str()) {
            let exists = conn.ask_flag(Request::SearchIndexExists { slug: slug.to_owned() })?;
            if exists == indexed {
                return Ok(());
            }
        }
    }
    conn.ask_done(Request::SyncSearchIndex { slug: slug.to_owned() })?;
    meta::upsert(conn, key.as_str(), fingerprint.as_str())
}

/// Brings the indexes of the collections from the `i`-th on up to date.
pub open spec fn sync_indexes_from(
    s: SessionView,
    collections: Seq<CollectionDefinition>,
    i: int,
) -> Step<()>
    decreases collections.len() - i,
{
    if i < 0 || i >= collections.len() {
        (s, Ok(()))
    } else {
        let (s1, r) = sync_index_step(s, collections[i].slug@);
        match r {
            Err(e) => (s1, Err(e)),
            Ok(_) => sync_indexes_from(s1, collections, i + 1),
        }
    }
}

/// Builds the index of every collection whose index has another shape than when
/// it was built, or that was marked stale.
pub fn sync_search_indexes(conn: &mut Session, registry: &Registry) -> (r: Result<(), DbError>)
    ensures
        (final(conn)@, out(r)) == sync_indexes_from(old(conn)@, registry.collections@, 0),
{
    let ghost all = registry.collections@;
    let mut i: usize = 0;
    while i < registry.collections.len()
        invariant
            i <= registry.collections.len(),
            all == registry.collections@,
            sync_indexes_from(old(conn)@, all, 0) == sync_indexes_from(conn@, all, i as int),
        decreases registry.collections.len() - i,
    {
        sync_search_index(conn, registry.collections[i].slug.as_str())?;
        i += 1;
    }
    Ok(())
}

/// An index that was built from the shape it has now, and is there exactly if there
/// is anything to index, is left alone: nothing is asked beyond that.
pub proof fn an_unchanged_index_is_kept(
    s: SessionView,
    slug: Seq<char>,
    fingerprint: Seq<char>,
    indexed: bool,
)
    requires
        ({
            let (s1, shape) = ask_shape(s, RequestView::SearchIndexShape { slug });
            let (s2, stored) = meta::get_step(s1, index_gate_key(slug));
            let (s3, exists) = ask_flag(s2, RequestView::SearchIndexExists { slug });
            &&& shape == Ok::<(Seq<char>, bool), ErrorView>((fingerprint, indexed))
            &&& stored == Ok::<Option<Seq<char>>, ErrorView>(Some(fingerprint))
            &&& exists == Ok::<bool, ErrorView>(indexed)
        }),
    ensures
        sync_index_step(s, slug).1 is Ok,
        sync_index_step(s, slug).0.sent.len() == s.sent.len() + 3,
        !sync_index_step(s, slug).0.sent.skip(s.sent.len() as int).contains(
            RequestView::SyncSearchIndex { slug },
        ),
{
    let n = s.sent.len() as int;
    let new = sync_index_step(s, slug).0.sent.skip(n);
    assert(new.len() == 3);
    assert(new[0] is SearchIndexShape);
    assert(new[1] is QueryOne);
    assert(new[2] is SearchIndexExists);
}

/// An index that has another shape than the one on record, or none on record, is
/// built right after that was found out.
pub proof fn a_changed_index_is_built(
    s: SessionView,
    slug: Seq<char>,
    fingerprint: Seq<char>,
    indexed: bool,
    stored: Option<Seq<char>>,
)
    requires
        ({
            let (s1, shape) = ask_shape(s, RequestView::SearchIndexShape { slug });
            &&& shape == Ok::<(Seq<char>, bool), ErrorView>((fingerprint, indexed))
            &&& meta::get_step(s1, index_gate_key(slug)).1 == Ok::<Option<Seq<char>>, ErrorView>(
                stored,
            )
        }),
        stored != Some(fingerprint),
    ensures
        sync_index_step(s, slug).0.sent.len() > s.sent.len() + 2,
        sync_index_step(s, slug).0.sent[s.sent.len() as int + 2] == (RequestView::SyncSearchIndex {
            slug,
        }),
{
}

/// Marking an index stale takes its shape off the record, so that the next sync
/// builds it.
pub proof fn a_stale_index_has_no_shape_on_record(
    s: SessionView,
    slug: Seq<char>,
    store: Map<Seq<char>, Seq<char>>,
)
    requires
        meta::held_between(s, meta::delete_step(s, index_gate_key(slug)).0, store) is Some,
    ensures
        !meta::held_between(
            s,
            meta::delete_step(s, index_gate_key(slug)).0,
            store,
        )->Some_0.dom().contains(index_gate_key(slug)),
{
    meta::delete_removes(s, index_gate_key(slug), store);
}

} // verus!
