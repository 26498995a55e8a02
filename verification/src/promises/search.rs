//! Search indexes are built from the shape they have, and no more often than that.
use crate::definition::CollectionDefinition;
use crate::migrate::meta::get_step;
use crate::migrate::search_index::{sync_index_step, sync_indexes_from};
use crate::migrate::transaction::{
    in_meta_get_step, in_meta_upsert_step, in_sync_index_step, in_sync_indexes_from,
};
use crate::promises::{
    after, answered, on_record, on_record_wider, parameters_are_counted_from_one, record_read,
    record_removed, record_written,
};
use crate::promises::records::{what_is_read_is_on_record, what_is_stored_is_on_record};
use crate::session::{ReplyView, RequestView, SessionView, extends};
use crate::value::{DbRowView, DbValueView, ErrorView};
use vstd::prelude::*;

verus! {

/// Whether, from the `i`-th request on and before the `j`-th, the shape of a collection's
/// index was asked for and is on record as answered.
pub open spec fn index_kept(s: SessionView, i: int, j: int, slug: Seq<char>) -> bool {
    exists|k: int|
        0 <= i <= k < j && k < s.sent.len() && #[trigger] s.sent[k]
            == (RequestView::SearchIndexShape { slug }) && k < s.replies.len() && (s.replies[k] matches ReplyView::IndexShape {
            fingerprint,
            ..
        } && on_record(s, k + 1, j, "fts_shape:"@ + slug, fingerprint))
}

/// An index with another shape than it was built from, or with none on record, is built,
/// and its shape recorded. One with the same shape is built if it is missing while there
/// is something to index, or there while there is nothing; else it is left alone.
pub proof fn an_index_is_built_from_its_shape(
    s: SessionView,
    slug: Seq<char>,
    fingerprint: Seq<char>,
    indexed: bool,
    row: Option<DbRowView>,
    exists: bool,
    n: u64,
    m: u64,
)
    requires
        answered(s, 0, ReplyView::IndexShape { fingerprint, indexed }),
        answered(s, 1, ReplyView::Row(row)),
    ensures
        ({
            let key = "fts_shape:"@ + slug;
            let looked = seq![
                RequestView::SearchIndexShape { slug },
                record_read(s.dialect, key),
            ];
            let built = seq![
                RequestView::SyncSearchIndex { slug },
                record_removed(s.dialect, key),
                record_written(s.dialect, key, fingerprint),
            ];
            let asked = looked.push(RequestView::SearchIndexExists { slug });
            let same = row matches Some(row) && row.values.len() > 0 && row.values[0]
                == DbValueView::Text(fingerprint);
            &&& !same && answered(s, 2, ReplyView::Done) && answered(s, 3, ReplyView::Count(n))
                && answered(s, 4, ReplyView::Count(m)) ==> sync_index_step(s, slug) == (
                after(s, looked + built),
                Ok::<(), ErrorView>(()),
            )
            &&& same && answered(s, 2, ReplyView::Flag(indexed)) ==> sync_index_step(s, slug) == (
                after(s, asked),
                Ok::<(), ErrorView>(()),
            )
            &&& same && answered(s, 2, ReplyView::Flag(!indexed)) && answered(
                s,
                3,
                ReplyView::Done,
            ) && answered(s, 4, ReplyView::Count(n)) && answered(s, 5, ReplyView::Count(m))
                ==> sync_index_step(s, slug) == (
                after(s, asked + built),
                Ok::<(), ErrorView>(()),
            )
        }),
{
    parameters_are_counted_from_one(s.dialect);
    let key = "fts_shape:"@ + slug;
    let a = RequestView::SearchIndexShape { slug };
    let b = record_read(s.dialect, key);
    let c = RequestView::SearchIndexExists { slug };
    let d = RequestView::SyncSearchIndex { slug };
    let e = record_removed(s.dialect, key);
    let f = record_written(s.dialect, key, fingerprint);
    assert(s.sent.push(a).push(b).push(d).push(e).push(f) =~= s.sent + (seq![a, b] + seq![
        d,
        e,
        f,
    ]));
    assert(s.sent.push(a).push(b).push(c) =~= s.sent + seq![a, b].push(c));
    assert(s.sent.push(a).push(b).push(c).push(d).push(e).push(f) =~= s.sent + (seq![a, b].push(c)
        + seq![d, e, f]));
}

/// Once it is synced, an index was built from the shape it has: that shape is on record.
pub proof fn an_index_is_kept(s: SessionView, slug: Seq<char>)
    ensures
        ({
            let (end, r) = sync_index_step(s, slug);
            r is Ok ==> index_kept(end, s.sent.len() as int, end.sent.len() as int, slug)
        }),
{
    broadcast use {in_meta_get_step, in_meta_upsert_step};

    let key = "fts_shape:"@ + slug;
    let (end, r) = sync_index_step(s, slug);
    if r is Ok {
        let request = RequestView::SearchIndexShape { slug };
        let at = s.sent.len() as int;
        let s1 = s.asked(request);
        let fingerprint = s.replies[at]->IndexShape_fingerprint;
        what_is_read_is_on_record(s1, key);
        let s2 = get_step(s1, key).0;
        if get_step(s1, key).1 != Ok::<Option<Seq<char>>, ErrorView>(
            Some(fingerprint),
        ) {
            let s3 = s2.asked(RequestView::SyncSearchIndex { slug });
            what_is_stored_is_on_record(s3, key, fingerprint);
            on_record_wider(
                end,
                end,
                s3.sent.len() as int,
                end.sent.len() as int,
                at + 1,
                end.sent.len() as int,
                key,
                fingerprint,
            );
        } else {
            assert(extends(s2, end));
            on_record_wider(
                s2,
                end,
                at + 1,
                s2.sent.len() as int,
                at + 1,
                end.sent.len() as int,
                key,
                fingerprint,
            );
        }
        assert(end.sent[at] == request);
    }
}

/// Once they are synced, the index of every collection was built from the shape it has.
pub proof fn every_index_is_kept(
    s: SessionView,
    collections: Seq<CollectionDefinition>,
    i: int,
    k: int,
)
    requires
        0 <= i <= k < collections.len(),
    ensures
        ({
            let (end, r) = sync_indexes_from(s, collections, i);
            r is Ok ==> index_kept(
                end,
                s.sent.len() as int,
                end.sent.len() as int,
                collections[k].slug@,
            )
        }),
    decreases collections.len() - i,
{
    broadcast use {in_sync_index_step, in_sync_indexes_from};

    let (end, r) = sync_indexes_from(s, collections, i);
    let (s1, r1) = sync_index_step(s, collections[i].slug@);
    if r is Ok {
        assert(end == sync_indexes_from(s1, collections, i + 1).0);
        if i == k {
            an_index_is_kept(s, collections[k].slug@);
            index_kept_wider(
                s1,
                end,
                s.sent.len() as int,
                s1.sent.len() as int,
                s.sent.len() as int,
                end.sent.len() as int,
                collections[k].slug@,
            );
        } else {
            every_index_is_kept(s1, collections, i + 1, k);
            index_kept_wider(
                end,
                end,
                s1.sent.len() as int,
                end.sent.len() as int,
                s.sent.len() as int,
                end.sent.len() as int,
                collections[k].slug@,
            );
        }
    }
}

pub(crate) proof fn index_kept_wider(
    b: SessionView,
    d: SessionView,
    i: int,
    j: int,
    k: int,
    l: int,
    slug: Seq<char>,
)
    requires
        extends(b, d),
        index_kept(b, i, j, slug),
        0 <= k <= i,
        j <= l,
    ensures
        index_kept(d, k, l, slug),
{
    let request = RequestView::SearchIndexShape { slug };
    let at = choose|at: int|
        0 <= i <= at < j && at < b.sent.len() && #[trigger] b.sent[at] == request && at
            < b.replies.len() && (b.replies[at] matches ReplyView::IndexShape { fingerprint, .. }
            && on_record(b, at + 1, j, "fts_shape:"@ + slug, fingerprint));
    assert(d.sent[at] == request);
    on_record_wider(
        b,
        d,
        at + 1,
        j,
        at + 1,
        l,
        "fts_shape:"@ + slug,
        b.replies[at]->IndexShape_fingerprint,
    );
}

} // verus!
