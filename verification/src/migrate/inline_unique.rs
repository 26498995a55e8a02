//! Dropping the inline `UNIQUE` of older tables.
//!
//! **One-time conversion — removable after 0.1.0**
//!
//! A collection's table used to be made with an inline `UNIQUE` on its unique
//! fields. Uniqueness is kept by indexes now, which follow the definition; an
//! inline constraint cannot, and outlives the definition that asked for it. What
//! is to be dropped is found here, once per collection; the collection's sync
//! drops it and records that.
use crate::migrate::helpers::introspection::{
    ConstraintKind, table_constraints, table_constraints_step, table_exists, table_exists_step,
};
use crate::migrate::meta;
use crate::session::{Session, SessionView, Step};
use crate::text::{cat2, same};
use crate::value::{DbError, ErrorView, out};
use vstd::prelude::*;

verus! {

/// The key of the mark of one collection.
pub open spec fn unique_gate_key(slug: Seq<char>) -> Seq<char> {
    "inline_unique:"@ + slug
}

/// Whether a pass gated under `key` at version 1 still has to run. Where there is
/// no record at all, none has.
pub open spec fn gate_pending_step(s: SessionView, key: Seq<char>) -> Step<bool> {
    let (s1, exists) = table_exists_step(s, "_crap_meta"@);
    match exists {
        Err(e) => (s1, Err(e)),
        Ok(false) => (s1, Ok(true)),
        Ok(true) => {
            let (s2, stored) = meta::get_step(s1, key);
            (
                s2,
                match stored {
                    Err(e) => Err(e),
                    Ok(stored) => Ok(stored != Some("1"@)),
                },
            )
        },
    }
}

/// Whether a pass gated under `key` at version 1 still has to run.
pub fn gate_pending(conn: &mut Session, key: &str) -> (r: Result<bool, DbError>)
    ensures
        (final(conn)@, out(r)) == gate_pending_step(old(conn)@, key@),
{
    if !table_exists(conn, "_crap_meta")? {
        return Ok(true);
    }
    match meta::get(conn, key)? {
        Some(version) => Ok(!same(version.as_str(), "1")),
        None => Ok(true),
    }
}

/// Looks for an inline `UNIQUE` to drop.
pub open spec fn inline_unique_step(s: SessionView, slug: Seq<char>) -> Step<Option<bool>> {
    let (s1, pending) = gate_pending_step(s, unique_gate_key(slug));
    match pending {
        Err(e) => (s1, Err(e)),
        Ok(false) => (s1, Ok(None)),
        Ok(true) => {
            let (s2, constraints) = table_constraints_step(s1, slug, ConstraintKind::Unique);
            (
                s2,
                match constraints {
                    Err(e) => Err(e),
                    Ok(constraints) => Ok(Some(constraints.len() > 0)),
                },
            )
        },
    }
}

/// Whether a collection's table still has an inline `UNIQUE` to drop; nothing,
/// once the pass has run for it.
pub fn inline_unique_to_drop(conn: &mut Session, slug: &str) -> (r: Result<Option<bool>, DbError>)
    ensures
        (final(conn)@, out(r)) == inline_unique_step(old(conn)@, slug@),
{
    let key = cat2("inline_unique:", slug);
    if !gate_pending(conn, key.as_str())? {
        return Ok(None);
    }
    let constraints = table_constraints(conn, slug, ConstraintKind::Unique)?;
    Ok(Some(constraints.len() > 0))
}

/// Records that the pass has run for a collection.
pub fn mark_dropped(conn: &mut Session, slug: &str) -> (r: Result<(), DbError>)
    ensures
        (final(conn)@, out(r)) == meta::upsert_step(old(conn)@, unique_gate_key(slug@), "1"@),
{
    let key = cat2("inline_unique:", slug);
    meta::upsert(conn, key.as_str(), "1")
}

/// Whether a collection's pass is recorded as done in a table of keys and values.
pub open spec fn marked(store: Map<Seq<char>, Seq<char>>, key: Seq<char>) -> bool {
    store.dom().contains(key) && store[key] == "1"@
}

/// A pass still has to run exactly if it is not recorded as done.
pub proof fn pending_unless_marked(
    s: SessionView,
    key: Seq<char>,
    store: Map<Seq<char>, Seq<char>>,
)
    requires
        table_exists_step(s, "_crap_meta"@).1 == Ok::<bool, ErrorView>(true),
        meta::held_between(
            table_exists_step(s, "_crap_meta"@).0,
            gate_pending_step(s, key).0,
            store,
        ) is Some,
    ensures
        gate_pending_step(s, key).1 == Ok::<bool, ErrorView>(!marked(store, key)),
{
    let s1 = table_exists_step(s, "_crap_meta"@).0;
    meta::get_reads(s1, key, store);
}

/// Once the pass is recorded as done for a collection, it finds nothing for that
/// collection; before, it says whether there is something to drop.
pub proof fn nothing_to_drop_once_marked(
    s: SessionView,
    slug: Seq<char>,
    store: Map<Seq<char>, Seq<char>>,
)
    requires
        table_exists_step(s, "_crap_meta"@).1 == Ok::<bool, ErrorView>(true),
        meta::held_between(
            table_exists_step(s, "_crap_meta"@).0,
            gate_pending_step(s, unique_gate_key(slug)).0,
            store,
        ) is Some,
    ensures
        inline_unique_step(s, slug).1 == Ok::<Option<bool>, ErrorView>(None) <==> marked(
            store,
            unique_gate_key(slug),
        ),
{
    pending_unless_marked(s, unique_gate_key(slug), store);
}

/// Recording the pass as done for one collection records it for no other.
pub proof fn marking_is_per_collection(
    s: SessionView,
    slug: Seq<char>,
    other: Seq<char>,
    store: Map<Seq<char>, Seq<char>>,
)
    requires
        slug != other,
        meta::held_between(s, meta::upsert_step(s, unique_gate_key(slug), "1"@).0, store) is Some,
    ensures
        ({
            let after = meta::held_between(
                s,
                meta::upsert_step(s, unique_gate_key(slug), "1"@).0,
                store,
            )->Some_0;
            &&& marked(after, unique_gate_key(slug))
            &&& marked(after, unique_gate_key(other)) == marked(store, unique_gate_key(other))
        }),
{
    meta::upsert_stores(s, unique_gate_key(slug), "1"@, store);
    let prefix = "inline_unique:"@;
    assert(unique_gate_key(slug).skip(prefix.len() as int) =~= slug);
    assert(unique_gate_key(other).skip(prefix.len() as int) =~= other);
}

} // verus!
