//! What the ids in a junction table point at.
//!
//! A junction row holds a bare id; which collection it belongs to is for the
//! field's definition to say. Pointing a relationship at another collection
//! changes what every stored row means without touching one of them. So the
//! target each table was written against is recorded, and the next sync can tell
//! when it moved.
use crate::definition::RelationshipConfig;
use crate::migrate::meta;
use crate::names::{quote_ident, quoted};
use crate::order::{sort_texts, sorted, sorted_is_sorted, sorted_lists_are_one};
use crate::session::{Dialect, RequestView, Session, SessionView, Step, query_one_step, reads};
use crate::text::{cat2, cat9, decimal, decimal_text, join, join_with, same};
use crate::value::{DbError, no_params, out};
use vstd::prelude::*;

verus! {

/// The key a junction table's target is recorded under.
pub open spec fn target_key(table: Seq<char>) -> Seq<char> {
    "relationship_target:"@ + table
}

/// The collection a relationship writes its ids against, or all of them by name,
/// so that listing them in another order is no change.
pub open spec fn target(rc: RelationshipConfig) -> Seq<char> {
    if rc.polymorphic_spec() {
        join(sorted(rc.polymorphic.deep_view()), ","@)
    } else {
        rc.collection@
    }
}

/// The collections a relationship points at, in a form that does not depend on their
/// order.
pub fn target_of(rc: &RelationshipConfig) -> (r: String)
    ensures
        r@ == target(*rc),
{
    if rc.is_polymorphic() {
        let targets = sort_texts(&rc.polymorphic);
        join_with(&targets, ",")
    } else {
        rc.collection.clone()
    }
}

/// Counts the rows of a table.
pub open spec fn row_count_step(s: SessionView, table: Seq<char>) -> Step<i64> {
    let (s1, row) = query_one_step(
        s,
        "SELECT COUNT(*) AS cnt FROM "@ + quoted(table),
        Seq::empty(),
    );
    (
        s1,
        match row {
            Err(e) => Err(e),
            Ok(None) => Ok(0),
            Ok(Some(row)) => match row.integer("cnt"@) {
                Some(n) => Ok(n),
                None => Ok(0),
            },
        },
    )
}

/// How many rows a table holds.
pub fn row_count(conn: &mut Session, table: &str) -> (r: Result<i64, DbError>)
    ensures
        (final(conn)@, out(r)) == row_count_step(old(conn)@, table@),
{
    let table = quote_ident(table);
    let row = conn.query_one(
        cat2("SELECT COUNT(*) AS cnt FROM ", table.as_str()),
        no_params(),
    )?;
    let count: i64 = match row {
        None => 0,
        Some(row) => match row.integer("cnt") {
            Some(n) => n,
            None => 0,
        },
    };
    Ok(count)
}

/// What the operator is told of rows written against another target.
pub open spec fn repointed_warning(
    table: Seq<char>,
    previous: Seq<char>,
    now: Seq<char>,
    rows: nat,
) -> Seq<char> {
    "Relationship table '"@ + table + "' now points at '"@ + now + "' but its "@ + decimal(rows)
        + " row(s) were written against '"@ + previous + "' — those ids resolve against nothing in '"@
        + now
        + "'. Re-point the relationship back, or clear the table's rows."@
}

/// Warns when a table whose target moved still holds rows.
pub open spec fn warn_repointed_step(
    s: SessionView,
    table: Seq<char>,
    previous: Seq<char>,
    now: Seq<char>,
) -> Step<()> {
    let (s1, rows) = row_count_step(s, table);
    match rows {
        Err(e) => (s1, Err(e)),
        Ok(rows) => if rows <= 0 {
            (s1, Ok(()))
        } else {
            (s1.warned(repointed_warning(table, previous, now, rows as nat)), Ok(()))
        },
    }
}

fn warn_repointed(conn: &mut Session, table: &str, previous: &str, now: &str) -> (r: Result<
    (),
    DbError,
>)
    ensures
        (final(conn)@, out(r)) == warn_repointed_step(old(conn)@, table@, previous@, now@),
{
    let rows: i64 = row_count(conn, table)?;
    if rows <= 0 {
        return Ok(());
    }
    let count = decimal_text(rows as u64);
    let head = cat9(
        "Relationship table '",
        table,
        "' now points at '",
        now,
        "' but its ",
        count.as_str(),
        " row(s) were written against '",
        previous,
        "' — those ids resolve against nothing in '",
    );
    let message = head.concat(now).concat(
        "'. Re-point the relationship back, or clear the table's rows.",
    );
    conn.warn(message);
    Ok(())
}

/// Records the target of a junction table, with a warning first when it moved
/// under stored rows.
pub open spec fn track_target_step(s: SessionView, table: Seq<char>, rc: RelationshipConfig) -> Step<
    (),
> {
    let now = target(rc);
    let (s1, stored) = meta::get_step(s, target_key(table));
    match stored {
        Err(e) => (s1, Err(e)),
        Ok(None) => meta::upsert_step(s1, target_key(table), now),
        Ok(Some(previous)) => if previous == now {
            (s1, Ok(()))
        } else {
            let (s2, warned) = warn_repointed_step(s1, table, previous, now);
            match warned {
                Err(e) => (s2, Err(e)),
                Ok(_) => meta::upsert_step(s2, target_key(table), now),
            }
        },
    }
}

/// Records the target of a junction table, with a warning first when it moved
/// under stored rows.
pub fn track_target(conn: &mut Session, table: &str, rc: &RelationshipConfig) -> (r: Result<
    (),
    DbError,
>)
    ensures
        (final(conn)@, out(r)) == track_target_step(old(conn)@, table@, *rc),
{
    let now = target_of(rc);
    let key = cat2("relationship_target:", table);
    match meta::get(conn, key.as_str())? {
        None => {},
        Some(previous) => {
            if same(previous.as_str(), now.as_str()) {
                return Ok(());
            }
            warn_repointed(conn, table, previous.as_str(), now.as_str())?;
        },
    }
    meta::upsert(conn, key.as_str(), now.as_str())
}

/// Whether a request leaves a junction's rows alone: it reads, or is about the
/// library's own record.
pub open spec fn spares_rows(dialect: Dialect, request: RequestView) -> bool {
    reads(request) || (request matches RequestView::Execute { sql, .. } && (sql
        == meta::delete_sql(dialect) || sql == meta::insert_sql(dialect)))
}

/// Pointing a relationship elsewhere never touches the rows written before: nothing
/// is sent but reads and the record.
pub proof fn a_moved_target_spares_the_rows(
    s: SessionView,
    table: Seq<char>,
    rc: RelationshipConfig,
    i: int,
)
    requires
        s.sent.len() <= i < track_target_step(s, table, rc).0.sent.len(),
    ensures
        spares_rows(s.dialect, track_target_step(s, table, rc).0.sent[i]),
{
}

/// Listing the targets of a relationship in another order is no change: the target
/// depends on which they are alone.
pub proof fn the_order_of_targets_does_not_matter(a: Seq<Seq<char>>, b: Seq<Seq<char>>)
    requires
        a.to_multiset() == b.to_multiset(),
    ensures
        sorted(a) == sorted(b),
{
    sorted_is_sorted(a);
    sorted_is_sorted(b);
    sorted_lists_are_one(sorted(a), sorted(b));
}

/// The target on record follows the definition: over a table of keys and values,
/// what is recorded after tracking is the target now.
pub proof fn the_target_is_recorded(
    s: SessionView,
    table: Seq<char>,
    rc: RelationshipConfig,
    store: Map<Seq<char>, Seq<char>>,
)
    requires
        !store.dom().contains(target_key(table)),
        meta::held_between(s, track_target_step(s, table, rc).0, store) is Some,
    ensures
        track_target_step(s, table, rc).1 is Ok,
        meta::held_between(s, track_target_step(s, table, rc).0, store) == Some(
            store.insert(target_key(table), target(rc)),
        ),
{
    meta::get_then_upsert(s, target_key(table), target(rc), store);
}

} // verus!
