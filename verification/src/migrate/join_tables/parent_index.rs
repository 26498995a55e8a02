//! The index every table of array or blocks rows is read through.
//!
//! Rows are looked up by the document they belong to, and neither kind of
//! database indexes a foreign key by itself. A table that keeps rows per locale
//! is read per locale too, so its index adds the locale. A junction table needs
//! none: its primary key leads with the document.
use crate::digest::{digest_text, short_digest};
use crate::migrate::helpers::introspection::{index_names, index_names_step};
use crate::names::{quote_ident, quoted};
use crate::session::{Session, SessionView, Step, ddl_step, within};
use crate::text::{cat2, cat4, same};
use crate::value::{DbError, add_context, out};
use vstd::prelude::*;
use vstd::utf8::{encode_utf8, is_ascii_chars, is_ascii_chars_encode_utf8};

verus! {

/// The longest identifier Postgres keeps, in bytes. It cuts a longer one, so
/// that two long names could end up the same.
pub const MAX_NAME_BYTES: usize = 63;

/// The hexadecimal digits that end a shortened index name.
pub const DIGEST_HEX: usize = 16;

/// How many bytes a text takes.
pub open spec fn byte_len(s: Seq<char>) -> nat {
    encode_utf8(s).len()
}

/// How many bytes a text takes.
pub fn bytes_in(s: &str) -> (r: usize)
    ensures
        r == byte_len(s@),
{
    s.as_bytes().len()
}

/// What the index name of a row table begins with. The two differ right behind
/// the double underscore, which no other index has there.
pub open spec fn index_prefix(localized: bool) -> Seq<char> {
    if localized {
        "idx__lrows_"@
    } else {
        "idx__rows_"@
    }
}

fn index_prefix_text(localized: bool) -> (r: &'static str)
    ensures
        r@ == index_prefix(localized),
{
    if localized {
        "idx__lrows_"
    } else {
        "idx__rows_"
    }
}

/// How many characters of `s`, `n` or more, fit into `max` bytes.
pub open spec fn fitting(s: Seq<char>, max: int, n: int) -> int
    decreases s.len() - n,
{
    if 0 <= n < s.len() && byte_len(s.take(n + 1)) <= max {
        fitting(s, max, n + 1)
    } else {
        n
    }
}

/// The longest beginning of `s` that takes at most `max` bytes.
pub open spec fn head(s: Seq<char>, max: int) -> Seq<char> {
    s.take(fitting(s, max, 0))
}

fn char_prefix(s: &str, max: usize) -> (r: &str)
    ensures
        r@ == head(s@, max as int),
{
    let total: usize = s.unicode_len();
    let mut n: usize = 0;
    while n < total && bytes_in(s.substring_char(0, n + 1)) <= max
        invariant
            n <= total,
            total == s@.len(),
            fitting(s@, max as int, 0) == fitting(s@, max as int, n as int),
        decreases total - n,
    {
        assert(s@.subrange(0, n + 1) =~= s@.take(n + 1));
        n += 1;
    }
    assert(n < total ==> s@.subrange(0, n + 1) =~= s@.take(n + 1));
    assert(s@.subrange(0, n as int) =~= s@.take(n as int));
    s.substring_char(0, n)
}

/// The name of a row table's index: the prefix and the table's name where that
/// fits, or as much of it as does before an underscore and the digest.
pub open spec fn index_name(table: Seq<char>, localized: bool, digest: Seq<char>) -> Seq<char> {
    let full = index_prefix(localized) + table;
    if byte_len(full) <= MAX_NAME_BYTES {
        full
    } else {
        index_prefix(localized) + head(
            table,
            MAX_NAME_BYTES - byte_len(index_prefix(localized)) - 1 - DIGEST_HEX,
        ) + "_"@ + digest
    }
}

proof fn bytes_add_up(a: Seq<char>, b: Seq<char>)
    ensures
        byte_len(a + b) == byte_len(a) + byte_len(b),
    decreases a.len(),
{
    if a.len() == 0 {
        assert(a + b =~= b);
    } else {
        bytes_add_up(a.drop_first(), b);
        assert((a + b).drop_first() =~= a.drop_first() + b);
        assert((a + b)[0] == a[0]);
    }
}

proof fn head_fits(s: Seq<char>, max: int, n: int)
    requires
        0 <= n <= s.len(),
        byte_len(s.take(n)) <= max,
    ensures
        n <= fitting(s, max, n) <= s.len(),
        byte_len(s.take(fitting(s, max, n))) <= max,
    decreases s.len() - n,
{
    if n < s.len() && byte_len(s.take(n + 1)) <= max {
        head_fits(s, max, n + 1);
    }
}

/// An index name, given a digest of sixteen bytes, is one Postgres keeps whole,
/// and begins with the prefix of its kind; where the plain name fits, it is that.
pub proof fn index_names_fit(table: Seq<char>, localized: bool, digest: Seq<char>)
    requires
        byte_len(digest) == DIGEST_HEX,
    ensures
        byte_len(index_name(table, localized, digest)) <= MAX_NAME_BYTES,
        index_prefix(localized).is_prefix_of(index_name(table, localized, digest)),
        byte_len(index_prefix(localized) + table) <= MAX_NAME_BYTES ==> index_name(
            table,
            localized,
            digest,
        ) == index_prefix(localized) + table,
{
    let prefix = index_prefix(localized);
    let full = prefix + table;
    prefix_bytes(localized);
    if byte_len(full) <= MAX_NAME_BYTES {
        assert(prefix =~= full.take(prefix.len() as int));
    } else {
        let room = MAX_NAME_BYTES - byte_len(prefix) - 1 - DIGEST_HEX;
        assert(table.take(0) =~= Seq::<char>::empty());
        head_fits(table, room, 0);
        let cut = head(table, room);
        reveal_strlit("_");
        assert(is_ascii_chars("_"@));
        is_ascii_chars_encode_utf8("_"@);
        bytes_add_up(prefix, cut);
        bytes_add_up(prefix + cut, "_"@);
        bytes_add_up(prefix + cut + "_"@, digest);
        let name = index_name(table, localized, digest);
        assert(prefix =~= name.take(prefix.len() as int));
    }
}

/// No plain table's index name is a localized table's, whatever the tables are
/// called.
pub proof fn index_names_are_disjoint(
    plain: Seq<char>,
    plain_digest: Seq<char>,
    localized: Seq<char>,
    localized_digest: Seq<char>,
)
    ensures
        index_name(plain, false, plain_digest) != index_name(localized, true, localized_digest),
{
    reveal_strlit("idx__lrows_");
    reveal_strlit("idx__rows_");
    assert(index_name(plain, false, plain_digest)[5] == 'r');
    assert(index_name(localized, true, localized_digest)[5] == 'l');
}

proof fn prefix_bytes(localized: bool)
    ensures
        byte_len(index_prefix(localized)) == (if localized {
            11nat
        } else {
            10nat
        }),
{
    reveal_strlit("idx__lrows_");
    reveal_strlit("idx__rows_");
    let p = index_prefix(localized);
    assert(is_ascii_chars(p)) by {
        assert forall|i: int| 0 <= i < p.len() implies (0 <= #[trigger] p[i] && p[i] < 128) by {}
    }
    is_ascii_chars_encode_utf8(p);
}

/// The name of a row table's index, given the digest of the table's name.
pub fn row_parent_index_name_with(table: &str, localized: bool, digest: &str) -> (r: String)
    ensures
        r@ == index_name(table@, localized, digest@),
{
    let prefix = index_prefix_text(localized);
    let full = cat2(prefix, table);
    if bytes_in(full.as_str()) <= MAX_NAME_BYTES {
        return full;
    }
    proof {
        prefix_bytes(localized);
    }
    let room: usize = MAX_NAME_BYTES - bytes_in(prefix) - 1 - DIGEST_HEX;
    cat4(prefix, char_prefix(table, room), "_", digest)
}

/// The name of a row table's index. Every table, however long its name, has one
/// that both kinds of database store unchanged.
pub fn row_parent_index_name(table: &str, localized: bool) -> (r: String)
    ensures
        r@ == index_name(table@, localized, short_digest(table@)),
        byte_len(r@) <= MAX_NAME_BYTES,
        index_prefix(localized).is_prefix_of(r@),
{
    let digest = digest_text(table);
    proof {
        index_names_fit(table@, localized, digest@);
    }
    row_parent_index_name_with(table, localized, digest.as_str())
}

/// Drops the indexes from the `i`-th on, but for `keep`.
pub open spec fn drop_indexes_from(
    s: SessionView,
    names: Seq<Seq<char>>,
    keep: Seq<char>,
    i: int,
) -> Step<()>
    decreases names.len() - i,
{
    if i < 0 || i >= names.len() {
        (s, Ok(()))
    } else if names[i] == keep {
        drop_indexes_from(s, names, keep, i + 1)
    } else {
        let (s1, r) = within(
            ddl_step(s, "DROP INDEX IF EXISTS "@ + quoted(names[i])),
            "Failed to drop index "@ + names[i],
        );
        match r {
            Err(e) => (s1, Err(e)),
            Ok(_) => drop_indexes_from(s1, names, keep, i + 1),
        }
    }
}

/// Drops the indexes of a table that begin with a prefix, but for `keep`.
pub open spec fn drop_prefixed_step(
    s: SessionView,
    table: Seq<char>,
    prefix: Seq<char>,
    keep: Seq<char>,
) -> Step<()> {
    let (s1, names) = within(
        index_names_step(s, table, prefix),
        "Failed to list the indexes of "@ + table,
    );
    match names {
        Err(e) => (s1, Err(e)),
        Ok(names) => drop_indexes_from(s1, names, keep, 0),
    }
}

/// Drops every row index of a table but `keep`.
pub open spec fn drop_other_step(s: SessionView, table: Seq<char>, keep: Seq<char>) -> Step<()> {
    let (s1, r) = drop_prefixed_step(s, table, index_prefix(false), keep);
    match r {
        Err(e) => (s1, Err(e)),
        Ok(_) => drop_prefixed_step(s1, table, index_prefix(true), keep),
    }
}

fn drop_prefixed(conn: &mut Session, table: &str, prefix: &str, keep: &str) -> (r: Result<
    (),
    DbError,
>)
    ensures
        (final(conn)@, out(r)) == drop_prefixed_step(old(conn)@, table@, prefix@, keep@),
{
    let listed = index_names(conn, table, prefix);
    let names = add_context(listed, cat2("Failed to list the indexes of ", table).as_str())?;
    let ghost start = conn@;
    let ghost all = names.deep_view();
    let mut i: usize = 0;
    while i < names.len()
        invariant
            i <= names.len(),
            all == names.deep_view(),
            drop_indexes_from(start, all, keep@, 0) == drop_prefixed_step(
                old(conn)@,
                table@,
                prefix@,
                keep@,
            ),
            drop_indexes_from(start, all, keep@, 0) == drop_indexes_from(
                conn@,
                all,
                keep@,
                i as int,
            ),
        decreases names.len() - i,
    {
        assert(all[i as int] == names@[i as int]@);
        if !same(names[i].as_str(), keep) {
            let stale = quote_ident(names[i].as_str());
            let dropped = conn.execute_ddl(cat2("DROP INDEX IF EXISTS ", stale.as_str()));
            add_context(dropped, cat2("Failed to drop index ", names[i].as_str()).as_str())?;
        }
        i += 1;
    }
    Ok(())
}

fn drop_other_parent_indexes(conn: &mut Session, table: &str, keep: &str) -> (r: Result<
    (),
    DbError,
>)
    ensures
        (final(conn)@, out(r)) == drop_other_step(old(conn)@, table@, keep@),
{
    drop_prefixed(conn, table, index_prefix_text(false), keep)?;
    drop_prefixed(conn, table, index_prefix_text(true), keep)
}

/// The statement creating a row table's index.
pub open spec fn create_index_sql(table: Seq<char>, localized: bool, name: Seq<char>) -> Seq<char> {
    "CREATE INDEX IF NOT EXISTS "@ + quoted(name) + " ON "@ + quoted(table) + (if localized {
        " (parent_id, _locale)"@
    } else {
        " (parent_id)"@
    })
}

/// Gives a row table its index, under the name given, and drops the others it
/// has.
pub open spec fn sync_index_step(
    s: SessionView,
    table: Seq<char>,
    localized: bool,
    name: Seq<char>,
) -> Step<()> {
    let (s1, r) = drop_other_step(s, table, name);
    match r {
        Err(e) => (s1, Err(e)),
        Ok(_) => within(
            ddl_step(s1, create_index_sql(table, localized, name)),
            "Failed to create index "@ + name,
        ),
    }
}

/// Gives a row table its index and drops any other it has, so that a table that
/// gains or loses its locale column changes index. May be run again and again.
pub fn sync_row_parent_index(conn: &mut Session, table: &str, localized: bool) -> (r: Result<
    (),
    DbError,
>)
    ensures
        (final(conn)@, out(r)) == sync_index_step(
            old(conn)@,
            table@,
            localized,
            index_name(table@, localized, short_digest(table@)),
        ),
{
    let name = row_parent_index_name(table, localized);
    drop_other_parent_indexes(conn, table, name.as_str())?;
    let columns = if localized {
        " (parent_id, _locale)"
    } else {
        " (parent_id)"
    };
    let quoted_name = quote_ident(name.as_str());
    let quoted_table = quote_ident(table);
    let head = cat4(
        "CREATE INDEX IF NOT EXISTS ",
        quoted_name.as_str(),
        " ON ",
        quoted_table.as_str(),
    );
    let created = conn.execute_ddl(cat2(head.as_str(), columns));
    add_context(created, cat2("Failed to create index ", name.as_str()).as_str())
}

} // verus!
