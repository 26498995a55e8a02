//! What the operations are for, said of what they are given, what they send and what
//! comes back, in the words of the database and of the host alone.
pub mod alterations;
pub mod answers;
pub mod callers;
pub mod carried;
pub mod conversions;
pub mod definitions;
pub mod documents;
pub mod leftovers;
pub mod locales;
pub mod lookups;
pub mod migrations;
pub mod nested;
pub mod notes;
pub mod parts;
pub mod pools;
pub mod reads;
pub mod records;
pub mod references;
pub mod rows;
pub mod search;
pub mod snapshots;
pub mod sync;
pub mod system;
pub mod tables;
pub mod texts;
pub mod values;

use crate::names::placeholder_text;
use crate::session::{Dialect, ReplyView, RequestView, SessionView, ddl_text, extends};
use crate::text::{decimal, digit};
use crate::value::DbValueView;
use vstd::prelude::*;

verus! {

/// Whether the answer on record for the `k`-th request from here on is `reply`.
pub open spec fn answered(s: SessionView, k: int, reply: ReplyView) -> bool {
    s.sent.len() + k < s.replies.len() && s.replies[s.sent.len() + k] == reply
}

/// The session after some requests, and nothing else.
pub open spec fn after(s: SessionView, requests: Seq<RequestView>) -> SessionView {
    SessionView { sent: s.sent + requests, ..s }
}

/// Whether the `i`-th request sent, or one after it but before the `j`-th, is `request`.
pub open spec fn between(s: SessionView, i: int, j: int, request: RequestView) -> bool {
    exists|k: int| 0 <= i <= k < j && k < s.sent.len() && #[trigger] s.sent[k] == request
}

/// Whether a request was answered with a row whose first value is a text.
pub open spec fn read_as(s: SessionView, k: int, value: Seq<char>) -> bool {
    k < s.replies.len() && (s.replies[k] matches ReplyView::Row(Some(row)) && row.values.len() > 0
        && row.values[0] == DbValueView::Text(value))
}

/// Whether a value is known to be on record under a key from requests sent there: it was
/// read under it, or stored under it in place of what was there.
pub open spec fn on_record(
    s: SessionView,
    i: int,
    j: int,
    key: Seq<char>,
    value: Seq<char>,
) -> bool {
    ||| exists|k: int|
        0 <= i <= k < j && k < s.sent.len() && #[trigger] s.sent[k] == record_read(s.dialect, key)
            && read_as(s, k, value)
    ||| exists|k: int|
        0 <= i <= k && k + 1 < j && k + 1 < s.sent.len() && #[trigger] s.sent[k] == record_removed(
            s.dialect,
            key,
        ) && s.sent[k + 1] == record_written(s.dialect, key, value)
}

/// What stands for the first parameter of a statement.
pub open spec fn first_mark(dialect: Dialect) -> Seq<char> {
    match dialect {
        Dialect::Sqlite => "?1"@,
        Dialect::Postgres => "$1"@,
    }
}

/// What stands for the second parameter of a statement.
pub open spec fn second_mark(dialect: Dialect) -> Seq<char> {
    match dialect {
        Dialect::Sqlite => "?2"@,
        Dialect::Postgres => "$2"@,
    }
}

/// The request reading what is recorded under a key.
pub open spec fn record_read(dialect: Dialect, key: Seq<char>) -> RequestView {
    RequestView::QueryOne {
        sql: "SELECT value FROM _crap_meta WHERE key = "@ + first_mark(dialect),
        params: seq![DbValueView::Text(key)],
    }
}

/// The request removing what is recorded under a key.
pub open spec fn record_removed(dialect: Dialect, key: Seq<char>) -> RequestView {
    RequestView::Execute {
        sql: "DELETE FROM _crap_meta WHERE key = "@ + first_mark(dialect),
        params: seq![DbValueView::Text(key)],
    }
}

/// The request recording a value under a key.
pub open spec fn record_written(dialect: Dialect, key: Seq<char>, value: Seq<char>) -> RequestView {
    RequestView::Execute {
        sql: "INSERT INTO _crap_meta (key, value) VALUES ("@ + first_mark(dialect) + ", "@
            + second_mark(dialect) + ")"@,
        params: seq![DbValueView::Text(key), DbValueView::Text(value)],
    }
}

/// The request running a statement without parameters.
pub open spec fn running(sql: Seq<char>) -> RequestView {
    RequestView::Execute { sql, params: Seq::empty() }
}

/// Parameters are counted from one, after `?` on SQLite and after `$` on Postgres.
pub proof fn parameters_are_counted_from_one(dialect: Dialect)
    ensures
        placeholder_text(dialect, 1) == first_mark(dialect),
        placeholder_text(dialect, 2) == second_mark(dialect),
{
    reveal_strlit("?");
    reveal_strlit("$");
    reveal_strlit("?1");
    reveal_strlit("$1");
    reveal_strlit("?2");
    reveal_strlit("$2");
    reveal_with_fuel(decimal, 2);
    assert(digit(1) == '1' && digit(2) == '2');
    assert(placeholder_text(dialect, 1) =~= first_mark(dialect));
    assert(placeholder_text(dialect, 2) =~= second_mark(dialect));
}

pub(crate) proof fn between_wider(
    b: SessionView,
    d: SessionView,
    i: int,
    j: int,
    k: int,
    l: int,
    request: RequestView,
)
    requires
        extends(b, d),
        between(b, i, j, request),
        0 <= k <= i,
        j <= l,
    ensures
        between(d, k, l, request),
{
    let at = choose|at: int|
        0 <= i <= at < j && at < b.sent.len() && #[trigger] b.sent[at] == request;
    assert(d.sent[at] == request);
}

pub(crate) proof fn on_record_wider(
    b: SessionView,
    d: SessionView,
    i: int,
    j: int,
    k: int,
    l: int,
    key: Seq<char>,
    value: Seq<char>,
)
    requires
        extends(b, d),
        on_record(b, i, j, key, value),
        0 <= k <= i,
        j <= l,
    ensures
        on_record(d, k, l, key, value),
{
    if exists|at: int|
        0 <= i <= at < j && at < b.sent.len() && #[trigger] b.sent[at] == record_read(
            b.dialect,
            key,
        ) && read_as(b, at, value) {
        let at = choose|at: int|
            0 <= i <= at < j && at < b.sent.len() && #[trigger] b.sent[at] == record_read(
                b.dialect,
                key,
            ) && read_as(b, at, value);
        assert(d.sent[at] == record_read(d.dialect, key));
    } else {
        let at = choose|at: int|
            0 <= i <= at && at + 1 < j && at + 1 < b.sent.len() && #[trigger] b.sent[at]
                == record_removed(b.dialect, key) && b.sent[at + 1] == record_written(
                b.dialect,
                key,
                value,
            );
        assert(d.sent[at] == record_removed(d.dialect, key));
        assert(d.sent[at + 1] == record_written(d.dialect, key, value));
    }
}

/// The request running several schema statements.
pub open spec fn running_all(dialect: Dialect, sql: Seq<char>) -> RequestView {
    RequestView::ExecuteBatch { sql: ddl_text(dialect, sql) }
}

pub(crate) proof fn between_asked(
    s: SessionView,
    d: SessionView,
    k: int,
    l: int,
    request: RequestView,
)
    requires
        extends(s.asked(request), d),
        0 <= k <= s.sent.len() < l,
    ensures
        between(d, k, l, request),
        d.sent[s.sent.len() as int] == request,
{
    assert(s.asked(request).sent[s.sent.len() as int] == request);
    assert(d.sent[s.sent.len() as int] == request);
}

} // verus!
