//! The key and value table the passes keep their own state in.
//!
//! A pass that runs once reads the version it last ran under before it starts
//! and writes the current one when it is done. The write deletes and inserts, so
//! that a stale value is replaced on either kind of database.
use crate::names::{placeholder, placeholder_text};
use crate::session::{
    Dialect, ReplyView, RequestView, Session, SessionView, Step, execute_step, extends,
    query_one_step,
};
use crate::text::{cat2, cat5};
use crate::value::{DbError, DbRowView, DbValueView, ErrorView, one_param, out, two_params};
use vstd::prelude::*;

verus! {

/// The statement reading a value.
pub open spec fn get_sql(dialect: Dialect) -> Seq<char> {
    "SELECT value FROM _crap_meta WHERE key = "@ + placeholder_text(dialect, 1)
}

/// The statement removing a value.
pub open spec fn delete_sql(dialect: Dialect) -> Seq<char> {
    "DELETE FROM _crap_meta WHERE key = "@ + placeholder_text(dialect, 1)
}

/// The statement storing a value.
pub open spec fn insert_sql(dialect: Dialect) -> Seq<char> {
    "INSERT INTO _crap_meta (key, value) VALUES ("@ + placeholder_text(dialect, 1) + ", "@
        + placeholder_text(dialect, 2) + ")"@
}

/// Reads the value under a key.
pub open spec fn get_step(s: SessionView, key: Seq<char>) -> Step<Option<Seq<char>>> {
    let (s1, row) = query_one_step(s, get_sql(s.dialect), seq![DbValueView::Text(key)]);
    (
        s1,
        match row {
            Err(e) => Err(e),
            Ok(Some(row)) => Ok(row.text_at(0)),
            Ok(None) => Ok(None),
        },
    )
}

/// The value under a key, if there is one.
pub fn get(conn: &mut Session, key: &str) -> (r: Result<Option<String>, DbError>)
    ensures
        (final(conn)@, out(r)) == get_step(old(conn)@, key@),
{
    let p1 = placeholder(conn.dialect(), 1);
    let row = conn.query_one(
        cat2("SELECT value FROM _crap_meta WHERE key = ", p1.as_str()),
        one_param(key),
    )?;
    match row {
        Some(row) => Ok(row.text_at(0)),
        None => Ok(None),
    }
}

/// Removes the value under a key.
pub open spec fn delete_step(s: SessionView, key: Seq<char>) -> Step<()> {
    let (s1, r) = execute_step(s, delete_sql(s.dialect), seq![DbValueView::Text(key)]);
    (
        s1,
        match r {
            Ok(_) => Ok(()),
            Err(e) => Err(e),
        },
    )
}

/// Removes the value under a key. An absent key is no error.
pub fn delete(conn: &mut Session, key: &str) -> (r: Result<(), DbError>)
    ensures
        (final(conn)@, out(r)) == delete_step(old(conn)@, key@),
{
    let p1 = placeholder(conn.dialect(), 1);
    conn.execute(cat2("DELETE FROM _crap_meta WHERE key = ", p1.as_str()), one_param(key))?;
    Ok(())
}

/// Stores a value under a key, in place of any stored there before.
pub open spec fn upsert_step(s: SessionView, key: Seq<char>, value: Seq<char>) -> Step<()> {
    let (s1, deleted) = delete_step(s, key);
    match deleted {
        Err(e) => (s1, Err(e)),
        Ok(_) => {
            let (s2, stored) = execute_step(
                s1,
                insert_sql(s.dialect),
                seq![DbValueView::Text(key), DbValueView::Text(value)],
            );
            (
                s2,
                match stored {
                    Ok(_) => Ok(()),
                    Err(e) => Err(e),
                },
            )
        },
    }
}

/// Stores a value under a key, in place of any stored there before.
pub fn upsert(conn: &mut Session, key: &str, value: &str) -> (r: Result<(), DbError>)
    ensures
        (final(conn)@, out(r)) == upsert_step(old(conn)@, key@, value@),
{
    delete(conn, key)?;
    let p1 = placeholder(conn.dialect(), 1);
    let p2 = placeholder(conn.dialect(), 2);
    conn.execute(
        cat5(
            "INSERT INTO _crap_meta (key, value) VALUES (",
            p1.as_str(),
            ", ",
            p2.as_str(),
            ")",
        ),
        two_params(key, value),
    )?;
    Ok(())
}

/// What a table of keys and values that holds `store` answers to a request about
/// one key, and what it holds then; nothing, where the request is none of the
/// three this module sends.
pub open spec fn table_answer(
    dialect: Dialect,
    store: Map<Seq<char>, Seq<char>>,
    request: RequestView,
) -> Option<(Map<Seq<char>, Seq<char>>, ReplyView)> {
    match request {
        RequestView::QueryOne { sql, params } => if sql == get_sql(dialect) && params.len() == 1
            && params[0] is Text {
            let key = params[0]->Text_0;
            let row = if store.dom().contains(key) {
                Some(
                    DbRowView {
                        columns: seq!["value"@],
                        values: seq![DbValueView::Text(store[key])],
                    },
                )
            } else {
                None
            };
            Some((store, ReplyView::Row(row)))
        } else {
            None
        },
        RequestView::Execute { sql, params } => if sql == delete_sql(dialect) && params.len() == 1
            && params[0] is Text {
            let key = params[0]->Text_0;
            let count: u64 = if store.dom().contains(key) {
                1
            } else {
                0
            };
            Some((store.remove(key), ReplyView::Count(count)))
        } else if sql == insert_sql(dialect) && params.len() == 2 && params[0] is Text
            && params[1] is Text && !store.dom().contains(params[0]->Text_0) {
            Some((store.insert(params[0]->Text_0, params[1]->Text_0), ReplyView::Count(1)))
        } else {
            None
        },
        _ => None,
    }
}

/// What a table of keys and values that held `store` holds after the requests from
/// the `i`-th on; nothing, where one was not answered the way such a table does.
pub open spec fn held_after(
    dialect: Dialect,
    store: Map<Seq<char>, Seq<char>>,
    sent: Seq<RequestView>,
    replies: Seq<ReplyView>,
    i: int,
) -> Option<Map<Seq<char>, Seq<char>>>
    decreases sent.len() - i,
{
    if i < 0 || i >= sent.len() {
        Some(store)
    } else {
        match table_answer(dialect, store, sent[i]) {
            None => None,
            Some((next, reply)) => if i < replies.len() && replies[i] == reply {
                held_after(dialect, next, sent, replies, i + 1)
            } else {
                None
            },
        }
    }
}

/// What the table holds once a session has become `after`, if it answered every
/// request sent since `before`.
pub open spec fn held_between(
    before: SessionView,
    after: SessionView,
    store: Map<Seq<char>, Seq<char>>,
) -> Option<Map<Seq<char>, Seq<char>>> {
    held_after(before.dialect, store, after.sent, before.replies, before.sent.len() as int)
}

proof fn delete_is_not_insert(dialect: Dialect)
    ensures
        delete_sql(dialect) != insert_sql(dialect),
{
    reveal_strlit("DELETE FROM _crap_meta WHERE key = ");
    reveal_strlit("INSERT INTO _crap_meta (key, value) VALUES (");
    assert(delete_sql(dialect)[0] == 'D');
    assert(insert_sql(dialect)[0] == 'I');
}

/// A stored value replaces what was under its key and nothing else: over a table
/// that answers as a table of keys and values does, the write succeeds, and what
/// the table holds then is what it held with the value under the key.
pub proof fn upsert_stores(
    s: SessionView,
    key: Seq<char>,
    value: Seq<char>,
    store: Map<Seq<char>, Seq<char>>,
)
    requires
        held_between(s, upsert_step(s, key, value).0, store) is Some,
    ensures
        upsert_step(s, key, value).1 is Ok,
        held_between(s, upsert_step(s, key, value).0, store) == Some(store.insert(key, value)),
{
    delete_is_not_insert(s.dialect);
    let n = s.sent.len() as int;
    let (s1, deleted) = delete_step(s, key);
    let (s2, stored) = upsert_step(s, key, value);
    let gone = store.remove(key);
    reveal_with_fuel(held_after, 4);
    assert(s2.sent[n] == s1.sent[n]);
    assert(s2.sent[n] == (RequestView::Execute {
        sql: delete_sql(s.dialect),
        params: seq![DbValueView::Text(key)],
    }));
    assert(table_answer(s.dialect, store, s2.sent[n]) is Some);
    assert(deleted is Ok);
    assert(gone.insert(key, value) =~= store.insert(key, value));
    assert(s2.sent.len() == n + 2);
}

/// A removed key has no value, and no other key is touched.
pub proof fn delete_removes(s: SessionView, key: Seq<char>, store: Map<Seq<char>, Seq<char>>)
    requires
        held_between(s, delete_step(s, key).0, store) is Some,
    ensures
        delete_step(s, key).1 is Ok,
        held_between(s, delete_step(s, key).0, store) == Some(store.remove(key)),
{
    delete_is_not_insert(s.dialect);
    reveal_with_fuel(held_after, 3);
    let n = s.sent.len() as int;
    let s1 = delete_step(s, key).0;
    assert(s1.sent[n] == (RequestView::Execute {
        sql: delete_sql(s.dialect),
        params: seq![DbValueView::Text(key)],
    }));
}

/// A read gives the value the table holds under the key, if any, and changes
/// nothing. With [`upsert_stores`]: what was stored last under a key is what is
/// read.
pub proof fn get_reads(s: SessionView, key: Seq<char>, store: Map<Seq<char>, Seq<char>>)
    requires
        held_between(s, get_step(s, key).0, store) is Some,
    ensures
        get_step(s, key).1 == Ok::<Option<Seq<char>>, ErrorView>(
            if store.dom().contains(key) {
                Some(store[key])
            } else {
                None
            },
        ),
        held_between(s, get_step(s, key).0, store) == Some(store),
{
    reveal_with_fuel(held_after, 3);
    let n = s.sent.len() as int;
    let s1 = get_step(s, key).0;
    assert(s1.sent[n] == (RequestView::QueryOne {
        sql: get_sql(s.dialect),
        params: seq![DbValueView::Text(key)],
    }));
}

proof fn held_in_parts(
    dialect: Dialect,
    store: Map<Seq<char>, Seq<char>>,
    first: Seq<RequestView>,
    sent: Seq<RequestView>,
    replies: Seq<ReplyView>,
    i: int,
)
    requires
        0 <= i <= first.len(),
        first.is_prefix_of(sent),
        held_after(dialect, store, sent, replies, i) is Some,
    ensures
        held_after(dialect, store, first, replies, i) is Some,
        held_after(dialect, store, sent, replies, i) == held_after(
            dialect,
            held_after(dialect, store, first, replies, i)->Some_0,
            sent,
            replies,
            first.len() as int,
        ),
    decreases first.len() - i,
{
    if i < first.len() {
        assert(first[i] == sent[i]);
        let next = table_answer(dialect, store, sent[i])->Some_0.0;
        held_in_parts(dialect, next, first, sent, replies, i + 1);
    }
}

/// What holds over two runs of requests holds over the first, and over the second
/// from what the first left.
pub proof fn held_in_two_parts(
    a: SessionView,
    b: SessionView,
    c: SessionView,
    store: Map<Seq<char>, Seq<char>>,
)
    requires
        extends(a, b),
        extends(b, c),
        held_between(a, c, store) is Some,
    ensures
        held_between(a, b, store) is Some,
        held_between(b, c, held_between(a, b, store)->Some_0) == held_between(a, c, store),
{
    held_in_parts(a.dialect, store, b.sent, c.sent, a.replies, a.sent.len() as int);
}

/// Reading a key and storing a value under it: the read gives what was there, and
/// the value is there then.
pub proof fn get_then_upsert(
    s: SessionView,
    key: Seq<char>,
    value: Seq<char>,
    store: Map<Seq<char>, Seq<char>>,
)
    requires
        held_between(s, upsert_step(get_step(s, key).0, key, value).0, store) is Some,
    ensures
        get_step(s, key).1 == Ok::<Option<Seq<char>>, ErrorView>(
            if store.dom().contains(key) {
                Some(store[key])
            } else {
                None
            },
        ),
        upsert_step(get_step(s, key).0, key, value).1 is Ok,
        held_between(s, upsert_step(get_step(s, key).0, key, value).0, store) == Some(
            store.insert(key, value),
        ),
{
    let s1 = get_step(s, key).0;
    let s2 = upsert_step(s1, key, value).0;
    assert(extends(s, s1)) by {
        assert(s.sent =~= s1.sent.take(s.sent.len() as int));
        assert(s.warnings =~= s1.warnings.take(s.warnings.len() as int));
        assert(s.errors =~= s1.errors.take(s.errors.len() as int));
        assert(s.notes =~= s1.notes.take(s.notes.len() as int));
    }
    assert(extends(s1, s2)) by {
        assert(s1.sent =~= s2.sent.take(s1.sent.len() as int));
        assert(s1.warnings =~= s2.warnings.take(s1.warnings.len() as int));
        assert(s1.errors =~= s2.errors.take(s1.errors.len() as int));
        assert(s1.notes =~= s2.notes.take(s1.notes.len() as int));
    }
    held_in_two_parts(s, s1, s2, store);
    get_reads(s, key, store);
    upsert_stores(s1, key, value, store);
}

} // verus!
