//! What becomes of an answer, and of none; rows, and the texts of errors.
use crate::document::{Document, DocumentView};
use crate::promises::{after, answered};
use crate::query::VersionView;
use crate::session::{
    Dialect, ReplyView, Request, RequestView, Session, SessionView, ask_count, ask_document,
    ask_documents, ask_done, ask_flag, ask_integer, ask_names, ask_shape, ask_text, ask_types,
    ask_version, batch_ddl_step, batch_step, ddl_step, ddl_text, execute_many_step, execute_step,
    query_all_step, query_one_step, within,
};
use crate::text::{decimal, digit};
use crate::value::{DbError, DbRow, DbRowView, DbValue, DbValueView, ErrorView, out, string_of};
use vstd::prelude::*;

verus! {

/// Whatever a request asks for, it is sent as it is, the answer of its kind is what came
/// of it, a failure is an error that says why, and without an answer it waits.
pub proof fn an_answer_is_what_comes_of_a_request(
    s: SessionView,
    request: RequestView,
    n: u64,
    m: i64,
    b: bool,
    names: Seq<Seq<char>>,
    types: Seq<(Seq<char>, Seq<char>)>,
    text: Option<Seq<char>>,
    documents: Seq<DocumentView>,
    document: Option<DocumentView>,
    version: Option<VersionView>,
    fingerprint: Seq<char>,
)
    ensures
        ask_done(s, request).0 == s.asked(request),
        ask_count(s, request).0 == s.asked(request),
        ask_flag(s, request).0 == s.asked(request),
        ask_names(s, request).0 == s.asked(request),
        ask_types(s, request).0 == s.asked(request),
        ask_integer(s, request).0 == s.asked(request),
        ask_text(s, request).0 == s.asked(request),
        ask_documents(s, request).0 == s.asked(request),
        ask_document(s, request).0 == s.asked(request),
        ask_version(s, request).0 == s.asked(request),
        ask_shape(s, request).0 == s.asked(request),
        s.asked(request) == after(s, seq![request]),
        answered(s, 0, ReplyView::Done) ==> ask_done(s, request).1 == Ok::<(), ErrorView>(()),
        answered(s, 0, ReplyView::Count(n)) ==> ask_count(s, request).1 == Ok::<u64, ErrorView>(n),
        answered(s, 0, ReplyView::Flag(b)) ==> ask_flag(s, request).1 == Ok::<bool, ErrorView>(b),
        answered(s, 0, ReplyView::Names(names)) ==> ask_names(s, request).1 == Ok::<
            Seq<Seq<char>>,
            ErrorView,
        >(names),
        answered(s, 0, ReplyView::Types(types)) ==> ask_types(s, request).1 == Ok::<
            Seq<(Seq<char>, Seq<char>)>,
            ErrorView,
        >(types),
        answered(s, 0, ReplyView::Integer(m)) ==> ask_integer(s, request).1 == Ok::<
            i64,
            ErrorView,
        >(m),
        answered(s, 0, ReplyView::Text(text)) ==> ask_text(s, request).1 == Ok::<
            Option<Seq<char>>,
            ErrorView,
        >(text),
        answered(s, 0, ReplyView::Documents(documents)) ==> ask_documents(s, request).1 == Ok::<
            Seq<DocumentView>,
            ErrorView,
        >(documents),
        answered(s, 0, ReplyView::Document(document)) ==> ask_document(s, request).1 == Ok::<
            Option<DocumentView>,
            ErrorView,
        >(document),
        answered(s, 0, ReplyView::Version(version)) ==> ask_version(s, request).1 == Ok::<
            Option<VersionView>,
            ErrorView,
        >(version),
        answered(s, 0, ReplyView::IndexShape { fingerprint, indexed: b }) ==> ask_shape(
            s,
            request,
        ).1 == Ok::<(Seq<char>, bool), ErrorView>((fingerprint, b)),
{
    assert(s.sent.push(request) =~= s.sent + seq![request]);
}

/// A failure is an error that says why; without an answer yet the operation waits, and an
/// answer of another kind is none.
pub proof fn a_failure_is_an_error(s: SessionView, request: RequestView, why: Seq<char>)
    ensures
        answered(s, 0, ReplyView::Failed(why)) ==> {
            &&& ask_done(s, request).1 == Err::<(), ErrorView>(ErrorView::Backend(why))
            &&& ask_count(s, request).1 == Err::<u64, ErrorView>(ErrorView::Backend(why))
            &&& ask_flag(s, request).1 == Err::<bool, ErrorView>(ErrorView::Backend(why))
            &&& ask_names(s, request).1 is Err
            &&& ask_types(s, request).1 is Err
            &&& ask_integer(s, request).1 == Err::<i64, ErrorView>(ErrorView::Backend(why))
            &&& ask_text(s, request).1 is Err
            &&& ask_documents(s, request).1 is Err
            &&& ask_document(s, request).1 is Err
            &&& ask_version(s, request).1 is Err
            &&& ask_shape(s, request).1 is Err
        },
        s.replies.len() <= s.sent.len() ==> {
            &&& ask_done(s, request).1 == Err::<(), ErrorView>(ErrorView::Pending)
            &&& ask_count(s, request).1 == Err::<u64, ErrorView>(ErrorView::Pending)
            &&& ask_flag(s, request).1 == Err::<bool, ErrorView>(ErrorView::Pending)
            &&& ask_integer(s, request).1 == Err::<i64, ErrorView>(ErrorView::Pending)
        },
        answered(s, 0, ReplyView::Done) ==> {
            &&& ask_count(s, request).1 == Err::<u64, ErrorView>(ErrorView::Unexpected)
            &&& ask_flag(s, request).1 == Err::<bool, ErrorView>(ErrorView::Unexpected)
            &&& ask_integer(s, request).1 == Err::<i64, ErrorView>(ErrorView::Unexpected)
        },
        answered(s, 0, ReplyView::Flag(true)) ==> ask_done(s, request).1 == Err::<(), ErrorView>(
            ErrorView::Unexpected,
        ),
{
}

/// Statements are sent with their parameters, and what they give back is what came of
/// them. A statement for many rows is sent once for all, and not at all for none; schema
/// statements take no parameters.
pub proof fn statements_are_sent_as_given(
    s: SessionView,
    sql: Seq<char>,
    params: Seq<DbValueView>,
    all: Seq<Seq<DbValueView>>,
    rows: Seq<DbRowView>,
    row: Option<DbRowView>,
    n: u64,
)
    ensures
        query_all_step(s, sql, params).0 == s.asked(RequestView::QueryAll { sql, params }),
        answered(s, 0, ReplyView::Rows(rows)) ==> query_all_step(s, sql, params).1 == Ok::<
            Seq<DbRowView>,
            ErrorView,
        >(rows),
        query_one_step(s, sql, params).0 == s.asked(RequestView::QueryOne { sql, params }),
        answered(s, 0, ReplyView::Row(row)) ==> query_one_step(s, sql, params).1 == Ok::<
            Option<DbRowView>,
            ErrorView,
        >(row),
        execute_step(s, sql, params).0 == s.asked(RequestView::Execute { sql, params }),
        answered(s, 0, ReplyView::Count(n)) ==> execute_step(s, sql, params).1 == Ok::<
            u64,
            ErrorView,
        >(n),
        all.len() > 0 ==> execute_many_step(s, sql, all).0 == s.asked(
            RequestView::ExecuteMany { sql, rows: all },
        ),
        all.len() > 0 && answered(s, 0, ReplyView::Count(n)) ==> execute_many_step(s, sql, all).1
            is Ok,
        all.len() == 0 ==> execute_many_step(s, sql, all).0 == s && execute_many_step(
            s,
            sql,
            all,
        ).1 is Ok,
        batch_step(s, sql).0 == s.asked(RequestView::ExecuteBatch { sql }),
        s.dialect == Dialect::Sqlite ==> ddl_step(s, sql).0 == s.asked(
            RequestView::Execute { sql, params: Seq::empty() },
        ) && batch_ddl_step(s, sql).0 == s.asked(RequestView::ExecuteBatch { sql }),
{
}

/// On Postgres an integer column of a schema statement is a wide one; nothing else of the
/// statement changes.
pub proof fn integers_are_wide_on_postgres(rest: Seq<char>, c: char)
    ensures
        ddl_text(Dialect::Postgres, " INTEGER"@ + rest) == " BIGINT"@ + ddl_text(
            Dialect::Postgres,
            rest,
        ),
        rest.len() > 0 && !" INTEGER"@.is_prefix_of(rest) ==> ddl_text(Dialect::Postgres, rest)
            == seq![rest[0]] + ddl_text(Dialect::Postgres, rest.skip(1)),
        rest.len() == 0 ==> ddl_text(Dialect::Postgres, rest) == rest,
{
    reveal_strlit(" INTEGER");
    let all = " INTEGER"@ + rest;
    assert(" INTEGER"@ =~= all.take(8));
    assert(" INTEGER"@.is_prefix_of(all));
    assert(all.skip(8) =~= rest);
    if rest.len() > 0 && !" INTEGER"@.is_prefix_of(rest) {
        if rest.len() < 8 {
            assert(rest =~= seq![rest[0]] + rest.skip(1));
        }
    }
}

/// What was being done is said before what went wrong. An operation that waits, or whose
/// answer is of another kind, says so as it is.
pub proof fn errors_say_what_was_being_done(
    s: SessionView,
    text: Seq<char>,
    why: Seq<char>,
    n: u64,
)
    ensures
        within((s, Ok::<u64, ErrorView>(n)), text) == (s, Ok::<u64, ErrorView>(n)),
        within((s, Err::<u64, ErrorView>(ErrorView::Backend(why))), text).1 == Err::<
            u64,
            ErrorView,
        >(ErrorView::Backend(text + ": "@ + why)),
        within((s, Err::<u64, ErrorView>(ErrorView::Refused(why))), text).1 == Err::<
            u64,
            ErrorView,
        >(ErrorView::Refused(text + ": "@ + why)),
        within((s, Err::<u64, ErrorView>(ErrorView::Pending)), text).1 == Err::<u64, ErrorView>(
            ErrorView::Pending,
        ),
        within((s, Err::<u64, ErrorView>(ErrorView::Unexpected)), text).1 == Err::<u64, ErrorView>(
            ErrorView::Unexpected,
        ),
        ErrorView::Backend(why).message() == why,
        ErrorView::Refused(why).message() == why,
{
}

proof fn the_first_place(row: DbRowView, name: Seq<char>, i: int, n: int)
    requires
        0 <= i < n <= row.columns.len(),
        row.columns[i] == name,
        forall|k: int| 0 <= k < i ==> #[trigger] row.columns[k] != name,
    ensures
        row.position(name, n) == Some(i),
    decreases n,
{
    if n - 1 > i {
        the_first_place(row, name, i, n - 1);
    } else {
        no_place(row, name, i);
    }
}

proof fn no_place(row: DbRowView, name: Seq<char>, n: int)
    requires
        0 <= n <= row.columns.len(),
        forall|k: int| 0 <= k < n ==> #[trigger] row.columns[k] != name,
    ensures
        row.position(name, n) is None,
    decreases n,
{
    if n > 0 {
        no_place(row, name, n - 1);
        assert(row.columns[n - 1] != name);
    }
}

/// What a row holds under a name is what its first column of that name holds, if that is
/// of the kind asked for.
pub proof fn a_row_is_read_by_name(row: DbRowView, name: Seq<char>, i: int)
    requires
        row.columns.len() == row.values.len(),
    ensures
        0 <= i < row.columns.len() && row.columns[i] == name && (forall|k: int|
            0 <= k < i ==> #[trigger] row.columns[k] != name) ==> {
            &&& row.values[i] matches DbValueView::Text(t) ==> row.text(name) == Some(t)
                && string_of(row, name) == Ok::<Seq<char>, ErrorView>(t)
            &&& row.values[i] matches DbValueView::Integer(m) ==> row.integer(name) == Some(m)
            &&& !(row.values[i] is Text) ==> row.text(name) is None && string_of(row, name)
                == Err::<Seq<char>, ErrorView>(ErrorView::NoText { column: name })
            &&& !(row.values[i] is Integer) ==> row.integer(name) is None
        },
        (forall|k: int| 0 <= k < row.columns.len() ==> #[trigger] row.columns[k] != name) ==> {
            &&& row.text(name) is None
            &&& row.integer(name) is None
        },
{
    if 0 <= i < row.columns.len() && row.columns[i] == name && (forall|k: int|
        0 <= k < i ==> #[trigger] row.columns[k] != name) {
        the_first_place(row, name, i, row.columns.len() as int);
    }
    if forall|k: int| 0 <= k < row.columns.len() ==> #[trigger] row.columns[k] != name {
        no_place(row, name, row.columns.len() as int);
    }
}

/// A number is written digit by digit, the last being what is left of tens.
pub proof fn numbers_are_written_in_tens(n: nat, d: nat)
    requires
        d < 10,
    ensures
        decimal(0) == "0"@ && decimal(1) == "1"@ && decimal(2) == "2"@ && decimal(3) == "3"@,
        decimal(4) == "4"@ && decimal(5) == "5"@ && decimal(6) == "6"@,
        decimal(7) == "7"@ && decimal(8) == "8"@ && decimal(9) == "9"@,
        n > 0 ==> decimal(10 * n + d) == decimal(n) + decimal(d),
{
    reveal_strlit("0");
    reveal_strlit("1");
    reveal_strlit("2");
    reveal_strlit("3");
    reveal_strlit("4");
    reveal_strlit("5");
    reveal_strlit("6");
    reveal_strlit("7");
    reveal_strlit("8");
    reveal_strlit("9");
    assert(decimal(0) =~= "0"@ && decimal(1) =~= "1"@ && decimal(2) =~= "2"@ && decimal(3)
        =~= "3"@);
    assert(decimal(4) =~= "4"@ && decimal(5) =~= "5"@ && decimal(6) =~= "6"@);
    assert(decimal(7) =~= "7"@ && decimal(8) =~= "8"@ && decimal(9) =~= "9"@);
    if n > 0 {
        assert((10 * n + d) / 10 == n && (10 * n + d) % 10 == d) by (nonlinear_arith)
            requires
                d < 10,
        ;
        assert(decimal(n).push(digit(d)) =~= decimal(n) + seq![digit(d)]);
    }
}

/// Callers send statements as they give them, with their parameters.
pub proof fn callers_send_their_statements(
    conn: &mut Session,
    sql: String,
    params: Vec<DbValue>,
    all: Vec<Vec<DbValue>>,
    rows: Result<Vec<DbRow>, DbError>,
    row: Result<Option<DbRow>, DbError>,
    count: Result<u64, DbError>,
    r: Result<(), DbError>,
)
    ensures
        ({
            let s = old(conn)@;
            let end = final(conn)@;
            &&& call_ensures(Session::query_all, (conn, sql, params), rows) ==> (end, out(rows))
                == query_all_step(s, sql@, params.deep_view())
            &&& call_ensures(Session::query_one, (conn, sql, params), row) ==> (end, out(row))
                == query_one_step(s, sql@, params.deep_view())
            &&& call_ensures(Session::execute, (conn, sql, params), count) ==> (end, out(count))
                == execute_step(s, sql@, params.deep_view())
            &&& call_ensures(Session::execute_many, (conn, sql, all), r) ==> (end, out(r))
                == execute_many_step(s, sql@, all.deep_view())
            &&& call_ensures(Session::execute_ddl, (conn, sql), r) ==> (end, out(r)) == ddl_step(
                s,
                sql@,
            )
            &&& call_ensures(Session::execute_batch, (conn, sql), r) ==> (end, out(r))
                == batch_step(s, sql@)
            &&& call_ensures(Session::execute_batch_ddl, (conn, sql), r) ==> (end, out(r))
                == batch_ddl_step(s, sql@)
        }),
{
}

/// Callers send requests as they give them, and get what was answered.
pub proof fn callers_send_their_requests(
    conn: &mut Session,
    request: Request,
    r: Result<(), DbError>,
    count: Result<u64, DbError>,
    flag: Result<bool, DbError>,
    names: Result<Vec<String>, DbError>,
    number: Result<i64, DbError>,
    text: Result<Option<String>, DbError>,
    documents: Result<Vec<Document>, DbError>,
    document: Result<Option<Document>, DbError>,
)
    ensures
        ({
            let s = old(conn)@;
            let end = final(conn)@;
            let sent = request.deep_view();
            &&& call_ensures(Session::ask_done, (conn, request), r) ==> (end, out(r)) == ask_done(
                s,
                sent,
            )
            &&& call_ensures(Session::ask_count, (conn, request), count) ==> (end, out(count))
                == ask_count(s, sent)
            &&& call_ensures(Session::ask_flag, (conn, request), flag) ==> (end, out(flag))
                == ask_flag(s, sent)
            &&& call_ensures(Session::ask_names, (conn, request), names) ==> (end, out(names))
                == ask_names(s, sent)
            &&& call_ensures(Session::ask_integer, (conn, request), number) ==> (end, out(number))
                == ask_integer(s, sent)
            &&& call_ensures(Session::ask_text, (conn, request), text) ==> (end, out(text))
                == ask_text(s, sent)
            &&& call_ensures(Session::ask_documents, (conn, request), documents) ==> (
                end,
                out(documents),
            ) == ask_documents(s, sent)
            &&& call_ensures(Session::ask_document, (conn, request), document) ==> (
                end,
                out(document),
            ) == ask_document(s, sent)
        }),
{
}

} // verus!
