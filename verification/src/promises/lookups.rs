//! Looking up what a database holds: each lookup asks one thing, and what it finds is in
//! the answer.
use crate::migrate::helpers::introspection::{
    index_names_step, table_column_types_step, table_columns_step, table_exists_step,
    user_tables_step,
};
use crate::promises::{after, answered};
use crate::session::{Dialect, ReplyView, RequestView, SessionView};
use crate::value::{DbRowView, DbValueView, ErrorView, texts_in_column, texts_under};
use vstd::prelude::*;

verus! {

/// The request for whether a table exists.
pub open spec fn asks_for_table(dialect: Dialect, table: Seq<char>) -> RequestView {
    match dialect {
        Dialect::Sqlite => RequestView::TableExists { table },
        Dialect::Postgres => RequestView::QueryOne {
            sql: "SELECT 1 FROM information_schema.tables WHERE table_schema = 'public' AND table_name = $1"@,
            params: seq![DbValueView::Text(table)],
        },
    }
}

/// Whether the answer to the `k`-th request says that a table exists.
pub open spec fn told_there(s: SessionView, k: int) -> bool {
    0 <= k < s.replies.len() && match s.dialect {
        Dialect::Sqlite => s.replies[k] == ReplyView::Flag(true),
        Dialect::Postgres => s.replies[k] matches ReplyView::Row(Some(_)),
    }
}

/// Whether the answer to the `k`-th request says that a table does not exist.
pub open spec fn told_missing(s: SessionView, k: int) -> bool {
    0 <= k < s.replies.len() && match s.dialect {
        Dialect::Sqlite => s.replies[k] == ReplyView::Flag(false),
        Dialect::Postgres => s.replies[k] == ReplyView::Row(None),
    }
}

/// A table is looked for under its own name, and is there if the answer says so.
pub proof fn a_table_is_looked_for(s: SessionView, table: Seq<char>, why: Seq<char>)
    ensures
        ({
            let (end, r) = table_exists_step(s, table);
            let at = s.sent.len() as int;
            &&& end == after(s, seq![asks_for_table(s.dialect, table)])
            &&& r == Ok::<bool, ErrorView>(true) <==> told_there(s, at)
            &&& r == Ok::<bool, ErrorView>(false) <==> told_missing(s, at)
            &&& answered(s, 0, ReplyView::Failed(why)) ==> r == Err::<bool, ErrorView>(
                ErrorView::Backend(why),
            )
        }),
{
    let asked = asks_for_table(s.dialect, table);
    assert(s.sent.push(asked) =~= s.sent + seq![asked]);
}

/// The request for a table's columns.
pub open spec fn asks_for_columns(dialect: Dialect, table: Seq<char>) -> RequestView {
    match dialect {
        Dialect::Sqlite => RequestView::TableColumns { table },
        Dialect::Postgres => RequestView::QueryAll {
            sql: "SELECT column_name FROM information_schema.columns WHERE table_schema = 'public' AND table_name = $1"@,
            params: seq![DbValueView::Text(table)],
        },
    }
}

/// The columns that the answer to the `k`-th request names.
pub open spec fn told_columns(s: SessionView, k: int) -> Option<Seq<Seq<char>>> {
    if !(0 <= k < s.replies.len()) {
        None
    } else {
        match (s.dialect, s.replies[k]) {
            (Dialect::Sqlite, ReplyView::Names(names)) => Some(names),
            (Dialect::Postgres, ReplyView::Rows(rows)) => Some(
                texts_under(rows, "column_name"@),
            ),
            _ => None,
        }
    }
}

/// A table's columns are those that the answer names.
pub proof fn columns_are_looked_for(s: SessionView, table: Seq<char>, why: Seq<char>)
    ensures
        ({
            let (end, r) = table_columns_step(s, table);
            let told = told_columns(s, s.sent.len() as int);
            &&& end == after(s, seq![asks_for_columns(s.dialect, table)])
            &&& forall|columns: Seq<Seq<char>>|
                r == Ok::<Seq<Seq<char>>, ErrorView>(columns) <==> told == Some(columns)
            &&& answered(s, 0, ReplyView::Failed(why)) ==> r == Err::<Seq<Seq<char>>, ErrorView>(
                ErrorView::Backend(why),
            )
        }),
{
    let asked = asks_for_columns(s.dialect, table);
    assert(s.sent.push(asked) =~= s.sent + seq![asked]);
}

/// Rows that each hold one text under a name yield those texts, in order.
pub proof fn texts_under_a_name_are_read(
    rows: Seq<DbRowView>,
    name: Seq<char>,
    texts: Seq<Seq<char>>,
)
    requires
        rows.len() == texts.len(),
        forall|i: int|
            #![trigger rows[i]]
            0 <= i < rows.len() ==> rows[i] == (DbRowView {
                columns: seq![name],
                values: seq![DbValueView::Text(texts[i])],
            }),
    ensures
        texts_under(rows, name) == texts,
    decreases rows.len(),
{
    if rows.len() > 0 {
        let row = rows.last();
        assert(rows[rows.len() - 1] == row);
        assert(row.columns[0] == name);
        assert(row.values[0] == DbValueView::Text(texts.last()));
        texts_under_a_name_are_read(rows.drop_last(), name, texts.drop_last());
        reveal_with_fuel(DbRowView::position, 2);
        assert(row.position(name, 1) == Some(0int));
        assert(row.text(name) == Some(texts.last()));
        assert(texts.drop_last().push(texts.last()) =~= texts);
    } else {
        assert(texts =~= Seq::empty());
    }
}

/// On SQLite the types, the indexes and the tables are those that the host names.
pub proof fn sqlite_names_its_own(
    s: SessionView,
    table: Seq<char>,
    prefix: Seq<char>,
    names: Seq<Seq<char>>,
    types: Seq<(Seq<char>, Seq<char>)>,
)
    requires
        s.dialect == Dialect::Sqlite,
    ensures
        table_column_types_step(s, table).0 == after(
            s,
            seq![RequestView::TableColumnTypes { table }],
        ),
        answered(s, 0, ReplyView::Types(types)) ==> table_column_types_step(s, table).1 == Ok::<
            Seq<(Seq<char>, Seq<char>)>,
            ErrorView,
        >(types),
        index_names_step(s, table, prefix).0 == after(
            s,
            seq![RequestView::IndexNames { table, prefix }],
        ),
        answered(s, 0, ReplyView::Names(names)) ==> index_names_step(s, table, prefix).1 == Ok::<
            Seq<Seq<char>>,
            ErrorView,
        >(names),
        user_tables_step(s).0 == after(s, seq![RequestView::ListUserTables]),
        answered(s, 0, ReplyView::Names(names)) ==> user_tables_step(s).1 == Ok::<
            Seq<Seq<char>>,
            ErrorView,
        >(names),
{
    let a = RequestView::TableColumnTypes { table };
    let b = RequestView::IndexNames { table, prefix };
    let c = RequestView::ListUserTables;
    assert(s.sent.push(a) =~= s.sent + seq![a]);
    assert(s.sent.push(b) =~= s.sent + seq![b]);
    assert(s.sent.push(c) =~= s.sent + seq![c]);
}

/// On Postgres the types, the indexes and the tables are read from its catalogues: the
/// public tables, and the indexes whose names begin as asked for.
pub proof fn postgres_is_asked_for_its_own(
    s: SessionView,
    table: Seq<char>,
    prefix: Seq<char>,
    rows: Seq<DbRowView>,
)
    requires
        s.dialect == Dialect::Postgres,
    ensures
        table_column_types_step(s, table).0 == after(
            s,
            seq![
                RequestView::QueryAll {
                    sql: "SELECT column_name, data_type FROM information_schema.columns WHERE table_schema = 'public' AND table_name = $1"@,
                    params: seq![DbValueView::Text(table)],
                },
            ],
        ),
        index_names_step(s, table, prefix).0 == after(
            s,
            seq![
                RequestView::QueryAll {
                    sql: "SELECT indexname FROM pg_indexes WHERE tablename = $1 AND indexname LIKE $2"@,
                    params: seq![DbValueView::Text(table), DbValueView::Text(prefix + "%"@)],
                },
            ],
        ),
        answered(s, 0, ReplyView::Rows(rows)) ==> index_names_step(s, table, prefix).1 == Ok::<
            Seq<Seq<char>>,
            ErrorView,
        >(texts_under(rows, "indexname"@)),
        user_tables_step(s).0 == after(
            s,
            seq![
                RequestView::QueryAll {
                    sql: "SELECT table_name FROM information_schema.tables WHERE table_schema = 'public' AND table_type = 'BASE TABLE'"@,
                    params: Seq::empty(),
                },
            ],
        ),
        answered(s, 0, ReplyView::Rows(rows)) ==> user_tables_step(s).1 == Ok::<
            Seq<Seq<char>>,
            ErrorView,
        >(texts_under(rows, "table_name"@)),
{
    let a = table_column_types_step(s, table).0.sent.last();
    let b = index_names_step(s, table, prefix).0.sent.last();
    let c = user_tables_step(s).0.sent.last();
    assert(s.sent.push(a) =~= s.sent + seq![a]);
    assert(s.sent.push(b) =~= s.sent + seq![b]);
    assert(s.sent.push(c) =~= s.sent + seq![c]);
}

/// The request for every table.
pub open spec fn asks_for_tables(dialect: Dialect) -> RequestView {
    match dialect {
        Dialect::Sqlite => RequestView::ListUserTables,
        Dialect::Postgres => RequestView::QueryAll {
            sql: "SELECT table_name FROM information_schema.tables WHERE table_schema = 'public' AND table_type = 'BASE TABLE'"@,
            params: Seq::empty(),
        },
    }
}

/// Rows that each hold one text in a column yield those texts, in order.
pub proof fn texts_in_a_column_are_read(rows: Seq<DbRowView>, at: int, texts: Seq<Seq<char>>)
    requires
        rows.len() == texts.len(),
        forall|i: int|
            #![trigger rows[i]]
            0 <= i < rows.len() ==> 0 <= at < rows[i].values.len() && rows[i].values[at]
                == DbValueView::Text(texts[i]),
    ensures
        texts_in_column(rows, at) == texts,
    decreases rows.len(),
{
    if rows.len() > 0 {
        let n = rows.len() - 1;
        assert(rows.last() == rows[n]);
        assert(rows[n].values[at] == DbValueView::Text(texts[n]));
        texts_in_a_column_are_read(rows.drop_last(), at, texts.drop_last());
        assert(texts.drop_last().push(texts.last()) =~= texts);
    } else {
        assert(texts =~= Seq::empty());
    }
}

} // verus!
