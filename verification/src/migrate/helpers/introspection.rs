//! Reading a database's catalog.
use crate::order::{
    dedup_texts, deduped, deduped_holds_the_same, sort_texts, sorted, sorted_holds_the_same,
};
use crate::session::{
    Dialect, Request, RequestView, Session, SessionView, Step, ask_flag, ask_names, ask_types,
    query_all_step, query_one_step, within,
};
use crate::text::{cat2, cat3, push_item, same};
use crate::value::{
    DbError, DbRow, DbRowView, DbValueView, ErrorView, add_context, no_params, one_param, out,
    string_of, texts_at, texts_in_column, texts_named, texts_under, two_params,
};
use vstd::prelude::*;

verus! {

/// Asks whether a table exists.
pub open spec fn table_exists_step(s: SessionView, name: Seq<char>) -> Step<bool> {
    match s.dialect {
        Dialect::Sqlite => ask_flag(s, RequestView::TableExists { table: name }),
        Dialect::Postgres => {
            let (s1, row) = query_one_step(
                s,
                "SELECT 1 FROM information_schema.tables WHERE table_schema = 'public' AND table_name = $1"@,
                seq![DbValueView::Text(name)],
            );
            (
                s1,
                match row {
                    Ok(row) => Ok(row is Some),
                    Err(e) => Err(e),
                },
            )
        },
    }
}

/// Whether a table exists.
pub fn table_exists(conn: &mut Session, name: &str) -> (r: Result<bool, DbError>)
    ensures
        (final(conn)@, out(r)) == table_exists_step(old(conn)@, name@),
{
    match conn.dialect() {
        Dialect::Sqlite => conn.ask_flag(Request::TableExists { table: name.to_owned() }),
        Dialect::Postgres => {
            let row = conn.query_one(
                "SELECT 1 FROM information_schema.tables WHERE table_schema = 'public' AND table_name = $1".to_owned(),
                one_param(name),
            )?;
            Ok(row.is_some())
        },
    }
}

/// Asks for the names of a table's columns.
pub open spec fn table_columns_step(s: SessionView, table: Seq<char>) -> Step<Seq<Seq<char>>> {
    match s.dialect {
        Dialect::Sqlite => ask_names(s, RequestView::TableColumns { table }),
        Dialect::Postgres => {
            let (s1, rows) = query_all_step(
                s,
                "SELECT column_name FROM information_schema.columns WHERE table_schema = 'public' AND table_name = $1"@,
                seq![DbValueView::Text(table)],
            );
            (
                s1,
                match rows {
                    Ok(rows) => Ok(texts_under(rows, "column_name"@)),
                    Err(e) => Err(e),
                },
            )
        },
    }
}

/// The names of a table's columns.
pub fn get_table_columns(conn: &mut Session, table: &str) -> (r: Result<Vec<String>, DbError>)
    ensures
        (final(conn)@, out(r)) == table_columns_step(old(conn)@, table@),
{
    match conn.dialect() {
        Dialect::Sqlite => conn.ask_names(Request::TableColumns { table: table.to_owned() }),
        Dialect::Postgres => {
            let rows = conn.query_all(
                "SELECT column_name FROM information_schema.columns WHERE table_schema = 'public' AND table_name = $1".to_owned(),
                one_param(table),
            )?;
            Ok(texts_named(&rows, "column_name"))
        },
    }
}

/// The name and type each row of a column listing gives.
pub open spec fn name_and_type(rows: Seq<DbRowView>) -> Seq<(Seq<char>, Seq<char>)>
    decreases rows.len(),
{
    if rows.len() == 0 {
        Seq::empty()
    } else {
        let before = name_and_type(rows.drop_last());
        match (rows.last().text("column_name"@), rows.last().text("data_type"@)) {
            (Some(name), Some(data_type)) => before.push((name, data_type)),
            _ => before,
        }
    }
}

/// Asks for the names of a table's columns, each with its type.
pub open spec fn table_column_types_step(s: SessionView, table: Seq<char>) -> Step<
    Seq<(Seq<char>, Seq<char>)>,
> {
    match s.dialect {
        Dialect::Sqlite => ask_types(s, RequestView::TableColumnTypes { table }),
        Dialect::Postgres => {
            let (s1, rows) = query_all_step(
                s,
                "SELECT column_name, data_type FROM information_schema.columns WHERE table_schema = 'public' AND table_name = $1"@,
                seq![DbValueView::Text(table)],
            );
            (
                s1,
                match rows {
                    Ok(rows) => Ok(name_and_type(rows)),
                    Err(e) => Err(e),
                },
            )
        },
    }
}

fn names_and_types(rows: &Vec<DbRow>) -> (r: Vec<(String, String)>)
    ensures
        r.deep_view() == name_and_type(rows.deep_view()),
{
    let mut found: Vec<(String, String)> = Vec::new();
    let ghost all = rows.deep_view();
    let mut i: usize = 0;
    assert(all.take(0) =~= Seq::<DbRowView>::empty());
    assert(found.deep_view() =~= Seq::<(Seq<char>, Seq<char>)>::empty());
    while i < rows.len()
        invariant
            i <= rows.len(),
            all == rows.deep_view(),
            found.deep_view() == name_and_type(all.take(i as int)),
        decreases rows.len() - i,
    {
        assert(all.take(i + 1).drop_last() =~= all.take(i as int));
        assert(all.take(i + 1).last() == rows@[i as int].deep_view());
        if let (Some(name), Some(data_type)) = (
            rows[i].text("column_name"),
            rows[i].text("data_type"),
        ) {
            push_item(&mut found, (name, data_type));
        }
        i += 1;
    }
    assert(all.take(i as int) =~= all);
    found
}

/// The names of a table's columns, each with its type.
pub fn get_table_column_types(conn: &mut Session, table: &str) -> (r: Result<
    Vec<(String, String)>,
    DbError,
>)
    ensures
        (final(conn)@, out(r)) == table_column_types_step(old(conn)@, table@),
{
    match conn.dialect() {
        Dialect::Sqlite => conn.ask_types(Request::TableColumnTypes { table: table.to_owned() }),
        Dialect::Postgres => {
            let rows = conn.query_all(
                "SELECT column_name, data_type FROM information_schema.columns WHERE table_schema = 'public' AND table_name = $1".to_owned(),
                one_param(table),
            )?;
            Ok(names_and_types(&rows))
        },
    }
}

/// Asks for the names of a table's indexes that begin with `prefix`.
pub open spec fn index_names_step(s: SessionView, table: Seq<char>, prefix: Seq<char>) -> Step<
    Seq<Seq<char>>,
> {
    match s.dialect {
        Dialect::Sqlite => ask_names(s, RequestView::IndexNames { table, prefix }),
        Dialect::Postgres => {
            let (s1, rows) = query_all_step(
                s,
                "SELECT indexname FROM pg_indexes WHERE tablename = $1 AND indexname LIKE $2"@,
                seq![DbValueView::Text(table), DbValueView::Text(prefix + "%"@)],
            );
            (
                s1,
                match rows {
                    Ok(rows) => Ok(texts_under(rows, "indexname"@)),
                    Err(e) => Err(e),
                },
            )
        },
    }
}

/// The names of a table's indexes that begin with `prefix`.
pub fn index_names(conn: &mut Session, table: &str, prefix: &str) -> (r: Result<
    Vec<String>,
    DbError,
>)
    ensures
        (final(conn)@, out(r)) == index_names_step(old(conn)@, table@, prefix@),
{
    match conn.dialect() {
        Dialect::Sqlite => conn.ask_names(
            Request::IndexNames { table: table.to_owned(), prefix: prefix.to_owned() },
        ),
        Dialect::Postgres => {
            let pattern = cat2(prefix, "%");
            let rows = conn.query_all(
                "SELECT indexname FROM pg_indexes WHERE tablename = $1 AND indexname LIKE $2".to_owned(),
                two_params(table, pattern.as_str()),
            )?;
            Ok(texts_named(&rows, "indexname"))
        },
    }
}

/// Asks for the names of every table but the database's own.
pub open spec fn user_tables_step(s: SessionView) -> Step<Seq<Seq<char>>> {
    match s.dialect {
        Dialect::Sqlite => ask_names(s, RequestView::ListUserTables),
        Dialect::Postgres => {
            let (s1, rows) = query_all_step(
                s,
                "SELECT table_name FROM information_schema.tables WHERE table_schema = 'public' AND table_type = 'BASE TABLE'"@,
                Seq::empty(),
            );
            (
                s1,
                match rows {
                    Ok(rows) => Ok(texts_under(rows, "table_name"@)),
                    Err(e) => Err(e),
                },
            )
        },
    }
}

/// The names of every table but the database's own.
pub fn list_user_tables(conn: &mut Session) -> (r: Result<Vec<String>, DbError>)
    ensures
        (final(conn)@, out(r)) == user_tables_step(old(conn)@),
{
    match conn.dialect() {
        Dialect::Sqlite => conn.ask_names(Request::ListUserTables),
        Dialect::Postgres => {
            let rows = conn.query_all(
                "SELECT table_name FROM information_schema.tables WHERE table_schema = 'public' AND table_type = 'BASE TABLE'".to_owned(),
                no_params(),
            )?;
            Ok(texts_named(&rows, "table_name"))
        },
    }
}

/// Which kind of table constraint [`table_constraints`] reads.
#[derive(Debug, Clone, Copy, PartialEq, Eq, Structural)]
pub enum ConstraintKind {
    PrimaryKey,
    /// A `UNIQUE` written into the table definition. A unique index created on
    /// its own is something else, which the catalogs keep apart.
    Unique,
}

/// A primary key or inline `UNIQUE` as the catalog stores it: its name (on SQLite
/// that of its automatic index, empty for a primary key) and its columns, in
/// key order.
#[derive(Debug, Clone, PartialEq, Eq)]
pub struct TableConstraint {
    pub name: String,
    pub columns: Vec<String>,
}

/// The mathematical value of a [`TableConstraint`].
#[verifier::ext_equal]
pub ghost struct ConstraintView {
    pub name: Seq<char>,
    pub columns: Seq<Seq<char>>,
}

impl DeepView for TableConstraint {
    type V = ConstraintView;

    open spec fn deep_view(&self) -> ConstraintView {
        ConstraintView { name: self.name@, columns: self.columns.deep_view() }
    }
}

/// The constraint name and column each row of a key listing gives, or the first
/// row's error that gives none.
pub open spec fn key_usage(rows: Seq<DbRowView>, i: int, done: Seq<(Seq<char>, Seq<char>)>) -> Result<
    Seq<(Seq<char>, Seq<char>)>,
    ErrorView,
>
    decreases rows.len() - i,
{
    if i < 0 || i >= rows.len() {
        Ok(done)
    } else {
        match string_of(rows[i], "constraint_name"@) {
            Err(e) => Err(e),
            Ok(name) => match string_of(rows[i], "column_name"@) {
                Err(e) => Err(e),
                Ok(column) => key_usage(rows, i + 1, done.push((name, column))),
            },
        }
    }
}

/// The names among constraint and column pairs.
pub open spec fn constraint_names(pairs: Seq<(Seq<char>, Seq<char>)>) -> Seq<Seq<char>> {
    Seq::new(pairs.len(), |i: int| pairs[i].0)
}

/// The columns paired with `name`, in order.
pub open spec fn columns_of(pairs: Seq<(Seq<char>, Seq<char>)>, name: Seq<char>) -> Seq<Seq<char>>
    decreases pairs.len(),
{
    if pairs.len() == 0 {
        Seq::empty()
    } else if pairs.last().0 == name {
        columns_of(pairs.drop_last(), name).push(pairs.last().1)
    } else {
        columns_of(pairs.drop_last(), name)
    }
}

/// One constraint per name, by name, each with its columns in order.
pub open spec fn grouped(pairs: Seq<(Seq<char>, Seq<char>)>) -> Seq<ConstraintView> {
    let names = deduped(sorted(constraint_names(pairs)));
    Seq::new(
        names.len(),
        |i: int| ConstraintView { name: names[i], columns: columns_of(pairs, names[i]) },
    )
}

/// What Postgres calls a kind of constraint.
pub open spec fn constraint_type(kind: ConstraintKind) -> Seq<char> {
    match kind {
        ConstraintKind::PrimaryKey => "PRIMARY KEY"@,
        ConstraintKind::Unique => "UNIQUE"@,
    }
}

/// Reads the constraints of a table from Postgres's catalog.
pub open spec fn pg_constraints_step(s: SessionView, table: Seq<char>, kind: ConstraintKind) -> Step<
    Seq<ConstraintView>,
> {
    let (s1, rows) = query_all_step(
        s,
        "SELECT tc.constraint_name, kcu.column_name FROM information_schema.table_constraints tc JOIN information_schema.key_column_usage kcu ON kcu.constraint_schema = tc.constraint_schema AND kcu.constraint_name = tc.constraint_name AND kcu.table_name = tc.table_name WHERE tc.table_schema = 'public' AND tc.table_name = $1 AND tc.constraint_type = $2 ORDER BY tc.constraint_name, kcu.ordinal_position"@,
        seq![DbValueView::Text(table), DbValueView::Text(constraint_type(kind))],
    );
    (
        s1,
        match rows {
            Err(e) => Err(e),
            Ok(rows) => match key_usage(rows, 0, Seq::empty()) {
                Err(e) => Err(e),
                Ok(pairs) => Ok(grouped(pairs)),
            },
        },
    )
}

fn read_key_usage(rows: &Vec<DbRow>) -> (r: Result<Vec<(String, String)>, DbError>)
    ensures
        out(r) == key_usage(rows.deep_view(), 0, Seq::empty()),
{
    let mut pairs: Vec<(String, String)> = Vec::new();
    assert(pairs.deep_view() =~= Seq::<(Seq<char>, Seq<char>)>::empty());
    let mut i: usize = 0;
    while i < rows.len()
        invariant
            i <= rows.len(),
            key_usage(rows.deep_view(), 0, Seq::empty()) == key_usage(
                rows.deep_view(),
                i as int,
                pairs.deep_view(),
            ),
        decreases rows.len() - i,
    {
        assert(rows.deep_view()[i as int] == rows@[i as int].deep_view());
        let name = rows[i].get_string("constraint_name")?;
        let column = rows[i].get_string("column_name")?;
        push_item(&mut pairs, (name, column));
        i += 1;
    }
    Ok(pairs)
}

fn columns_paired(pairs: &Vec<(String, String)>, name: &str) -> (r: Vec<String>)
    ensures
        r.deep_view() == columns_of(pairs.deep_view(), name@),
{
    let mut found: Vec<String> = Vec::new();
    let ghost all = pairs.deep_view();
    let mut i: usize = 0;
    assert(all.take(0) =~= Seq::<(Seq<char>, Seq<char>)>::empty());
    assert(found.deep_view() =~= Seq::<Seq<char>>::empty());
    while i < pairs.len()
        invariant
            i <= pairs.len(),
            all == pairs.deep_view(),
            found.deep_view() == columns_of(all.take(i as int), name@),
        decreases pairs.len() - i,
    {
        assert(all.take(i + 1).drop_last() =~= all.take(i as int));
        assert(all.take(i + 1).last() == pairs@[i as int].deep_view());
        if same(pairs[i].0.as_str(), name) {
            push_item(&mut found, pairs[i].1.clone());
        }
        i += 1;
    }
    assert(all.take(i as int) =~= all);
    found
}

fn group_by_name(pairs: &Vec<(String, String)>) -> (r: Vec<TableConstraint>)
    ensures
        r.deep_view() == grouped(pairs.deep_view()),
{
    let ghost all = pairs.deep_view();
    let mut names: Vec<String> = Vec::new();
    let mut i: usize = 0;
    while i < pairs.len()
        invariant
            i <= pairs.len(),
            all == pairs.deep_view(),
            names.deep_view() =~= constraint_names(all).take(i as int),
        decreases pairs.len() - i,
    {
        push_item(&mut names, pairs[i].0.clone());
        i += 1;
    }
    assert(names.deep_view() =~= constraint_names(all));
    let in_order = sort_texts(&names);
    let distinct = dedup_texts(&in_order);
    let mut constraints: Vec<TableConstraint> = Vec::new();
    let mut k: usize = 0;
    while k < distinct.len()
        invariant
            k <= distinct.len(),
            all == pairs.deep_view(),
            distinct.deep_view() == deduped(sorted(constraint_names(all))),
            constraints.deep_view() =~= grouped(all).take(k as int),
        decreases distinct.len() - k,
    {
        assert(distinct.deep_view()[k as int] == distinct@[k as int]@);
        let columns = columns_paired(pairs, distinct[k].as_str());
        push_item(&mut constraints, TableConstraint { name: distinct[k].clone(), columns });
        k += 1;
    }
    assert(constraints.deep_view() =~= grouped(all));
    constraints
}

fn pg_constraints(conn: &mut Session, table: &str, kind: ConstraintKind) -> (r: Result<
    Vec<TableConstraint>,
    DbError,
>)
    ensures
        (final(conn)@, out(r)) == pg_constraints_step(old(conn)@, table@, kind),
{
    let constraint_type = match kind {
        ConstraintKind::PrimaryKey => "PRIMARY KEY",
        ConstraintKind::Unique => "UNIQUE",
    };
    let rows = conn.query_all(
        "SELECT tc.constraint_name, kcu.column_name FROM information_schema.table_constraints tc JOIN information_schema.key_column_usage kcu ON kcu.constraint_schema = tc.constraint_schema AND kcu.constraint_name = tc.constraint_name AND kcu.table_name = tc.table_name WHERE tc.table_schema = 'public' AND tc.table_name = $1 AND tc.constraint_type = $2 ORDER BY tc.constraint_name, kcu.ordinal_position".to_owned(),
        two_params(table, constraint_type),
    )?;
    let pairs = read_key_usage(&rows)?;
    Ok(group_by_name(&pairs))
}

/// Reads the primary key of a table from SQLite's catalog.
pub open spec fn sqlite_primary_key_step(s: SessionView, table: Seq<char>) -> Step<
    Seq<ConstraintView>,
> {
    let (s1, rows) = query_all_step(
        s,
        "SELECT name FROM pragma_table_info(?1) WHERE pk > 0 ORDER BY pk"@,
        seq![DbValueView::Text(table)],
    );
    (
        s1,
        match rows {
            Err(e) => Err(e),
            Ok(rows) => {
                let columns = texts_in_column(rows, 0);
                if columns.len() == 0 {
                    Ok(Seq::empty())
                } else {
                    Ok(seq![ConstraintView { name: Seq::empty(), columns }])
                }
            },
        },
    )
}

fn sqlite_primary_key(conn: &mut Session, table: &str) -> (r: Result<Vec<TableConstraint>, DbError>)
    ensures
        (final(conn)@, out(r)) == sqlite_primary_key_step(old(conn)@, table@),
{
    let rows = conn.query_all(
        "SELECT name FROM pragma_table_info(?1) WHERE pk > 0 ORDER BY pk".to_owned(),
        one_param(table),
    )?;
    let columns = texts_at(&rows, 0);
    let ghost names = columns.deep_view();
    let mut keys: Vec<TableConstraint> = Vec::new();
    assert(keys.deep_view() =~= Seq::<ConstraintView>::empty());
    if columns.len() > 0 {
        push_item(&mut keys, TableConstraint { name: String::new(), columns });
        assert(keys.deep_view() =~= seq![ConstraintView { name: Seq::empty(), columns: names }]);
    }
    Ok(keys)
}

/// Reads the columns of the indexes from the `i`-th on, one after the other.
pub open spec fn index_columns_from(
    s: SessionView,
    names: Seq<Seq<char>>,
    i: int,
    done: Seq<ConstraintView>,
) -> Step<Seq<ConstraintView>>
    decreases names.len() - i,
{
    if i < 0 || i >= names.len() {
        (s, Ok(done))
    } else {
        let (s1, rows) = query_all_step(
            s,
            "SELECT name FROM pragma_index_info(?1) ORDER BY seqno"@,
            seq![DbValueView::Text(names[i])],
        );
        match rows {
            Err(e) => (s1, Err(e)),
            Ok(rows) => index_columns_from(
                s1,
                names,
                i + 1,
                done.push(ConstraintView { name: names[i], columns: texts_in_column(rows, 0) }),
            ),
        }
    }
}

/// Reads the inline `UNIQUE` constraints of a table from SQLite's catalog.
pub open spec fn sqlite_inline_unique_step(s: SessionView, table: Seq<char>) -> Step<
    Seq<ConstraintView>,
> {
    let (s1, rows) = query_all_step(
        s,
        "SELECT name FROM pragma_index_list(?1) WHERE origin = 'u' ORDER BY name"@,
        seq![DbValueView::Text(table)],
    );
    match rows {
        Err(e) => (s1, Err(e)),
        Ok(rows) => index_columns_from(s1, texts_in_column(rows, 0), 0, Seq::empty()),
    }
}

fn sqlite_inline_unique(conn: &mut Session, table: &str) -> (r: Result<
    Vec<TableConstraint>,
    DbError,
>)
    ensures
        (final(conn)@, out(r)) == sqlite_inline_unique_step(old(conn)@, table@),
{
    let rows = conn.query_all(
        "SELECT name FROM pragma_index_list(?1) WHERE origin = 'u' ORDER BY name".to_owned(),
        one_param(table),
    )?;
    let names = texts_at(&rows, 0);
    let mut constraints: Vec<TableConstraint> = Vec::new();
    assert(constraints.deep_view() =~= Seq::<ConstraintView>::empty());
    let ghost start = conn@;
    let mut i: usize = 0;
    while i < names.len()
        invariant
            i <= names.len(),
            index_columns_from(start, names.deep_view(), 0, Seq::empty()) == index_columns_from(
                conn@,
                names.deep_view(),
                i as int,
                constraints.deep_view(),
            ),
            index_columns_from(start, names.deep_view(), 0, Seq::empty())
                == sqlite_inline_unique_step(old(conn)@, table@),
        decreases names.len() - i,
    {
        assert(names.deep_view()[i as int] == names@[i as int]@);
        let rows = conn.query_all(
            "SELECT name FROM pragma_index_info(?1) ORDER BY seqno".to_owned(),
            one_param(names[i].as_str()),
        )?;
        let columns = texts_at(&rows, 0);
        push_item(&mut constraints, TableConstraint { name: names[i].clone(), columns });
        i += 1;
    }
    Ok(constraints)
}

/// Reads the constraints of `kind` a table carries.
pub open spec fn table_constraints_step(
    s: SessionView,
    table: Seq<char>,
    kind: ConstraintKind,
) -> Step<Seq<ConstraintView>> {
    let read = match (s.dialect, kind) {
        (Dialect::Postgres, _) => pg_constraints_step(s, table, kind),
        (Dialect::Sqlite, ConstraintKind::PrimaryKey) => sqlite_primary_key_step(s, table),
        (Dialect::Sqlite, ConstraintKind::Unique) => sqlite_inline_unique_step(s, table),
    };
    within(read, "Failed to read the constraints of '"@ + table + "'"@)
}

/// The constraints of `kind` a table carries: the stored shape that is compared
/// with the one a definition asks for.
pub fn table_constraints(conn: &mut Session, table: &str, kind: ConstraintKind) -> (r: Result<
    Vec<TableConstraint>,
    DbError,
>)
    ensures
        (final(conn)@, out(r)) == table_constraints_step(old(conn)@, table@, kind),
{
    let read = match (conn.dialect(), kind) {
        (Dialect::Postgres, _) => pg_constraints(conn, table, kind),
        (Dialect::Sqlite, ConstraintKind::PrimaryKey) => sqlite_primary_key(conn, table),
        (Dialect::Sqlite, ConstraintKind::Unique) => sqlite_inline_unique(conn, table),
    };
    add_context(read, cat3("Failed to read the constraints of '", table, "'").as_str())
}

proof fn its_columns_hold(pairs: Seq<(Seq<char>, Seq<char>)>, i: int)
    requires
        0 <= i < pairs.len(),
    ensures
        columns_of(pairs, pairs[i].0).contains(pairs[i].1),
    decreases pairs.len(),
{
    let front = pairs.drop_last();
    let name = pairs[i].0;
    if i == pairs.len() - 1 {
        let all = columns_of(pairs, name);
        assert(all[all.len() - 1] == pairs[i].1);
    } else {
        its_columns_hold(front, i);
        assert(front[i] == pairs[i]);
        let before = columns_of(front, name);
        let k = choose|k: int| 0 <= k < before.len() && before[k] == pairs[i].1;
        assert(columns_of(pairs, name)[k] == pairs[i].1);
    }
}

/// Each column a listing pairs with a constraint is among that constraint's.
pub proof fn every_column_is_in_its_constraint(pairs: Seq<(Seq<char>, Seq<char>)>, i: int)
    requires
        0 <= i < pairs.len(),
    ensures
        exists|k: int|
            0 <= k < grouped(pairs).len() && (#[trigger] grouped(pairs)[k]).name == pairs[i].0
                && grouped(pairs)[k].columns.contains(pairs[i].1),
{
    let listed = constraint_names(pairs);
    let name = pairs[i].0;
    assert(listed[i] == name);
    sorted_holds_the_same(listed, name);
    deduped_holds_the_same(sorted(listed), name);
    let names = deduped(sorted(listed));
    let k = choose|k: int| 0 <= k < names.len() && names[k] == name;
    its_columns_hold(pairs, i);
    assert(grouped(pairs)[k].name == name);
}

} // verus!
