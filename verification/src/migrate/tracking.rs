//! Which of the migration files have been applied.
use crate::migrate::helpers::introspection::{
    list_user_tables, table_exists, table_exists_step, user_tables_step,
};
use crate::names::{placeholder, placeholder_text};
use crate::order::{
    contains_pushed, is_sorted, sort_texts, sorted, sorted_holds_the_same, sorted_is_sorted,
    text_le,
};
use crate::pool::{DbPool, connect_step};
use crate::session::{
    Dialect, ReplyView, RequestView, Session, SessionView, Step, execute_step, query_all_step,
    within,
};
use crate::text::{cat2, cat3, contains, ends_with, has_suffix, push_item};
use crate::value::{
    DbError, DbRow, DbRowView, DbValueView, ErrorView, add_context, no_params, one_param, out,
    string_of,
};
use vstd::prelude::*;

verus! {

/// Whether a file is a migration: its name is something and `.lua` behind it.
pub open spec fn is_migration(name: Seq<char>) -> bool {
    has_suffix(name, ".lua"@) && name.len() > 4
}

/// The names of migrations, in the order they are given.
pub open spec fn migrations_among(names: Seq<Seq<char>>) -> Seq<Seq<char>>
    decreases names.len(),
{
    if names.len() == 0 {
        Seq::empty()
    } else if is_migration(names.last()) {
        migrations_among(names.drop_last()).push(names.last())
    } else {
        migrations_among(names.drop_last())
    }
}

/// The migrations among the names of a directory's files, by name: they are named
/// so that this is the order they were written in.
pub fn migration_files(names: &Vec<String>) -> (r: Vec<String>)
    ensures
        r.deep_view() == sorted(migrations_among(names.deep_view())),
{
    let ghost all = names.deep_view();
    let mut found: Vec<String> = Vec::new();
    let mut i: usize = 0;
    assert(all.take(0) =~= Seq::<Seq<char>>::empty());
    assert(found.deep_view() =~= Seq::<Seq<char>>::empty());
    while i < names.len()
        invariant
            i <= names.len(),
            all == names.deep_view(),
            found.deep_view() == migrations_among(all.take(i as int)),
        decreases names.len() - i,
    {
        assert(all.take(i + 1).drop_last() =~= all.take(i as int));
        assert(all.take(i + 1).last() == names@[i as int]@);
        if ends_with(names[i].as_str(), ".lua") && names[i].as_str().unicode_len() > 4 {
            push_item(&mut found, names[i].clone());
        }
        i += 1;
    }
    assert(all.take(i as int) =~= all);
    sort_texts(&found)
}

/// The file names from the `i`-th row on, or the first error among them.
pub open spec fn filenames_from(rows: Seq<DbRowView>, i: int, done: Seq<Seq<char>>) -> Result<
    Seq<Seq<char>>,
    ErrorView,
>
    decreases rows.len() - i,
{
    if i < 0 || i >= rows.len() {
        Ok(done)
    } else {
        match string_of(rows[i], "filename"@) {
            Err(e) => Err(e),
            Ok(name) => filenames_from(rows, i + 1, done.push(name)),
        }
    }
}

fn read_filenames(rows: &Vec<DbRow>) -> (r: Result<Vec<String>, DbError>)
    ensures
        out(r) == filenames_from(rows.deep_view(), 0, Seq::empty()),
{
    let mut names: Vec<String> = Vec::new();
    assert(names.deep_view() =~= Seq::<Seq<char>>::empty());
    let mut i: usize = 0;
    while i < rows.len()
        invariant
            i <= rows.len(),
            filenames_from(rows.deep_view(), 0, Seq::empty()) == filenames_from(
                rows.deep_view(),
                i as int,
                names.deep_view(),
            ),
        decreases rows.len() - i,
    {
        assert(rows.deep_view()[i as int] == rows@[i as int].deep_view());
        let name = rows[i].get_string("filename")?;
        push_item(&mut names, name);
        i += 1;
    }
    Ok(names)
}

/// Reads recorded migrations with a statement; none, where nothing was ever
/// recorded.
pub open spec fn applied_step(s: SessionView, sql: Seq<char>) -> Step<Seq<Seq<char>>> {
    let (s1, connected) = connect_step(s, false);
    match connected {
        Err(e) => (s1, Err(e)),
        Ok(_) => {
            let (s2, exists) = table_exists_step(s1, "_crap_migrations"@);
            match exists {
                Err(e) => (s2, Err(e)),
                Ok(false) => (s2, Ok(Seq::empty())),
                Ok(true) => {
                    let (s3, rows) = query_all_step(s2, sql, Seq::empty());
                    (
                        s3,
                        match rows {
                            Err(e) => Err(e),
                            Ok(rows) => filenames_from(rows, 0, Seq::empty()),
                        },
                    )
                },
            }
        },
    }
}

fn read_applied(pool: &DbPool, conn: &mut Session, sql: &str) -> (r: Result<Vec<String>, DbError>)
    ensures
        (final(conn)@, out(r)) == applied_step(old(conn)@, sql@),
{
    pool.connect(conn, false)?;
    if !table_exists(conn, "_crap_migrations")? {
        let none: Vec<String> = Vec::new();
        assert(none.deep_view() =~= Seq::<Seq<char>>::empty());
        return Ok(none);
    }
    let rows = conn.query_all(sql.to_owned(), no_params())?;
    read_filenames(&rows)
}

/// The applied migrations, in no particular order.
pub fn get_applied_migrations(pool: &DbPool, conn: &mut Session) -> (r: Result<
    Vec<String>,
    DbError,
>)
    ensures
        (final(conn)@, out(r)) == applied_step(
            old(conn)@,
            "SELECT filename FROM _crap_migrations"@,
        ),
{
    read_applied(pool, conn, "SELECT filename FROM _crap_migrations")
}

/// The applied migrations, the latest first.
pub fn get_applied_migrations_desc(pool: &DbPool, conn: &mut Session) -> (r: Result<
    Vec<String>,
    DbError,
>)
    ensures
        (final(conn)@, out(r)) == applied_step(
            old(conn)@,
            "SELECT filename FROM _crap_migrations ORDER BY applied_at DESC, filename DESC"@,
        ),
{
    read_applied(
        pool,
        conn,
        "SELECT filename FROM _crap_migrations ORDER BY applied_at DESC, filename DESC",
    )
}

/// The files that are not among the applied ones, in order.
pub open spec fn pending_among(files: Seq<Seq<char>>, applied: Seq<Seq<char>>) -> Seq<Seq<char>>
    decreases files.len(),
{
    if files.len() == 0 {
        Seq::empty()
    } else if applied.contains(files.last()) {
        pending_among(files.drop_last(), applied)
    } else {
        pending_among(files.drop_last(), applied).push(files.last())
    }
}

/// Reads which of a directory's migrations are still to be applied.
pub open spec fn pending_step(s: SessionView, names: Seq<Seq<char>>) -> Step<Seq<Seq<char>>> {
    let (s1, applied) = applied_step(s, "SELECT filename FROM _crap_migrations"@);
    (
        s1,
        match applied {
            Err(e) => Err(e),
            Ok(applied) => Ok(pending_among(sorted(migrations_among(names)), applied)),
        },
    )
}

/// The migrations among the names of a directory's files that are still to be
/// applied, by name.
pub fn get_pending_migrations(pool: &DbPool, conn: &mut Session, names: &Vec<String>) -> (r: Result<
    Vec<String>,
    DbError,
>)
    ensures
        (final(conn)@, out(r)) == pending_step(old(conn)@, names.deep_view()),
{
    let files = migration_files(names);
    let applied = get_applied_migrations(pool, conn)?;
    let ghost all = files.deep_view();
    let mut pending: Vec<String> = Vec::new();
    let mut i: usize = 0;
    assert(all.take(0) =~= Seq::<Seq<char>>::empty());
    assert(pending.deep_view() =~= Seq::<Seq<char>>::empty());
    while i < files.len()
        invariant
            i <= files.len(),
            all == files.deep_view(),
            pending.deep_view() == pending_among(all.take(i as int), applied.deep_view()),
        decreases files.len() - i,
    {
        assert(all.take(i + 1).drop_last() =~= all.take(i as int));
        assert(all.take(i + 1).last() == files@[i as int]@);
        if !contains(&applied, files[i].as_str()) {
            push_item(&mut pending, files[i].clone());
        }
        i += 1;
    }
    assert(all.take(i as int) =~= all);
    Ok(pending)
}

/// Runs a statement on one file name.
pub open spec fn on_filename_step(s: SessionView, sql: Seq<char>, filename: Seq<char>) -> Step<()> {
    let (s1, r) = execute_step(s, sql, seq![DbValueView::Text(filename)]);
    (
        s1,
        match r {
            Ok(_) => Ok(()),
            Err(e) => Err(e),
        },
    )
}

/// The statement recording a migration.
pub open spec fn record_sql(dialect: Dialect) -> Seq<char> {
    "INSERT INTO _crap_migrations (filename) VALUES ("@ + placeholder_text(dialect, 1) + ")"@
}

/// The statement taking the record of a migration back.
pub open spec fn remove_sql(dialect: Dialect) -> Seq<char> {
    "DELETE FROM _crap_migrations WHERE filename = "@ + placeholder_text(dialect, 1)
}

/// Records a migration as applied.
pub open spec fn record_step(s: SessionView, filename: Seq<char>) -> Step<()> {
    within(
        on_filename_step(s, record_sql(s.dialect), filename),
        "Failed to record migration "@ + filename,
    )
}

/// Takes back that a migration was applied.
pub open spec fn remove_step(s: SessionView, filename: Seq<char>) -> Step<()> {
    within(
        on_filename_step(s, remove_sql(s.dialect), filename),
        "Failed to remove migration record "@ + filename,
    )
}

fn run_on_filename(conn: &mut Session, sql: String, filename: &str) -> (r: Result<(), DbError>)
    ensures
        (final(conn)@, out(r)) == on_filename_step(old(conn)@, sql@, filename@),
{
    conn.execute(sql, one_param(filename))?;
    Ok(())
}

/// Records a migration as applied.
pub fn record_migration(conn: &mut Session, filename: &str) -> (r: Result<(), DbError>)
    ensures
        (final(conn)@, out(r)) == record_step(old(conn)@, filename@),
{
    let p1 = placeholder(conn.dialect(), 1);
    let sql = cat3("INSERT INTO _crap_migrations (filename) VALUES (", p1.as_str(), ")");
    let recorded = run_on_filename(conn, sql, filename);
    add_context(recorded, cat2("Failed to record migration ", filename).as_str())
}

/// Takes back that a migration was applied.
pub fn remove_migration(conn: &mut Session, filename: &str) -> (r: Result<(), DbError>)
    ensures
        (final(conn)@, out(r)) == remove_step(old(conn)@, filename@),
{
    let p1 = placeholder(conn.dialect(), 1);
    let sql = cat2("DELETE FROM _crap_migrations WHERE filename = ", p1.as_str());
    let removed = run_on_filename(conn, sql, filename);
    add_context(removed, cat2("Failed to remove migration record ", filename).as_str())
}

/// Drops the tables from the `i`-th on.
pub open spec fn drop_tables_from(s: SessionView, tables: Seq<Seq<char>>, i: int) -> Step<()>
    decreases tables.len() - i,
{
    if i < 0 || i >= tables.len() {
        (s, Ok(()))
    } else {
        let (s1, r) = within(
            execute_step(s, "DROP TABLE IF EXISTS \""@ + tables[i] + "\""@, Seq::empty()),
            "Failed to drop table "@ + tables[i],
        );
        match r {
            Err(e) => (s1, Err(e)),
            Ok(_) => drop_tables_from(s1.noted("Dropped table: "@ + tables[i]), tables, i + 1),
        }
    }
}

/// Drops every table but the database's own.
pub open spec fn drop_tables_step(s: SessionView) -> Step<()> {
    let (s1, tables) = user_tables_step(s);
    match tables {
        Err(e) => (s1, Err(e)),
        Ok(tables) => drop_tables_from(s1, tables, 0),
    }
}

/// Drops every table but the database's own.
pub fn drop_tables(conn: &mut Session) -> (r: Result<(), DbError>)
    ensures
        (final(conn)@, out(r)) == drop_tables_step(old(conn)@),
{
    let tables = list_user_tables(conn)?;
    let ghost start = conn@;
    let ghost all = tables.deep_view();
    let mut i: usize = 0;
    while i < tables.len()
        invariant
            i <= tables.len(),
            all == tables.deep_view(),
            drop_tables_from(start, all, 0) == drop_tables_step(old(conn)@),
            drop_tables_from(start, all, 0) == drop_tables_from(conn@, all, i as int),
        decreases tables.len() - i,
    {
        assert(all[i as int] == tables@[i as int]@);
        let dropped = conn.execute(
            cat3("DROP TABLE IF EXISTS \"", tables[i].as_str(), "\""),
            no_params(),
        );
        add_context(dropped, cat2("Failed to drop table ", tables[i].as_str()).as_str())?;
        conn.note(cat2("Dropped table: ", tables[i].as_str()));
        i += 1;
    }
    Ok(())
}

/// Drops every table but the database's own over a pooled connection.
pub open spec fn drop_all_tables_step(s: SessionView) -> Step<()> {
    let (s1, connected) = connect_step(s, false);
    match connected {
        Err(e) => (s1, Err(e)),
        Ok(_) => drop_tables_step(s1),
    }
}

/// Drops every table but the database's own over a pooled connection.
pub fn drop_all_tables(pool: &DbPool, conn: &mut Session) -> (r: Result<(), DbError>)
    ensures
        (final(conn)@, out(r)) == drop_all_tables_step(old(conn)@),
{
    pool.connect(conn, false)?;
    drop_tables(conn)
}

proof fn migrations_among_holds(names: Seq<Seq<char>>, x: Seq<char>)
    ensures
        migrations_among(names).contains(x) <==> names.contains(x) && is_migration(x),
    decreases names.len(),
{
    if names.len() > 0 {
        let before = names.drop_last();
        migrations_among_holds(before, x);
        assert(names =~= before.push(names.last()));
        contains_pushed(before, names.last(), x);
        contains_pushed(migrations_among(before), names.last(), x);
    }
}

/// The migrations of a directory are its files that end in `.lua`, sorted.
pub proof fn migration_files_are_the_lua_files(names: Seq<Seq<char>>, x: Seq<char>)
    ensures
        sorted(migrations_among(names)).contains(x) <==> names.contains(x) && is_migration(x),
        is_sorted(sorted(migrations_among(names))),
{
    migrations_among_holds(names, x);
    sorted_holds_the_same(migrations_among(names), x);
    sorted_is_sorted(migrations_among(names));
}

proof fn pending_among_holds(files: Seq<Seq<char>>, applied: Seq<Seq<char>>, x: Seq<char>)
    ensures
        pending_among(files, applied).contains(x) <==> files.contains(x) && !applied.contains(x),
    decreases files.len(),
{
    if files.len() > 0 {
        let before = files.drop_last();
        pending_among_holds(before, applied, x);
        assert(files =~= before.push(files.last()));
        contains_pushed(before, files.last(), x);
        contains_pushed(pending_among(before, applied), files.last(), x);
    }
}

proof fn pending_among_comes_from(files: Seq<Seq<char>>, applied: Seq<Seq<char>>) -> (at: spec_fn(
    int,
) -> int)
    ensures
        forall|i: int|
            0 <= i < pending_among(files, applied).len() ==> 0 <= #[trigger] at(i) < files.len()
                && files[at(i)] == pending_among(files, applied)[i],
        forall|i: int, j: int|
            0 <= i < j < pending_among(files, applied).len() ==> #[trigger] at(i) < #[trigger] at(
                j,
            ),
    decreases files.len(),
{
    if files.len() == 0 {
        |i: int| 0int
    } else {
        let before = files.drop_last();
        let inner = pending_among_comes_from(before, applied);
        let m = pending_among(before, applied).len() as int;
        let last = files.len() - 1;
        |i: int|
            if i < m {
                inner(i)
            } else {
                last
            }
    }
}

/// What is pending is exactly what is among the files and was not applied, in the
/// order of the files.
pub proof fn pending_is_what_was_not_applied(
    names: Seq<Seq<char>>,
    applied: Seq<Seq<char>>,
    x: Seq<char>,
)
    ensures
        pending_among(sorted(migrations_among(names)), applied).contains(x) <==> names.contains(x)
            && is_migration(x) && !applied.contains(x),
        is_sorted(pending_among(sorted(migrations_among(names)), applied)),
{
    let files = sorted(migrations_among(names));
    migration_files_are_the_lua_files(names, x);
    pending_among_holds(files, applied, x);
    let pending = pending_among(files, applied);
    let at = pending_among_comes_from(files, applied);
    assert forall|i: int, j: int| 0 <= i <= j < pending.len() implies text_le(
        #[trigger] pending[i],
        #[trigger] pending[j],
    ) by {
        assert(files[at(i)] == pending[i]);
        assert(files[at(j)] == pending[j]);
        if i < j {
            assert(at(i) < at(j));
        }
    }
}

/// A migration that was applied is pending no more.
pub proof fn an_applied_migration_is_not_pending(s: SessionView, names: Seq<Seq<char>>, i: int)
    requires
        ({
            let applied = applied_step(s, "SELECT filename FROM _crap_migrations"@).1;
            applied is Ok && 0 <= i < applied->Ok_0.len()
        }),
    ensures
        pending_step(s, names).1 is Ok,
        !pending_step(s, names).1->Ok_0.contains(
            applied_step(s, "SELECT filename FROM _crap_migrations"@).1->Ok_0[i],
        ),
{
    let applied = applied_step(s, "SELECT filename FROM _crap_migrations"@).1->Ok_0;
    pending_is_what_was_not_applied(names, applied, applied[i]);
}

proof fn drops_go_on(s: SessionView, tables: Seq<Seq<char>>, i: int)
    requires
        0 <= i <= tables.len(),
    ensures
        drop_tables_from(s, tables, i).1 is Ok ==> {
            let sent = drop_tables_from(s, tables, i).0.sent;
            &&& sent.len() == s.sent.len() + tables.len() - i
            &&& s.sent.is_prefix_of(sent)
            &&& forall|k: int|
                i <= k < tables.len() ==> sent[s.sent.len() + k - i] == (RequestView::Execute {
                    sql: "DROP TABLE IF EXISTS \""@ + #[trigger] tables[k] + "\""@,
                    params: Seq::empty(),
                })
        },
    decreases tables.len() - i,
{
    if i < tables.len() {
        let (s1, r) = within(
            execute_step(s, "DROP TABLE IF EXISTS \""@ + tables[i] + "\""@, Seq::empty()),
            "Failed to drop table "@ + tables[i],
        );
        if r is Ok {
            let s2 = s1.noted("Dropped table: "@ + tables[i]);
            drops_go_on(s2, tables, i + 1);
            if drop_tables_from(s2, tables, i + 1).1 is Ok {
                let sent = drop_tables_from(s, tables, i).0.sent;
                assert(sent[s.sent.len() as int] == s1.sent[s.sent.len() as int]);
                assert(s.sent =~= sent.take(s.sent.len() as int));
            }
        }
    } else {
        assert(s.sent =~= s.sent.take(s.sent.len() as int));
    }
}

/// Dropping every table succeeds only when a drop was sent for every table there
/// is.
pub proof fn every_table_is_dropped(s: SessionView, k: int)
    requires
        drop_tables_step(s).1 is Ok,
        user_tables_step(s).1 is Ok,
        0 <= k < user_tables_step(s).1->Ok_0.len(),
    ensures
        drop_tables_step(s).0.sent.contains(
            RequestView::Execute {
                sql: "DROP TABLE IF EXISTS \""@ + user_tables_step(s).1->Ok_0[k] + "\""@,
                params: Seq::empty(),
            },
        ),
{
    let (s1, tables) = user_tables_step(s);
    let tables = tables->Ok_0;
    drops_go_on(s1, tables, 0);
    let sent = drop_tables_step(s).0.sent;
    assert(tables[k] == tables[k]);
    assert(sent[s1.sent.len() + k] == (RequestView::Execute {
        sql: "DROP TABLE IF EXISTS \""@ + tables[k] + "\""@,
        params: Seq::empty(),
    }));
}

/// What a table of records, by file name, that held `records` holds after a request it
/// gave an answer to: the name is unique in it. Nothing, where such a table does not
/// answer so.
pub open spec fn records_after_one(
    dialect: Dialect,
    records: Set<Seq<char>>,
    request: RequestView,
    reply: ReplyView,
) -> Option<Set<Seq<char>>> {
    match request {
        RequestView::Execute { sql, params } => if params.len() != 1 || !(params[0] is Text) {
            None
        } else {
            let name = params[0]->Text_0;
            if sql == record_sql(dialect) {
                if records.contains(name) {
                    if reply is Failed {
                        Some(records)
                    } else {
                        None
                    }
                } else if reply == ReplyView::Count(1) {
                    Some(records.insert(name))
                } else {
                    None
                }
            } else if sql == remove_sql(dialect) {
                let count: u64 = if records.contains(name) {
                    1
                } else {
                    0
                };
                if reply == ReplyView::Count(count) {
                    Some(records.remove(name))
                } else {
                    None
                }
            } else {
                None
            }
        },
        _ => None,
    }
}

/// What the table of records holds after the requests from the `i`-th on; nothing,
/// where one was not answered the way such a table does.
pub open spec fn records_after(
    dialect: Dialect,
    records: Set<Seq<char>>,
    sent: Seq<RequestView>,
    replies: Seq<ReplyView>,
    i: int,
) -> Option<Set<Seq<char>>>
    decreases sent.len() - i,
{
    if i < 0 || i >= sent.len() {
        Some(records)
    } else if i >= replies.len() {
        None
    } else {
        match records_after_one(dialect, records, sent[i], replies[i]) {
            None => None,
            Some(next) => records_after(dialect, next, sent, replies, i + 1),
        }
    }
}

/// What the table of records holds once a session has become `after`, if it answered
/// every request sent since `before`.
pub open spec fn records_between(
    before: SessionView,
    after: SessionView,
    records: Set<Seq<char>>,
) -> Option<Set<Seq<char>>> {
    records_after(before.dialect, records, after.sent, before.replies, before.sent.len() as int)
}

proof fn recording_is_not_removing(dialect: Dialect)
    ensures
        record_sql(dialect) != remove_sql(dialect),
{
    reveal_strlit("INSERT INTO _crap_migrations (filename) VALUES (");
    reveal_strlit("DELETE FROM _crap_migrations WHERE filename = ");
    assert(record_sql(dialect)[0] == 'I');
    assert(remove_sql(dialect)[0] == 'D');
}

/// A migration that was not recorded is recorded, and no other record is touched.
pub proof fn a_migration_is_recorded(
    s: SessionView,
    filename: Seq<char>,
    records: Set<Seq<char>>,
)
    requires
        !records.contains(filename),
        records_between(s, record_step(s, filename).0, records) is Some,
    ensures
        record_step(s, filename).1 is Ok,
        records_between(s, record_step(s, filename).0, records) == Some(records.insert(filename)),
{
    reveal_with_fuel(records_after, 3);
    let n = s.sent.len() as int;
    assert(record_step(s, filename).0.sent[n] == (RequestView::Execute {
        sql: record_sql(s.dialect),
        params: seq![DbValueView::Text(filename)],
    }));
}

/// A migration is recorded once: recording it again fails, the error names the file,
/// and the records stay as they were.
pub proof fn a_migration_is_recorded_once(
    s: SessionView,
    filename: Seq<char>,
    records: Set<Seq<char>>,
)
    requires
        records.contains(filename),
        records_between(s, record_step(s, filename).0, records) is Some,
    ensures
        record_step(s, filename).1 matches Err(ErrorView::Backend(m)) && (
        "Failed to record migration "@ + filename + ": "@).is_prefix_of(m),
        records_between(s, record_step(s, filename).0, records) == Some(records),
{
    reveal_with_fuel(records_after, 3);
    let n = s.sent.len() as int;
    assert(record_step(s, filename).0.sent[n] == (RequestView::Execute {
        sql: record_sql(s.dialect),
        params: seq![DbValueView::Text(filename)],
    }));
    let lead = "Failed to record migration "@ + filename + ": "@;
    let why = s.replies[n]->Failed_0;
    assert(lead =~= (lead + why).take(lead.len() as int));
}

/// A record that is taken back is gone, and no other is; where there was none, nothing
/// changes.
pub proof fn a_record_is_taken_back(s: SessionView, filename: Seq<char>, records: Set<Seq<char>>)
    requires
        records_between(s, remove_step(s, filename).0, records) is Some,
    ensures
        remove_step(s, filename).1 is Ok,
        records_between(s, remove_step(s, filename).0, records) == Some(records.remove(filename)),
        !records.contains(filename) ==> records_between(s, remove_step(s, filename).0, records)
            == Some(records),
{
    recording_is_not_removing(s.dialect);
    reveal_with_fuel(records_after, 3);
    let n = s.sent.len() as int;
    assert(remove_step(s, filename).0.sent[n] == (RequestView::Execute {
        sql: remove_sql(s.dialect),
        params: seq![DbValueView::Text(filename)],
    }));
    if !records.contains(filename) {
        assert(records.remove(filename) =~= records);
    }
}

/// A migration that is recorded and then taken back leaves the records as they were.
pub proof fn a_record_taken_back_leaves_no_trace(
    s: SessionView,
    filename: Seq<char>,
    records: Set<Seq<char>>,
)
    requires
        !records.contains(filename),
        records_between(s, remove_step(record_step(s, filename).0, filename).0, records) is Some,
    ensures
        record_step(s, filename).1 is Ok,
        remove_step(record_step(s, filename).0, filename).1 is Ok,
        records_between(s, remove_step(record_step(s, filename).0, filename).0, records) == Some(
            records,
        ),
{
    recording_is_not_removing(s.dialect);
    reveal_with_fuel(records_after, 4);
    let n = s.sent.len() as int;
    let s1 = record_step(s, filename).0;
    let s2 = remove_step(s1, filename).0;
    assert(s2.sent[n] == s1.sent[n]);
    assert(s1.sent[n] == (RequestView::Execute {
        sql: record_sql(s.dialect),
        params: seq![DbValueView::Text(filename)],
    }));
    assert(s2.sent[n + 1] == (RequestView::Execute {
        sql: remove_sql(s.dialect),
        params: seq![DbValueView::Text(filename)],
    }));
    assert(records.insert(filename).remove(filename) =~= records);
}

} // verus!
