//! Reading a table a page at a time.
//!
//! A conversion runs while the schema is locked, and must not hold a whole table
//! in memory. Each page starts behind the last id of the one before: a row that
//! is rewritten keeps its id, so none is seen twice and none is skipped.
use crate::migrate::helpers::introspection::{table_exists, table_exists_step};
use crate::names::{placeholder, placeholder_text, quote_ident, quoted};
use crate::session::{Dialect, Session, SessionView, Step, query_all_step, within};
use crate::text::{cat8, join, join_with, push_item};
use crate::value::{
    DbError, DbRow, DbRowView, DbValueView, ErrorView, add_context, no_params, one_param, out,
};
use vstd::prelude::*;

verus! {

/// Rows read per page.
pub const PAGE_SIZE: usize = 500;

/// What is read: `id` and the columns of a table, of the rows whose last column
/// holds a value.
#[derive(Debug)]
pub struct Scan {
    pub table: String,
    pub columns: Vec<String>,
    /// Whether rows marked as deleted are left out.
    pub active_only: bool,
}

/// The mathematical value of a [`Scan`].
#[verifier::ext_equal]
pub ghost struct ScanView {
    pub table: Seq<char>,
    pub columns: Seq<Seq<char>>,
    pub active_only: bool,
}

impl DeepView for Scan {
    type V = ScanView;

    open spec fn deep_view(&self) -> ScanView {
        ScanView {
            table: self.table@,
            columns: self.columns.deep_view(),
            active_only: self.active_only,
        }
    }
}

/// Some rows, and the id the next page starts behind.
#[derive(Debug)]
pub struct Page {
    pub rows: Vec<DbRow>,
    pub next: Option<String>,
}

/// The mathematical value of a [`Page`].
#[verifier::ext_equal]
pub ghost struct PageView {
    pub rows: Seq<DbRowView>,
    pub next: Option<Seq<char>>,
}

impl DeepView for Page {
    type V = PageView;

    open spec fn deep_view(&self) -> PageView {
        PageView { rows: self.rows.deep_view(), next: self.next.deep_view() }
    }
}

impl Scan {
    /// A scan of one column.
    pub fn of_column(table: &str, column: &str) -> (r: Scan)
        ensures
            r.deep_view() == (ScanView {
                table: table@,
                columns: seq![column@],
                active_only: false,
            }),
    {
        let columns = vec![column.to_owned()];
        assert(columns.deep_view() =~= seq![column@]);
        Scan { table: table.to_owned(), columns, active_only: false }
    }

    /// A scan of two columns.
    pub fn of_columns(table: &str, first: &str, second: &str) -> (r: Scan)
        ensures
            r.deep_view() == (ScanView {
                table: table@,
                columns: seq![first@, second@],
                active_only: false,
            }),
    {
        let columns = vec![first.to_owned(), second.to_owned()];
        assert(columns.deep_view() =~= seq![first@, second@]);
        Scan { table: table.to_owned(), columns, active_only: false }
    }
}

/// Every name as a quoted identifier.
pub open spec fn all_quoted(names: Seq<Seq<char>>) -> Seq<Seq<char>> {
    Seq::new(names.len(), |i: int| quoted(names[i]))
}

fn quote_all(names: &Vec<String>) -> (r: Vec<String>)
    ensures
        r.deep_view() == all_quoted(names.deep_view()),
{
    let ghost wanted = all_quoted(names.deep_view());
    let mut done: Vec<String> = Vec::new();
    let mut i: usize = 0;
    while i < names.len()
        invariant
            i <= names.len(),
            wanted == all_quoted(names.deep_view()),
            done.deep_view() =~= wanted.take(i as int),
        decreases names.len() - i,
    {
        assert(names.deep_view()[i as int] == names@[i as int]@);
        push_item(&mut done, quote_ident(names[i].as_str()));
        i += 1;
    }
    assert(done.deep_view() =~= wanted);
    done
}

/// The statement reading the page behind an id, or the first.
pub open spec fn page_sql(dialect: Dialect, scan: ScanView, after: Option<Seq<char>>) -> Seq<char> {
    "SELECT id, "@ + join(all_quoted(scan.columns), ", "@) + " FROM "@ + quoted(scan.table)
        + " WHERE "@ + quoted(scan.columns.last()) + " IS NOT NULL"@ + (if scan.active_only {
        " AND _deleted_at IS NULL"@
    } else {
        ""@
    }) + (match after {
        Some(_) => " AND id > "@ + placeholder_text(dialect, 1),
        None => ""@,
    }) + " ORDER BY id LIMIT 500"@
}

/// The id the page behind these rows starts behind: there is one where the page
/// is full.
pub open spec fn next_after(rows: Seq<DbRowView>) -> Option<Seq<char>> {
    if rows.len() < PAGE_SIZE {
        None
    } else {
        rows.last().text_at(0)
    }
}

/// Reads one page.
pub open spec fn page_step(s: SessionView, scan: ScanView, after: Option<Seq<char>>) -> Step<
    PageView,
> {
    let (s1, rows) = within(
        query_all_step(
            s,
            page_sql(s.dialect, scan, after),
            match after {
                Some(id) => seq![DbValueView::Text(id)],
                None => Seq::empty(),
            },
        ),
        "Failed to read "@ + scan.table,
    );
    (
        s1,
        match rows {
            Err(e) => Err(e),
            Ok(rows) => Ok(PageView { rows, next: next_after(rows) }),
        },
    )
}

fn read_page(conn: &mut Session, scan: &Scan, after: Option<&str>) -> (r: Result<Page, DbError>)
    requires
        scan.columns@.len() > 0,
    ensures
        (final(conn)@, out(r)) == page_step(
            old(conn)@,
            scan.deep_view(),
            match after {
                Some(id) => Some(id@),
                None => None,
            },
        ),
{
    let n: usize = scan.columns.len();
    assert(scan.columns.deep_view().last() == scan.columns@[n - 1]@);
    let required = quote_ident(scan.columns[n - 1].as_str());
    let selected = join_with(&quote_all(&scan.columns), ", ");
    let table = quote_ident(scan.table.as_str());
    let mut sql = cat8(
        "SELECT id, ",
        selected.as_str(),
        " FROM ",
        table.as_str(),
        " WHERE ",
        required.as_str(),
        " IS NOT NULL",
        if scan.active_only {
            " AND _deleted_at IS NULL"
        } else {
            ""
        },
    );
    let params = match after {
        Some(id) => {
            let p1 = placeholder(conn.dialect(), 1);
            let clause = crate::text::cat2(" AND id > ", p1.as_str());
            sql.append(clause.as_str());
            one_param(id)
        },
        None => {
            sql.append("");
            no_params()
        },
    };
    sql.append(" ORDER BY id LIMIT 500");
    let read = conn.query_all(sql, params);
    let rows = add_context(read, crate::text::cat2("Failed to read ", scan.table.as_str()).as_str())?;
    let next = if rows.len() < PAGE_SIZE {
        None
    } else {
        assert(rows.deep_view().last() == rows@[rows.len() - 1].deep_view());
        rows[rows.len() - 1].text_at(0)
    };
    Ok(Page { rows, next })
}

/// Reads the first page. A table that does not exist has no rows, and neither
/// does a scan of no column.
pub open spec fn first_page_step(s: SessionView, scan: ScanView) -> Step<PageView> {
    if scan.columns.len() == 0 {
        (s, Ok(PageView { rows: Seq::empty(), next: None }))
    } else {
        let (s1, exists) = table_exists_step(s, scan.table);
        match exists {
            Err(e) => (s1, Err(e)),
            Ok(false) => (s1, Ok(PageView { rows: Seq::empty(), next: None })),
            Ok(true) => page_step(s1, scan, None),
        }
    }
}

fn empty_page() -> (r: Page)
    ensures
        r.deep_view() == (PageView { rows: Seq::empty(), next: None }),
{
    let rows: Vec<DbRow> = Vec::new();
    assert(rows.deep_view() =~= Seq::<DbRowView>::empty());
    Page { rows, next: None }
}

/// The first page of a scan, by id.
pub fn first_page(conn: &mut Session, scan: &Scan) -> (r: Result<Page, DbError>)
    ensures
        (final(conn)@, out(r)) == first_page_step(old(conn)@, scan.deep_view()),
{
    if scan.columns.len() == 0 {
        return Ok(empty_page());
    }
    if !table_exists(conn, scan.table.as_str())? {
        return Ok(empty_page());
    }
    read_page(conn, scan, None)
}

/// Reads the page behind an id.
pub open spec fn next_page_step(s: SessionView, scan: ScanView, after: Seq<char>) -> Step<
    PageView,
> {
    if scan.columns.len() == 0 {
        (s, Ok(PageView { rows: Seq::empty(), next: None }))
    } else {
        page_step(s, scan, Some(after))
    }
}

/// The page of a scan behind an id.
pub fn next_page(conn: &mut Session, scan: &Scan, after: &str) -> (r: Result<Page, DbError>)
    ensures
        (final(conn)@, out(r)) == next_page_step(old(conn)@, scan.deep_view(), after@),
{
    if scan.columns.len() == 0 {
        return Ok(empty_page());
    }
    read_page(conn, scan, Some(after))
}

/// The statement storing a converted value (the first parameter) in a column of
/// the row with an id (the second).
pub open spec fn update_sql(dialect: Dialect, table: Seq<char>, column: Seq<char>) -> Seq<char> {
    "UPDATE "@ + quoted(table) + " SET "@ + quoted(column) + " = "@ + placeholder_text(dialect, 1)
        + " WHERE id = "@ + placeholder_text(dialect, 2)
}

/// The statement storing a converted value (the first parameter) in a column of
/// the row with an id (the second).
pub fn update_by_id(dialect: Dialect, table: &str, column: &str) -> (r: String)
    ensures
        r@ == update_sql(dialect, table@, column@),
{
    let table = quote_ident(table);
    let column = quote_ident(column);
    let p1 = placeholder(dialect, 1);
    let p2 = placeholder(dialect, 2);
    cat8(
        "UPDATE ",
        table.as_str(),
        " SET ",
        column.as_str(),
        " = ",
        p1.as_str(),
        " WHERE id = ",
        p2.as_str(),
    )
}

/// The rows of the page that starts at the `k`-th row of a table.
pub open spec fn page_at(all: Seq<DbRowView>, k: int) -> Seq<DbRowView> {
    all.subrange(
        k,
        if k + PAGE_SIZE < all.len() {
            k + PAGE_SIZE
        } else {
            all.len() as int
        },
    )
}

/// The rows a walk comes by that reads the page at the `k`-th row and goes on behind
/// its last id for as long as there is a next page.
pub open spec fn walked_from(all: Seq<DbRowView>, k: int) -> Seq<DbRowView>
    decreases all.len() - k,
{
    if k < 0 || k > all.len() {
        Seq::empty()
    } else {
        match next_after(page_at(all, k)) {
            None => page_at(all, k),
            Some(_) => page_at(all, k) + walked_from(all, k + PAGE_SIZE),
        }
    }
}

/// A walk over the pages of a table comes by every row once and in order, however
/// many pages it takes. A page's rows are those that stand behind the last id of the
/// page before, so the next starts where that one ended.
pub proof fn a_walk_visits_every_row_once(all: Seq<DbRowView>, k: int)
    requires
        0 <= k <= all.len(),
        forall|i: int| 0 <= i < all.len() ==> (#[trigger] all[i]).text_at(0) is Some,
    ensures
        walked_from(all, k) == all.skip(k),
    decreases all.len() - k,
{
    let page = page_at(all, k);
    if k + PAGE_SIZE <= all.len() {
        assert(page.last() == all[k + PAGE_SIZE - 1]);
        a_walk_visits_every_row_once(all, k + PAGE_SIZE);
        assert(page + all.skip(k + PAGE_SIZE) =~= all.skip(k));
    } else {
        assert(page =~= all.skip(k));
    }
}

/// A table that is not there has no rows, and nothing is read from it.
pub proof fn a_missing_table_has_no_rows(s: SessionView, scan: ScanView)
    requires
        table_exists_step(s, scan.table).1 == Ok::<bool, ErrorView>(false),
    ensures
        first_page_step(s, scan).1 == Ok::<PageView, ErrorView>(
            PageView { rows: Seq::empty(), next: None },
        ),
{
}

} // verus!
