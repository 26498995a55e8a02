//! What is particular to Postgres.
use crate::names::{placeholder, placeholder_text};
use crate::pool::{DatabaseConfig, DbPool};
use crate::session::{Dialect, Request, RequestView, Session, SessionView, Step, ask_done, within};
use crate::text::{
    cat2, cat3, cat4, cat5, cat7, cat9, decimal, decimal_text, join, join_with, push_item, same,
};
use crate::value::{DbError, DbRow, DbRowView, DbValue, DbValueView, ErrorView, add_context, out};
use vstd::prelude::*;

verus! {

/// What `tokio_postgres` finds wrong with the text of an address, if anything.
pub uninterp spec fn address_fault(url: Seq<char>) -> Option<Seq<char>>;

/// Has `tokio_postgres` read an address, by `<tokio_postgres::Config as
/// FromStr>::from_str`,
/// and says what it found wrong: the error's text and its cause's, or nothing where it
/// read it. The parser looks at the text alone, in the way of the platform the program
/// is built for: an escaped host that is not UTF-8 is a path on Unix. What it makes of
/// the address is left unsaid: the pool reads it again.
#[verifier::external_body]
fn fault_of(url: &str) -> (r: Option<String>)
    ensures
        r.deep_view() == address_fault(url@),
{
    match url.parse::<tokio_postgres::Config>() {
        Ok(_) => None,
        Err(e) => match std::error::Error::source(&e) {
            Some(cause) => Some(format!("{e}: {cause}")),
            None => Some(format!("{e}")),
        },
    }
}

/// Opens a pool at an address that has a fault or none.
pub open spec fn open_pool_step(
    s: SessionView,
    url: Seq<char>,
    max_size: u64,
    fault: Option<Seq<char>>,
) -> Step<Dialect> {
    match fault {
        Some(fault) => (s, Err(ErrorView::Refused("Invalid postgres URL: "@ + fault))),
        None => {
            let (s1, opened) = within(
                ask_done(s, RequestView::OpenPostgresPool { url, max_size }),
                "Failed to create Postgres connection pool"@,
            );
            match opened {
                Err(e) => (s1, Err(e)),
                Ok(_) => (
                    s1.noted(
                        "Postgres pool created (max_size="@ + decimal(max_size as nat)
                            + ", statement cache enabled)"@,
                    ),
                    Ok(Dialect::Postgres),
                ),
            }
        },
    }
}

/// Opens a pool at an address, refused where something was found wrong with it.
pub fn open_pool(conn: &mut Session, url: &str, max_size: u64, fault: Option<String>) -> (r: Result<
    DbPool,
    DbError,
>)
    ensures
        (final(conn)@, out(r)) == open_pool_step(old(conn)@, url@, max_size, fault.deep_view()),
{
    if let Some(fault) = fault {
        return Err(DbError::Refused(cat2("Invalid postgres URL: ", fault.as_str())));
    }
    let opened = conn.ask_done(Request::OpenPostgresPool { url: url.to_owned(), max_size });
    add_context(opened, "Failed to create Postgres connection pool")?;
    let size = decimal_text(max_size);
    conn.note(
        cat3(
            "Postgres pool created (max_size=",
            size.as_str(),
            ", statement cache enabled)",
        ),
    );
    Ok(DbPool::from_backend(Dialect::Postgres))
}

/// Opens the one pool of a Postgres database.
pub open spec fn create_pool_step(s: SessionView, config: DatabaseConfig) -> Step<Dialect> {
    match config.url {
        None => (s, Err(ErrorView::Refused("database.url is required for postgres backend"@))),
        Some(url) => open_pool_step(
            s,
            url@,
            config.pool_max_size as u64,
            address_fault(url@),
        ),
    }
}

/// Opens the one pool of a Postgres database, whose address must be configured and be
/// one.
pub fn create_pool(conn: &mut Session, config: &DatabaseConfig) -> (r: Result<DbPool, DbError>)
    ensures
        (final(conn)@, out(r)) == create_pool_step(old(conn)@, *config),
{
    match &config.url {
        None => Err(
            DbError::Refused("database.url is required for postgres backend".to_owned()),
        ),
        Some(url) => {
            let fault = fault_of(url.as_str());
            open_pool(conn, url.as_str(), config.pool_max_size as u64, fault)
        },
    }
}

/// A name between double quotes.
pub open spec fn between_quotes(name: Seq<char>) -> Seq<char> {
    "\""@ + name + "\""@
}

/// What an upsert stores in a column: what the insert would have stored.
pub open spec fn excluded(column: Seq<char>) -> Seq<char> {
    "\""@ + column + "\" = EXCLUDED.\""@ + column + "\""@
}

/// The columns, each between double quotes.
pub open spec fn quoted_columns(columns: Seq<Seq<char>>) -> Seq<Seq<char>> {
    Seq::new(columns.len(), |i: int| between_quotes(columns[i]))
}

/// What an upsert stores in the columns that are not its key.
pub open spec fn updates(columns: Seq<Seq<char>>, key: Seq<char>) -> Seq<Seq<char>>
    decreases columns.len(),
{
    if columns.len() == 0 {
        Seq::empty()
    } else {
        let before = updates(columns.drop_last(), key);
        if columns.last() == key {
            before
        } else {
            before.push(excluded(columns.last()))
        }
    }
}

/// An insert that updates the row that has its key.
pub open spec fn upsert(
    table: Seq<char>,
    columns: Seq<Seq<char>>,
    values: Seq<char>,
    key: Seq<char>,
) -> Seq<char> {
    "INSERT INTO \""@ + table + "\" ("@ + join(quoted_columns(columns), ", "@) + ") VALUES ("@
        + values + ") ON CONFLICT (\""@ + key + "\") DO UPDATE SET "@ + join(
        updates(columns, key),
        ", "@,
    )
}

fn quote_columns(columns: &Vec<String>) -> (r: Vec<String>)
    ensures
        r.deep_view() == quoted_columns(columns.deep_view()),
{
    let ghost wanted = quoted_columns(columns.deep_view());
    let mut quoted: Vec<String> = Vec::new();
    let mut i: usize = 0;
    while i < columns.len()
        invariant
            i <= columns.len(),
            wanted == quoted_columns(columns.deep_view()),
            quoted.deep_view() =~= wanted.take(i as int),
        decreases columns.len() - i,
    {
        assert(columns.deep_view()[i as int] == columns@[i as int]@);
        push_item(&mut quoted, cat3("\"", columns[i].as_str(), "\""));
        i += 1;
    }
    assert(quoted.deep_view() =~= wanted);
    quoted
}

fn column_updates(columns: &Vec<String>, key: &str) -> (r: Vec<String>)
    ensures
        r.deep_view() == updates(columns.deep_view(), key@),
{
    let ghost all = columns.deep_view();
    let mut found: Vec<String> = Vec::new();
    let mut i: usize = 0;
    assert(all.take(0) =~= Seq::<Seq<char>>::empty());
    assert(found.deep_view() =~= Seq::<Seq<char>>::empty());
    while i < columns.len()
        invariant
            i <= columns.len(),
            all == columns.deep_view(),
            found.deep_view() == updates(all.take(i as int), key@),
        decreases columns.len() - i,
    {
        assert(all.take(i + 1).drop_last() =~= all.take(i as int));
        assert(all.take(i + 1).last() == columns@[i as int]@);
        let column = columns[i].as_str();
        if !same(column, key) {
            push_item(&mut found, cat5("\"", column, "\" = EXCLUDED.\"", column, "\""));
        }
        i += 1;
    }
    assert(all.take(i as int) =~= all);
    found
}

/// The SQL that Postgres writes in its own way.
#[derive(Debug, Clone, Copy, PartialEq, Eq, Structural)]
pub struct PgConnection;

impl PgConnection {
    /// The `n`-th parameter of a statement.
    pub fn placeholder(&self, n: u64) -> (r: String)
        ensures
            r@ == placeholder_text(Dialect::Postgres, n as nat),
    {
        placeholder(Dialect::Postgres, n)
    }

    /// The present time, as stored.
    pub fn now_expr(&self) -> (r: &'static str)
        ensures
            r@ == "to_char(NOW(), 'YYYY-MM-DD\"T\"HH24:MI:SS.MS\"Z\"')"@,
    {
        "to_char(NOW(), 'YYYY-MM-DD\"T\"HH24:MI:SS.MS\"Z\"')"
    }

    /// The greater of two expressions.
    pub fn greatest_expr(&self, a: &str, b: &str) -> (r: String)
        ensures
            r@ == "GREATEST("@ + a@ + ", "@ + b@ + ")"@,
    {
        cat5("GREATEST(", a, ", ", b, ")")
    }

    /// The word for this kind of database.
    pub fn kind(&self) -> (r: &'static str)
        ensures
            r@ == Dialect::Postgres.word(),
    {
        Dialect::Postgres.kind()
    }

    /// The time some seconds from now, as stored, with the seconds taken from a
    /// parameter. Beside the expression stands the parameter, which has to be sent
    /// as a floating-point number.
    pub fn date_offset_expr(&self, seconds: i64, param_pos: u64) -> (r: (String, i64))
        ensures
            r.0@ == "to_char(NOW() + make_interval(secs => "@ + placeholder_text(
                Dialect::Postgres,
                param_pos as nat,
            ) + "), 'YYYY-MM-DD\"T\"HH24:MI:SS.MS\"Z\"')"@,
            r.1 == seconds,
    {
        let param = placeholder(Dialect::Postgres, param_pos);
        let sql = cat3(
            "to_char(NOW() + make_interval(secs => ",
            param.as_str(),
            "), 'YYYY-MM-DD\"T\"HH24:MI:SS.MS\"Z\"')",
        );
        (sql, seconds)
    }

    /// The text of one field of a JSON column.
    pub fn json_extract_expr(&self, column: &str, field: &str) -> (r: String)
        ensures
            r@ == column@ + "::jsonb->>'"@ + field@ + "'"@,
    {
        cat4(column, "::jsonb->>'", field, "'")
    }

    /// The items of a JSON list, as a source of rows.
    pub fn json_each_source(&self, source: &str, alias: &str) -> (r: String)
        ensures
            r@ == "jsonb_array_elements_text("@ + source@ + ") AS "@ + alias@,
    {
        cat4("jsonb_array_elements_text(", source, ") AS ", alias)
    }

    /// An insert that leaves a row that is there already alone.
    pub fn build_insert_ignore(&self, table: &str, columns: &str, values: &str) -> (r: String)
        ensures
            r@ == "INSERT INTO \""@ + table@ + "\" ("@ + columns@ + ") VALUES ("@ + values@
                + ") ON CONFLICT DO NOTHING"@,
    {
        cat7(
            "INSERT INTO \"",
            table,
            "\" (",
            columns,
            ") VALUES (",
            values,
            ") ON CONFLICT DO NOTHING",
        )
    }

    /// An insert that updates every other column of the row that has its key.
    pub fn build_upsert(
        &self,
        table: &str,
        columns: &Vec<String>,
        values: &str,
        key_col: &str,
    ) -> (r: String)
        ensures
            r@ == upsert(table@, columns.deep_view(), values@, key_col@),
    {
        let names = join_with(&quote_columns(columns), ", ");
        let changes = join_with(&column_updates(columns, key_col), ", ");
        let mut sql = cat9(
            "INSERT INTO \"",
            table,
            "\" (",
            names.as_str(),
            ") VALUES (",
            values,
            ") ON CONFLICT (\"",
            key_col,
            "\") DO UPDATE SET ",
        );
        sql.append(changes.as_str());
        sql
    }

    /// Whether there is full-text search.
    pub fn supports_fts(&self) -> (r: bool)
        ensures
            r,
    {
        true
    }

    /// The operator matching a pattern whatever the case.
    pub fn like_operator(&self) -> (r: &'static str)
        ensures
            r@ == "ILIKE"@,
    {
        "ILIKE"
    }

    /// Whether a column can be dropped.
    pub fn supports_drop_column(&self) -> (r: bool)
        ensures
            r,
    {
        true
    }

    /// Refuses to write a copy of the database to a file: that takes a tool of
    /// Postgres's own.
    pub fn vacuum_into(&self, dest: &str) -> (r: Result<(), DbError>)
        ensures
            out(r) == Err::<(), ErrorView>(
                ErrorView::Refused(
                    "VACUUM INTO is not supported for PostgreSQL. Use pg_dump for database backups."@,
                ),
            ),
    {
        Err(
            DbError::Refused(
                "VACUUM INTO is not supported for PostgreSQL. Use pg_dump for database backups.".to_owned(),
            ),
        )
    }

    /// The endings of the files that lie beside the database's: there are none.
    pub fn sidecar_extensions(&self) -> (r: Vec<String>)
        ensures
            r@.len() == 0,
    {
        Vec::new()
    }

    /// A timestamp as it is compared with stored ones: as it is.
    pub fn normalize_timestamp(&self, ts: &str) -> (r: String)
        ensures
            r@ == ts@,
    {
        ts.to_owned()
    }
}

/// A value as Postgres sends it, by its type. No value stands for null and for
/// what could not be read as its type.
#[derive(Debug, Clone, PartialEq, Eq)]
pub enum PgCell {
    Bool(Option<bool>),
    Int2(Option<i16>),
    Int4(Option<i32>),
    Int8(Option<i64>),
    /// A number of either floating-point type, as the bit pattern of the wider.
    Float(Option<u64>),
    Bytes(Option<Vec<u8>>),
    /// A JSON value, printed.
    Json(Option<String>),
    /// A value of any other type.
    Text(Option<String>),
}

impl PgCell {
    /// The value a cell stands for.
    pub open spec fn value(self) -> DbValueView {
        match self {
            PgCell::Bool(Some(b)) => DbValueView::Integer(
                if b {
                    1
                } else {
                    0
                },
            ),
            PgCell::Int2(Some(n)) => DbValueView::Integer(n as i64),
            PgCell::Int4(Some(n)) => DbValueView::Integer(n as i64),
            PgCell::Int8(Some(n)) => DbValueView::Integer(n),
            PgCell::Float(Some(bits)) => DbValueView::Real(bits),
            PgCell::Bytes(Some(bytes)) => DbValueView::Blob(bytes@),
            PgCell::Json(Some(text)) => DbValueView::Text(text@),
            PgCell::Text(Some(text)) => DbValueView::Text(text@),
            _ => DbValueView::Null,
        }
    }
}

/// The value a cell stands for: truth as one and zero, every integer as the
/// widest, JSON as its text.
pub fn pg_column_to_dbvalue(cell: PgCell) -> (r: DbValue)
    ensures
        r.deep_view() == cell.value(),
{
    match cell {
        PgCell::Bool(Some(b)) => DbValue::Integer(
            if b {
                1
            } else {
                0
            },
        ),
        PgCell::Int2(Some(n)) => DbValue::Integer(n as i64),
        PgCell::Int4(Some(n)) => DbValue::Integer(n as i64),
        PgCell::Int8(Some(n)) => DbValue::Integer(n),
        PgCell::Float(Some(bits)) => DbValue::Real(bits),
        PgCell::Bytes(Some(bytes)) => DbValue::Blob(bytes),
        PgCell::Json(Some(text)) => DbValue::Text(text),
        PgCell::Text(Some(text)) => DbValue::Text(text),
        _ => DbValue::Null,
    }
}

/// A row of Postgres: the columns' names, and the value of the cell under each.
pub fn pg_row_to_dbrow(row: Vec<(String, PgCell)>) -> (r: DbRow)
    ensures
        r.deep_view() == (DbRowView {
            columns: Seq::new(row@.len(), |i: int| row@[i].0@),
            values: Seq::new(row@.len(), |i: int| row@[i].1.value()),
        }),
{
    let ghost wanted = row@;
    let mut columns: Vec<String> = Vec::new();
    let mut values: Vec<DbValue> = Vec::new();
    for (name, cell) in iter: row
        invariant
            iter.seq() == wanted,
            columns.deep_view() =~= Seq::new(iter.index() as nat, |i: int| wanted[i].0@),
            values.deep_view() =~= Seq::new(iter.index() as nat, |i: int| wanted[i].1.value()),
    {
        push_item(&mut columns, name);
        push_item(&mut values, pg_column_to_dbvalue(cell));
    }
    DbRow::new(columns, values)
}

/// The texts of a list of statements.
pub open spec fn statement_texts<T>(entries: Seq<(String, T)>) -> Seq<Seq<char>> {
    Seq::new(entries.len(), |i: int| entries[i].0@)
}

/// The statements a connection has prepared, each under its text.
///
/// Preparing a statement costs a round trip, and what is prepared belongs to its
/// connection, so the cache stays with the connection for as long as it lives.
pub struct CachedClient<T> {
    entries: Vec<(String, T)>,
}

impl<T> View for CachedClient<T> {
    type V = Map<Seq<char>, T>;

    closed spec fn view(&self) -> Map<Seq<char>, T> {
        let texts = statement_texts(self.entries@);
        Map::new(
            |text: Seq<char>| texts.contains(text),
            |text: Seq<char>| self.entries@[texts.index_of(text)].1,
        )
    }
}

impl<T> CachedClient<T> {
    /// No text is there twice.
    #[verifier::type_invariant]
    closed spec fn well_formed(self) -> bool {
        statement_texts(self.entries@).no_duplicates()
    }

    /// A cache with no statement.
    pub fn new() -> (r: CachedClient<T>)
        ensures
            r@ == Map::<Seq<char>, T>::empty(),
    {
        let r = CachedClient { entries: Vec::new() };
        assert(r@ =~= Map::<Seq<char>, T>::empty());
        r
    }

    fn position(&self, sql: &str) -> (r: Option<usize>)
        ensures
            match r {
                Some(i) => i < self.entries@.len() && self.entries@[i as int].0@ == sql@,
                None => !statement_texts(self.entries@).contains(sql@),
            },
    {
        let mut i: usize = 0;
        while i < self.entries.len()
            invariant
                i <= self.entries@.len(),
                forall|k: int| 0 <= k < i ==> statement_texts(self.entries@)[k] != sql@,
            decreases self.entries@.len() - i,
        {
            if same(self.entries[i].0.as_str(), sql) {
                return Some(i);
            }
            i += 1;
        }
        None
    }

    /// The statement prepared from a text, if it was.
    pub fn prepared(&self, sql: &str) -> (r: Option<&T>)
        ensures
            match r {
                Some(statement) => self@.dom().contains(sql@) && *statement == self@[sql@],
                None => !self@.dom().contains(sql@),
            },
    {
        proof {
            use_type_invariant(self);
        }
        match self.position(sql) {
            Some(i) => {
                assert(statement_texts(self.entries@)[i as int] == sql@);
                Some(&self.entries[i].1)
            },
            None => None,
        }
    }

    /// Keeps the statement prepared from a text.
    pub fn keep(&mut self, sql: &str, statement: T)
        ensures
            final(self)@ == old(self)@.insert(sql@, statement),
    {
        proof {
            use_type_invariant(&*self);
        }
        let found = self.position(sql);
        let mut entries: Vec<(String, T)> = Vec::new();
        core::mem::swap(&mut entries, &mut self.entries);
        let ghost before = entries@;
        let ghost texts = statement_texts(before);
        match found {
            Some(i) => {
                entries.set(i, (sql.to_owned(), statement));
                assert(statement_texts(entries@) =~= texts);
                assert(texts[i as int] == sql@);
            },
            None => {
                entries.push((sql.to_owned(), statement));
                assert(statement_texts(entries@) =~= texts.push(sql@));
                assert(texts.push(sql@)[texts.len() as int] == sql@);
                assert forall|text: Seq<char>| #[trigger] texts.contains(text) implies texts.push(
                    sql@,
                ).contains(text) && texts.push(sql@).index_of(text) == texts.index_of(text) by {
                    assert(texts.push(sql@)[texts.index_of(text)] == text);
                }
            },
        }
        *self = CachedClient { entries };
        assert(self@ =~= old(self)@.insert(sql@, statement));
    }
}

} // verus!
