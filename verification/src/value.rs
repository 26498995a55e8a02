//! The values and rows a database hands out, and the errors it or this library
//! reports.
use crate::text::{copy_texts, push_item, same};
use vstd::prelude::*;

verus! {

/// One stored value.
#[derive(Debug, Clone, PartialEq, Eq)]
pub enum DbValue {
    Null,
    Integer(i64),
    /// A floating-point number, as its IEEE 754 bit pattern.
    Real(u64),
    Text(String),
    Blob(Vec<u8>),
}

/// The mathematical value of a [`DbValue`].
#[verifier::ext_equal]
pub ghost enum DbValueView {
    Null,
    Integer(i64),
    Real(u64),
    Text(Seq<char>),
    Blob(Seq<u8>),
}

impl DeepView for DbValue {
    type V = DbValueView;

    open spec fn deep_view(&self) -> DbValueView {
        match self {
            DbValue::Null => DbValueView::Null,
            DbValue::Integer(n) => DbValueView::Integer(*n),
            DbValue::Real(bits) => DbValueView::Real(*bits),
            DbValue::Text(s) => DbValueView::Text(s@),
            DbValue::Blob(b) => DbValueView::Blob(b@),
        }
    }
}

impl DbValue {
    /// Another value equal to this one.
    pub fn copy(&self) -> (r: DbValue)
        ensures
            r.deep_view() == self.deep_view(),
    {
        match self {
            DbValue::Null => DbValue::Null,
            DbValue::Integer(n) => DbValue::Integer(*n),
            DbValue::Real(bits) => DbValue::Real(*bits),
            DbValue::Text(s) => DbValue::Text(s.clone()),
            DbValue::Blob(b) => {
                let mut bytes: Vec<u8> = Vec::new();
                let mut i: usize = 0;
                while i < b.len()
                    invariant
                        i <= b.len(),
                        bytes@ == b@.take(i as int),
                    decreases b.len() - i,
                {
                    bytes.push(b[i]);
                    assert(b@.take(i + 1) =~= b@.take(i as int).push(b@[i as int]));
                    i += 1;
                }
                assert(b@.take(i as int) =~= b@);
                DbValue::Blob(bytes)
            },
        }
    }
}

/// A text parameter.
pub fn text_value(s: &str) -> (r: DbValue)
    ensures
        r.deep_view() == DbValueView::Text(s@),
{
    DbValue::Text(s.to_owned())
}

/// No parameters.
pub fn no_params() -> (r: Vec<DbValue>)
    ensures
        r.deep_view() == Seq::<DbValueView>::empty(),
{
    let r: Vec<DbValue> = Vec::new();
    assert(r.deep_view() =~= Seq::<DbValueView>::empty());
    r
}

/// One text parameter.
pub fn one_param(a: &str) -> (r: Vec<DbValue>)
    ensures
        r.deep_view() == seq![DbValueView::Text(a@)],
{
    let r = vec![text_value(a)];
    assert(r.deep_view() =~= seq![DbValueView::Text(a@)]);
    r
}

/// Two text parameters.
pub fn two_params(a: &str, b: &str) -> (r: Vec<DbValue>)
    ensures
        r.deep_view() == seq![DbValueView::Text(a@), DbValueView::Text(b@)],
{
    let r = vec![text_value(a), text_value(b)];
    assert(r.deep_view() =~= seq![DbValueView::Text(a@), DbValueView::Text(b@)]);
    r
}

/// One row: the selected columns' names and the value under each.
#[derive(Debug, Clone, PartialEq, Eq)]
pub struct DbRow {
    pub columns: Vec<String>,
    pub values: Vec<DbValue>,
}

/// The mathematical value of a [`DbRow`].
#[verifier::ext_equal]
pub ghost struct DbRowView {
    pub columns: Seq<Seq<char>>,
    pub values: Seq<DbValueView>,
}

impl DeepView for DbRow {
    type V = DbRowView;

    open spec fn deep_view(&self) -> DbRowView {
        DbRowView { columns: self.columns.deep_view(), values: self.values.deep_view() }
    }
}

impl DbRowView {
    /// The text in column `i`, if the row has that column and it holds text.
    pub open spec fn text_at(self, i: int) -> Option<Seq<char>> {
        if 0 <= i < self.values.len() {
            match self.values[i] {
                DbValueView::Text(s) => Some(s),
                _ => None,
            }
        } else {
            None
        }
    }

    /// The integer in column `i`, if the row has that column and it holds one.
    pub open spec fn i64_at(self, i: int) -> Option<i64> {
        if 0 <= i < self.values.len() {
            match self.values[i] {
                DbValueView::Integer(n) => Some(n),
                _ => None,
            }
        } else {
            None
        }
    }

    /// The position of the first column called `name` among the first `n`.
    pub open spec fn position(self, name: Seq<char>, n: int) -> Option<int>
        decreases n,
    {
        if n <= 0 {
            None
        } else {
            match self.position(name, n - 1) {
                Some(i) => Some(i),
                None => if self.columns[n - 1] == name {
                    Some(n - 1)
                } else {
                    None
                },
            }
        }
    }

    /// The text under the first column called `name`.
    pub open spec fn text(self, name: Seq<char>) -> Option<Seq<char>> {
        match self.position(name, self.columns.len() as int) {
            Some(i) => self.text_at(i),
            None => None,
        }
    }

    /// The integer under the first column called `name`.
    pub open spec fn integer(self, name: Seq<char>) -> Option<i64> {
        match self.position(name, self.columns.len() as int) {
            Some(i) => self.i64_at(i),
            None => None,
        }
    }
}

impl DbRow {
    pub fn new(columns: Vec<String>, values: Vec<DbValue>) -> (r: DbRow)
        ensures
            r.deep_view() == (DbRowView {
                columns: columns.deep_view(),
                values: values.deep_view(),
            }),
    {
        DbRow { columns, values }
    }

    /// Another row equal to this one.
    pub fn copy(&self) -> (r: DbRow)
        ensures
            r.deep_view() == self.deep_view(),
    {
        let columns = copy_texts(&self.columns);
        let mut values: Vec<DbValue> = Vec::new();
        let mut i: usize = 0;
        assert(values.deep_view() =~= self.values.deep_view().take(0));
        while i < self.values.len()
            invariant
                i <= self.values.len(),
                values.deep_view() == self.values.deep_view().take(i as int),
            decreases self.values.len() - i,
        {
            push_item(&mut values, self.values[i].copy());
            assert(self.values.deep_view().take(i + 1) =~= self.values.deep_view().take(
                i as int,
            ).push(self.values@[i as int].deep_view()));
            i += 1;
        }
        assert(self.values.deep_view().take(i as int) =~= self.values.deep_view());
        DbRow { columns, values }
    }

    /// The text in column `i`, if it holds text.
    pub fn text_at(&self, i: usize) -> (r: Option<String>)
        ensures
            r.deep_view() == self.deep_view().text_at(i as int),
    {
        if i < self.values.len() {
            assert(self.deep_view().values[i as int] == self.values@[i as int].deep_view());
            match &self.values[i] {
                DbValue::Text(s) => Some(s.clone()),
                _ => None,
            }
        } else {
            None
        }
    }

    /// The integer in column `i`, if it holds one.
    pub fn i64_at(&self, i: usize) -> (r: Option<i64>)
        ensures
            r == self.deep_view().i64_at(i as int),
    {
        if i < self.values.len() {
            assert(self.deep_view().values[i as int] == self.values@[i as int].deep_view());
            match &self.values[i] {
                DbValue::Integer(n) => Some(*n),
                _ => None,
            }
        } else {
            None
        }
    }

    fn position(&self, name: &str) -> (r: Option<usize>)
        ensures
            match r {
                Some(i) => self.deep_view().position(name@, self.columns@.len() as int) == Some(
                    i as int,
                ),
                None => self.deep_view().position(name@, self.columns@.len() as int) is None,
            },
    {
        let mut found: Option<usize> = None;
        let mut i: usize = 0;
        while i < self.columns.len()
            invariant
                i <= self.columns.len(),
                match found {
                    Some(j) => self.deep_view().position(name@, i as int) == Some(j as int),
                    None => self.deep_view().position(name@, i as int) is None,
                },
            decreases self.columns.len() - i,
        {
            assert(self.deep_view().columns[i as int] == self.columns@[i as int]@);
            if found.is_none() && same(self.columns[i].as_str(), name) {
                found = Some(i);
            }
            i += 1;
        }
        found
    }

    /// The text under the first column called `name`.
    pub fn text(&self, name: &str) -> (r: Option<String>)
        ensures
            r.deep_view() == self.deep_view().text(name@),
    {
        match self.position(name) {
            Some(i) => self.text_at(i),
            None => None,
        }
    }

    /// The integer under the first column called `name`.
    pub fn integer(&self, name: &str) -> (r: Option<i64>)
        ensures
            r == self.deep_view().integer(name@),
    {
        match self.position(name) {
            Some(i) => self.i64_at(i),
            None => None,
        }
    }

    /// The text under the first column called `name`; an error names the column
    /// that is missing or holds no text.
    pub fn get_string(&self, name: &str) -> (r: Result<String, DbError>)
        ensures
            out(r) == string_of(self.deep_view(), name@),
    {
        match self.text(name) {
            Some(s) => Ok(s),
            None => Err(DbError::NoText { column: name.to_owned() }),
        }
    }

    /// The integer under the first column called `name`; an error names the
    /// column that is missing or holds none.
    pub fn get_i64(&self, name: &str) -> (r: Result<i64, DbError>)
        ensures
            out(r) == (match self.deep_view().integer(name@) {
                Some(n) => Ok::<i64, ErrorView>(n),
                None => Err(ErrorView::NoInteger { column: name@ }),
            }),
    {
        match self.integer(name) {
            Some(n) => Ok(n),
            None => Err(DbError::NoInteger { column: name.to_owned() }),
        }
    }
}

/// Other rows equal to these.
pub fn copy_rows(rows: &Vec<DbRow>) -> (r: Vec<DbRow>)
    ensures
        r.deep_view() == rows.deep_view(),
{
    let mut copies: Vec<DbRow> = Vec::new();
    let mut i: usize = 0;
    assert(copies.deep_view() =~= rows.deep_view().take(0));
    while i < rows.len()
        invariant
            i <= rows.len(),
            copies.deep_view() == rows.deep_view().take(i as int),
        decreases rows.len() - i,
    {
        push_item(&mut copies, rows[i].copy());
        assert(rows.deep_view().take(i + 1) =~= rows.deep_view().take(i as int).push(
            rows@[i as int].deep_view(),
        ));
        i += 1;
    }
    assert(rows.deep_view().take(i as int) =~= rows.deep_view());
    copies
}

/// The texts under the column called `name`, of the rows that hold one there.
pub open spec fn texts_under(rows: Seq<DbRowView>, name: Seq<char>) -> Seq<Seq<char>>
    decreases rows.len(),
{
    if rows.len() == 0 {
        Seq::empty()
    } else {
        match rows.last().text(name) {
            Some(t) => texts_under(rows.drop_last(), name).push(t),
            None => texts_under(rows.drop_last(), name),
        }
    }
}

/// The texts under the column called `name`, of the rows that hold one there.
pub fn texts_named(rows: &Vec<DbRow>, name: &str) -> (r: Vec<String>)
    ensures
        r.deep_view() == texts_under(rows.deep_view(), name@),
{
    let mut found: Vec<String> = Vec::new();
    let ghost all = rows.deep_view();
    let mut i: usize = 0;
    assert(all.take(0) =~= Seq::<DbRowView>::empty());
    assert(found.deep_view() =~= Seq::<Seq<char>>::empty());
    while i < rows.len()
        invariant
            i <= rows.len(),
            all == rows.deep_view(),
            found.deep_view() == texts_under(all.take(i as int), name@),
        decreases rows.len() - i,
    {
        assert(all.take(i + 1).drop_last() =~= all.take(i as int));
        assert(all.take(i + 1).last() == rows@[i as int].deep_view());
        match rows[i].text(name) {
            Some(t) => push_item(&mut found, t),
            None => {},
        }
        i += 1;
    }
    assert(all.take(i as int) =~= all);
    found
}

/// The texts in column `at`, of the rows that hold one there.
pub open spec fn texts_in_column(rows: Seq<DbRowView>, at: int) -> Seq<Seq<char>>
    decreases rows.len(),
{
    if rows.len() == 0 {
        Seq::empty()
    } else {
        match rows.last().text_at(at) {
            Some(t) => texts_in_column(rows.drop_last(), at).push(t),
            None => texts_in_column(rows.drop_last(), at),
        }
    }
}

/// The texts in column `at`, of the rows that hold one there.
pub fn texts_at(rows: &Vec<DbRow>, at: usize) -> (r: Vec<String>)
    ensures
        r.deep_view() == texts_in_column(rows.deep_view(), at as int),
{
    let mut found: Vec<String> = Vec::new();
    let ghost all = rows.deep_view();
    let mut i: usize = 0;
    assert(all.take(0) =~= Seq::<DbRowView>::empty());
    assert(found.deep_view() =~= Seq::<Seq<char>>::empty());
    while i < rows.len()
        invariant
            i <= rows.len(),
            all == rows.deep_view(),
            found.deep_view() == texts_in_column(all.take(i as int), at as int),
        decreases rows.len() - i,
    {
        assert(all.take(i + 1).drop_last() =~= all.take(i as int));
        assert(all.take(i + 1).last() == rows@[i as int].deep_view());
        match rows[i].text_at(at) {
            Some(t) => push_item(&mut found, t),
            None => {},
        }
        i += 1;
    }
    assert(all.take(i as int) =~= all);
    found
}

/// What [`DbRow::get_string`] returns.
pub open spec fn string_of(row: DbRowView, name: Seq<char>) -> Result<Seq<char>, ErrorView> {
    match row.text(name) {
        Some(s) => Ok(s),
        None => Err(ErrorView::NoText { column: name }),
    }
}

/// Why an operation did not come to an end.
#[derive(Debug, Clone, PartialEq, Eq)]
pub enum DbError {
    /// The host has not answered the request the operation stopped at.
    Pending,
    /// The host's answer is of the wrong kind for the request.
    Unexpected,
    /// The host reported this failure.
    Backend(String),
    /// A row holds no text under `column`.
    NoText { column: String },
    /// A row holds no integer under `column`.
    NoInteger { column: String },
    /// The library refuses to go on, for the reason given.
    Refused(String),
}

/// The mathematical value of a [`DbError`].
#[verifier::ext_equal]
pub ghost enum ErrorView {
    Pending,
    Unexpected,
    Backend(Seq<char>),
    NoText { column: Seq<char> },
    NoInteger { column: Seq<char> },
    Refused(Seq<char>),
}

impl DeepView for DbError {
    type V = ErrorView;

    open spec fn deep_view(&self) -> ErrorView {
        match self {
            DbError::Pending => ErrorView::Pending,
            DbError::Unexpected => ErrorView::Unexpected,
            DbError::Backend(m) => ErrorView::Backend(m@),
            DbError::NoText { column } => ErrorView::NoText { column: column@ },
            DbError::NoInteger { column } => ErrorView::NoInteger { column: column@ },
            DbError::Refused(m) => ErrorView::Refused(m@),
        }
    }
}

impl ErrorView {
    /// The text a reader sees.
    pub open spec fn message(self) -> Seq<char> {
        match self {
            ErrorView::Pending => "the request has not been answered"@,
            ErrorView::Unexpected => "the answer does not fit the request"@,
            ErrorView::Backend(m) => m,
            ErrorView::NoText { column } => "no text in column "@ + column,
            ErrorView::NoInteger { column } => "no integer in column "@ + column,
            ErrorView::Refused(m) => m,
        }
    }
}

impl DbError {
    /// The text a reader sees.
    pub fn message(&self) -> (r: String)
        ensures
            r@ == self.deep_view().message(),
    {
        match self {
            DbError::Pending => "the request has not been answered".to_owned(),
            DbError::Unexpected => "the answer does not fit the request".to_owned(),
            DbError::Backend(m) => m.clone(),
            DbError::NoText { column } => "no text in column ".to_owned().concat(column.as_str()),
            DbError::NoInteger { column } => "no integer in column ".to_owned().concat(
                column.as_str(),
            ),
            DbError::Refused(m) => m.clone(),
        }
    }
}

/// An error, with what was being done before what it says. An operation that waits for
/// an answer, or got one of the wrong kind, says so as it is.
pub open spec fn in_context(e: ErrorView, text: Seq<char>) -> ErrorView {
    match e {
        ErrorView::Pending => e,
        ErrorView::Unexpected => e,
        ErrorView::Refused(m) => ErrorView::Refused(text + ": "@ + m),
        _ => ErrorView::Backend(text + ": "@ + e.message()),
    }
}

/// A result, with what was being done before what its error says.
pub open spec fn with_context<T>(r: Result<T, ErrorView>, text: Seq<char>) -> Result<T, ErrorView> {
    match r {
        Ok(v) => Ok(v),
        Err(e) => Err(in_context(e, text)),
    }
}

/// A result, with what was being done before what its error says.
pub fn add_context<T: DeepView>(r: Result<T, DbError>, text: &str) -> (o: Result<T, DbError>)
    ensures
        out(o) == with_context(out(r), text@),
{
    match r {
        Ok(v) => Ok(v),
        Err(DbError::Pending) => Err(DbError::Pending),
        Err(DbError::Unexpected) => Err(DbError::Unexpected),
        Err(DbError::Refused(m)) => Err(
            DbError::Refused(text.to_owned().concat(": ").concat(m.as_str())),
        ),
        Err(e) => Err(
            DbError::Backend(text.to_owned().concat(": ").concat(e.message().as_str())),
        ),
    }
}

/// What two counts come to, up to the largest there is.
pub open spec fn together(a: nat, b: nat) -> nat {
    if a + b > usize::MAX {
        usize::MAX as nat
    } else {
        a + b
    }
}

/// What two counts come to, up to the largest there is.
pub fn count_together(a: usize, b: usize) -> (r: usize)
    ensures
        r == together(a as nat, b as nat),
{
    if b > usize::MAX - a {
        usize::MAX
    } else {
        a + b
    }
}

/// The mathematical value of a count.
pub open spec fn count_out(r: Result<usize, DbError>) -> Result<nat, ErrorView> {
    match r {
        Ok(n) => Ok(n as nat),
        Err(e) => Err(e.deep_view()),
    }
}

/// The mathematical value of a result.
pub open spec fn out<T: DeepView>(r: Result<T, DbError>) -> Result<T::V, ErrorView> {
    match r {
        Ok(v) => Ok(v.deep_view()),
        Err(e) => Err(e.deep_view()),
    }
}

} // verus!
