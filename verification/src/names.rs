//! The names tables and columns are stored under.
use crate::session::Dialect;
use crate::text::{cat2, cat3, decimal, decimal_text, replace_char, replaced};
use crate::value::{DbError, ErrorView, out};
use vstd::prelude::*;

verus! {

/// `name` as a quoted SQL identifier.
pub open spec fn quoted(name: Seq<char>) -> Seq<char> {
    "\""@ + replaced(name, '"', "\"\""@) + "\""@
}

/// `name` as a quoted SQL identifier.
pub fn quote_ident(name: &str) -> (r: String)
    ensures
        r@ == quoted(name@),
{
    let inner = replace_char(name, '"', "\"\"");
    cat3("\"", inner.as_str(), "\"")
}

/// `s` as the inside of a quoted SQL text.
pub open spec fn escaped(s: Seq<char>) -> Seq<char> {
    replaced(s, '\'', "''"@)
}

/// `s` as the inside of a quoted SQL text.
pub fn escape_text(s: &str) -> (r: String)
    ensures
        r@ == escaped(s@),
{
    replace_char(s, '\'', "''")
}

/// The table holding the rows of the field at `path` of `table`.
pub open spec fn join_table_name(table: Seq<char>, path: Seq<char>) -> Seq<char> {
    table + "_"@ + path
}

/// The table holding the rows of the field at `path` of `table`.
pub fn join_table(table: &str, path: &str) -> (r: String)
    ensures
        r@ == join_table_name(table@, path@),
{
    cat3(table, "_", path)
}

/// The table of a global.
pub open spec fn global_table_name(slug: Seq<char>) -> Seq<char> {
    "_global_"@ + slug
}

/// The table of a global.
pub fn global_table(slug: &str) -> (r: String)
    ensures
        r@ == global_table_name(slug@),
{
    cat2("_global_", slug)
}

/// The table of the earlier versions of the rows of `table`.
pub open spec fn versions_table_name(table: Seq<char>) -> Seq<char> {
    "_versions_"@ + table
}

/// The table of the earlier versions of the rows of `table`.
pub fn versions_table(table: &str) -> (r: String)
    ensures
        r@ == versions_table_name(table@),
{
    cat2("_versions_", table)
}

/// The column holding the zone of the date in column `name`.
pub open spec fn tz_column_name(name: Seq<char>) -> Seq<char> {
    name + "_tz"@
}

/// The column holding the zone of the date in column `name`.
pub fn tz_column(name: &str) -> (r: String)
    ensures
        r@ == tz_column_name(name@),
{
    cat2(name, "_tz")
}

/// Whether a locale code may hold `c`.
pub open spec fn locale_char(c: char) -> bool {
    ('a' <= c && c <= 'z') || ('A' <= c && c <= 'Z') || ('0' <= c && c <= '9') || c == '_' || c
        == '-'
}

/// Whether a locale code can be part of a column name.
pub open spec fn has_column_form(locale: Seq<char>) -> bool {
    locale.len() > 0 && forall|i: int| 0 <= i < locale.len() ==> locale_char(#[trigger] locale[i])
}

/// The form of a locale code in column names: its hyphens are underscores there.
pub open spec fn column_form(locale: Seq<char>) -> Result<Seq<char>, ErrorView> {
    if has_column_form(locale) {
        Ok(replaced(locale, '-', "_"@))
    } else {
        Err(
            ErrorView::Refused(
                "Locale '"@ + locale
                    + "' cannot be part of a column name: a locale code holds letters, digits, '-' and '_' only"@,
            ),
        )
    }
}

/// The form of a locale code in column names.
pub fn sanitize_locale(locale: &str) -> (r: Result<String, DbError>)
    ensures
        out(r) == column_form(locale@),
{
    let n: usize = locale.unicode_len();
    let mut fits: bool = n > 0;
    let mut i: usize = 0;
    while i < n && fits
        invariant
            i <= n,
            n == locale@.len(),
            fits ==> n > 0 && forall|j: int| 0 <= j < i ==> locale_char(#[trigger] locale@[j]),
            !fits ==> !has_column_form(locale@),
        decreases n - i,
    {
        let c = locale.get_char(i);
        fits = ('a' <= c && c <= 'z') || ('A' <= c && c <= 'Z') || ('0' <= c && c <= '9') || c
            == '_' || c == '-';
        assert(fits == locale_char(locale@[i as int]));
        i += 1;
    }
    if fits {
        Ok(replace_char(locale, '-', "_"))
    } else {
        Err(
            DbError::Refused(
                cat3(
                    "Locale '",
                    locale,
                    "' cannot be part of a column name: a locale code holds letters, digits, '-' and '_' only",
                ),
            ),
        )
    }
}

/// The column holding `locale`'s values of the field stored as `base`.
pub open spec fn locale_column_name(base: Seq<char>, locale: Seq<char>) -> Result<
    Seq<char>,
    ErrorView,
> {
    match column_form(locale) {
        Ok(form) => Ok(base + "__"@ + form),
        Err(e) => Err(e),
    }
}

/// The column holding `locale`'s values of the field stored as `base`.
pub fn locale_column(base: &str, locale: &str) -> (r: Result<String, DbError>)
    ensures
        out(r) == locale_column_name(base@, locale@),
{
    match sanitize_locale(locale) {
        Ok(form) => Ok(cat3(base, "__", form.as_str())),
        Err(e) => Err(e),
    }
}

/// The `n`-th parameter of a statement.
pub open spec fn placeholder_text(dialect: Dialect, n: nat) -> Seq<char> {
    match dialect {
        Dialect::Sqlite => "?"@ + decimal(n),
        Dialect::Postgres => "$"@ + decimal(n),
    }
}

/// The `n`-th parameter of a statement.
pub fn placeholder(dialect: Dialect, n: u64) -> (r: String)
    ensures
        r@ == placeholder_text(dialect, n as nat),
{
    let digits = decimal_text(n);
    match dialect {
        Dialect::Sqlite => cat2("?", digits.as_str()),
        Dialect::Postgres => cat2("$", digits.as_str()),
    }
}

proof fn doubling_is_faithful(a: Seq<char>, b: Seq<char>, c: char)
    requires
        replaced(a, c, seq![c, c]) == replaced(b, c, seq![c, c]),
    ensures
        a == b,
    decreases a.len(),
{
    let da = replaced(a, c, seq![c, c]);
    let db = replaced(b, c, seq![c, c]);
    if a.len() == 0 {
        assert(da.len() == 0);
        assert(a =~= b);
    } else {
        let fa = a.drop_last();
        let fb = b.drop_last();
        assert(da.last() == a.last());
        assert(db.len() > 0);
        assert(b.len() > 0);
        assert(db.last() == b.last());
        if a.last() == c {
            assert(replaced(fa, c, seq![c, c]) =~= da.take(da.len() - 2));
            assert(replaced(fb, c, seq![c, c]) =~= db.take(db.len() - 2));
        } else {
            assert(replaced(fa, c, seq![c, c]) =~= da.take(da.len() - 1));
            assert(replaced(fb, c, seq![c, c]) =~= db.take(db.len() - 1));
        }
        doubling_is_faithful(fa, fb, c);
        assert(a =~= fa.push(a.last()));
        assert(b =~= fb.push(b.last()));
    }
}

/// Two names are quoted alike only if they are the same name.
pub proof fn quoting_is_faithful(a: Seq<char>, b: Seq<char>)
    requires
        quoted(a) == quoted(b),
    ensures
        a == b,
{
    reveal_strlit("\"");
    reveal_strlit("\"\"");
    assert("\"\""@ =~= seq!['"', '"']);
    let left = replaced(a, '"', "\"\""@);
    let right = replaced(b, '"', "\"\""@);
    assert(quoted(a).subrange(1, quoted(a).len() - 1) =~= left);
    assert(quoted(b).subrange(1, quoted(b).len() - 1) =~= right);
    doubling_is_faithful(a, b, '"');
}

/// Two texts are escaped alike only if they are the same text.
pub proof fn escaping_is_faithful(a: Seq<char>, b: Seq<char>)
    requires
        escaped(a) == escaped(b),
    ensures
        a == b,
{
    reveal_strlit("''");
    assert("''"@ =~= seq!['\'', '\'']);
    doubling_is_faithful(a, b, '\'');
}

} // verus!
