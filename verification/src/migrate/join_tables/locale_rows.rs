//! The rows of a table whose field stopped keeping them per locale.
//!
//! A localized field with rows of its own has one set of them per locale. Once
//! it is localized no more, its reads name no locale, and would return every
//! locale's rows as one list. The field's value is its default locale's from then
//! on: the other rows are dropped, once, by the sync that sees the change.
//!
//! Whether a table kept rows per locale at the last sync is on record, so that it
//! is narrowed on the change alone. A table synced before there was a record, with
//! a locale column its field no longer uses, is narrowed when it is first
//! recorded. A table with rows of other locales but none of the default one is
//! refused: narrowing it would drop every row.
use crate::definition::LocaleConfig;
use crate::migrate::helpers::introspection::{
    get_table_columns, table_columns_step, table_exists, table_exists_step,
};
use crate::migrate::meta;
use crate::session::{
    Request, RequestView, Session, SessionView, Step, ask_count, ask_done, ask_names, only_reads,
    reads, within,
};
use crate::text::{cat2, cat3, cat7, contains, decimal, decimal_text, join, join_with, same};
use crate::value::{DbError, ErrorView, add_context, out};
use vstd::prelude::*;

verus! {

/// The key under which it is recorded whether a table kept rows per locale.
pub open spec fn record_key(table: Seq<char>) -> Seq<char> {
    "join_locale:"@ + table
}

/// The recorded form.
pub open spec fn record_text(per_locale: bool) -> Seq<char> {
    if per_locale {
        "1:per_locale"@
    } else {
        "1:shared"@
    }
}

/// What a recorded form says; nothing, when it is of another version.
pub open spec fn read_record(stored: Option<Seq<char>>) -> Option<bool> {
    match stored {
        None => None,
        Some(text) => if text == record_text(true) {
            Some(true)
        } else if text == record_text(false) {
            Some(false)
        } else {
            None
        },
    }
}

/// Whether a table kept rows per locale at the last sync, where that is on
/// record.
pub open spec fn recorded_step(s: SessionView, table: Seq<char>) -> Step<Option<bool>> {
    let (s1, stored) = meta::get_step(s, record_key(table));
    (
        s1,
        match stored {
            Err(e) => Err(e),
            Ok(stored) => Ok(read_record(stored)),
        },
    )
}

fn recorded(conn: &mut Session, table: &str) -> (r: Result<Option<bool>, DbError>)
    ensures
        (final(conn)@, out(r)) == recorded_step(old(conn)@, table@),
{
    let key = cat2("join_locale:", table);
    match meta::get(conn, key.as_str())? {
        None => Ok(None),
        Some(text) => if same(text.as_str(), "1:per_locale") {
            Ok(Some(true))
        } else if same(text.as_str(), "1:shared") {
            Ok(Some(false))
        } else {
            Ok(None)
        },
    }
}

/// Whether a table still holds the rows of a field that kept them per locale: it
/// is recorded so, or has the column only such a field adds.
pub open spec fn was_per_locale_step(
    s: SessionView,
    table: Seq<char>,
    recorded: Option<bool>,
) -> Step<bool> {
    match recorded {
        Some(per_locale) => (s, Ok(per_locale)),
        None => {
            let (s1, exists) = table_exists_step(s, table);
            match exists {
                Err(e) => (s1, Err(e)),
                Ok(false) => (s1, Ok(false)),
                Ok(true) => {
                    let (s2, columns) = table_columns_step(s1, table);
                    (
                        s2,
                        match columns {
                            Err(e) => Err(e),
                            Ok(columns) => Ok(columns.contains("_locale"@)),
                        },
                    )
                },
            }
        },
    }
}

fn was_per_locale(conn: &mut Session, table: &str, recorded: Option<bool>) -> (r: Result<
    bool,
    DbError,
>)
    ensures
        (final(conn)@, out(r)) == was_per_locale_step(old(conn)@, table@, recorded),
{
    if let Some(per_locale) = recorded {
        return Ok(per_locale);
    }
    if !table_exists(conn, table)? {
        return Ok(false);
    }
    let columns = get_table_columns(conn, table)?;
    Ok(contains(&columns, "_locale"))
}

/// Whether every locale is the one given.
pub open spec fn only_locale(held: Seq<Seq<char>>, locale: Seq<char>) -> bool {
    forall|i: int| 0 <= i < held.len() ==> #[trigger] held[i] == locale
}

fn holds_only(held: &Vec<String>, locale: &str) -> (r: bool)
    ensures
        r == only_locale(held.deep_view(), locale@),
{
    let mut i: usize = 0;
    while i < held.len()
        invariant
            i <= held.len(),
            forall|j: int| 0 <= j < i ==> #[trigger] held.deep_view()[j] == locale@,
        decreases held.len() - i,
    {
        assert(held.deep_view()[i as int] == held@[i as int]@);
        if !same(held[i].as_str(), locale) {
            return false;
        }
        i += 1;
    }
    true
}

/// Why a table without rows of the default locale is not narrowed.
pub open spec fn no_default_rows(
    table: Seq<char>,
    default_locale: Seq<char>,
    held: Seq<Seq<char>>,
) -> Seq<char> {
    "Join table '"@ + table
        + "' belongs to a field that is no longer localized, so it keeps only its default locale's rows ('"@
        + default_locale + "') — but it holds rows of "@ + join(held, ", "@)
        + " only. Set [locale] default_locale to the locale whose rows the field keeps, or mark the field localized again, then start again."@
}

/// What is said of rows of other locales that were dropped.
pub open spec fn dropped_rows(
    table: Seq<char>,
    default_locale: Seq<char>,
    dropped: u64,
) -> Seq<char> {
    "Dropped "@ + decimal(dropped as nat) + " row(s) of locales other than '"@ + default_locale
        + "' from '"@ + table + "': its field is no longer localized"@
}

/// Keeps the default locale's rows of a table and says how many others went.
pub open spec fn keep_default_step(
    s: SessionView,
    table: Seq<char>,
    default_locale: Seq<char>,
) -> Step<u64> {
    let (s1, held) = ask_names(s, RequestView::HeldLocales { table });
    match held {
        Err(e) => (s1, Err(e)),
        Ok(held) => if only_locale(held, default_locale) {
            (s1, Ok(0))
        } else if !held.contains(default_locale) {
            (s1, Err(ErrorView::Refused(no_default_rows(table, default_locale, held))))
        } else {
            let (s2, dropped) = ask_count(
                s1,
                RequestView::DeleteRowsOutsideLocales { table, locales: seq![default_locale] },
            );
            match dropped {
                Err(e) => (s2, Err(e)),
                Ok(dropped) => (
                    s2.noted(dropped_rows(table, default_locale, dropped)),
                    Ok(dropped),
                ),
            }
        },
    }
}

fn keep_default_locale_rows(conn: &mut Session, table: &str, default_locale: &str) -> (r: Result<
    u64,
    DbError,
>)
    ensures
        (final(conn)@, out(r)) == keep_default_step(old(conn)@, table@, default_locale@),
{
    let held = conn.ask_names(Request::HeldLocales { table: table.to_owned() })?;
    if holds_only(&held, default_locale) {
        return Ok(0);
    }
    if !contains(&held, default_locale) {
        let names = join_with(&held, ", ");
        return Err(
            DbError::Refused(
                cat7(
                    "Join table '",
                    table,
                    "' belongs to a field that is no longer localized, so it keeps only its default locale's rows ('",
                    default_locale,
                    "') — but it holds rows of ",
                    names.as_str(),
                    " only. Set [locale] default_locale to the locale whose rows the field keeps, or mark the field localized again, then start again.",
                ),
            ),
        );
    }
    let locales = vec![default_locale.to_owned()];
    assert(locales.deep_view() =~= seq![default_locale@]);
    let dropped: u64 = conn.ask_count(
        Request::DeleteRowsOutsideLocales { table: table.to_owned(), locales },
    )?;
    let count = decimal_text(dropped);
    conn.note(
        cat7(
            "Dropped ",
            count.as_str(),
            " row(s) of locales other than '",
            default_locale,
            "' from '",
            table,
            "': its field is no longer localized",
        ),
    );
    Ok(dropped)
}

/// Narrows a table whose field stopped keeping rows per locale. Dropped rows may
/// have held references, so their counts are computed anew.
pub open spec fn narrow_step(
    s: SessionView,
    table: Seq<char>,
    recorded: Option<bool>,
    default_locale: Seq<char>,
) -> Step<()> {
    let (s1, was) = was_per_locale_step(s, table, recorded);
    match was {
        Err(e) => (s1, Err(e)),
        Ok(false) => (s1, Ok(())),
        Ok(true) => {
            let (s2, dropped) = within(
                keep_default_step(s1, table, default_locale),
                "Failed to narrow '"@ + table + "' to its default locale"@,
            );
            match dropped {
                Err(e) => (s2, Err(e)),
                Ok(dropped) => if dropped > 0 {
                    ask_done(s2, RequestView::InvalidateRefCounts)
                } else {
                    (s2, Ok(()))
                },
            }
        },
    }
}

fn narrow(conn: &mut Session, table: &str, recorded: Option<bool>, default_locale: &str) -> (r:
    Result<(), DbError>)
    ensures
        (final(conn)@, out(r)) == narrow_step(old(conn)@, table@, recorded, default_locale@),
{
    if was_per_locale(conn, table, recorded)? {
        let kept = keep_default_locale_rows(conn, table, default_locale);
        let dropped: u64 = add_context(
            kept,
            cat3("Failed to narrow '", table, "' to its default locale").as_str(),
        )?;
        if dropped > 0 {
            conn.ask_done(Request::InvalidateRefCounts)?;
        }
    }
    Ok(())
}

/// Brings a table's rows to what its field keeps now, and records it.
pub open spec fn sync_locale_rows_step(
    s: SessionView,
    table: Seq<char>,
    per_locale: bool,
    default_locale: Seq<char>,
) -> Step<()> {
    let (s1, recorded) = recorded_step(s, table);
    match recorded {
        Err(e) => (s1, Err(e)),
        Ok(recorded) => {
            let (s2, narrowed) = if per_locale {
                (s1, Ok(()))
            } else {
                narrow_step(s1, table, recorded, default_locale)
            };
            match narrowed {
                Err(e) => (s2, Err(e)),
                Ok(_) => if recorded == Some(per_locale) {
                    (s2, Ok(()))
                } else {
                    meta::upsert_step(s2, record_key(table), record_text(per_locale))
                },
            }
        },
    }
}

/// Brings a table's rows to what its field keeps now: where it stopped keeping
/// them per locale since the last sync, the default locale's alone stay. Runs
/// before the table is altered, which may key it by what the rows are unique
/// under now.
pub fn sync_locale_rows(
    conn: &mut Session,
    table: &str,
    per_locale: bool,
    locale_config: &LocaleConfig,
) -> (r: Result<(), DbError>)
    ensures
        (final(conn)@, out(r)) == sync_locale_rows_step(
            old(conn)@,
            table@,
            per_locale,
            locale_config.default_locale@,
        ),
{
    let recorded = recorded(conn, table)?;
    if !per_locale {
        narrow(conn, table, recorded, locale_config.default_locale.as_str())?;
    }
    if let Some(before) = recorded {
        if before == per_locale {
            return Ok(());
        }
    }
    let key = cat2("join_locale:", table);
    let shape = if per_locale {
        "1:per_locale"
    } else {
        "1:shared"
    };
    meta::upsert(conn, key.as_str(), shape)
}

/// What is recorded is read back.
pub proof fn records_are_read_back(per_locale: bool)
    ensures
        read_record(Some(record_text(per_locale))) == Some(per_locale),
{
    reveal_strlit("1:per_locale");
    reveal_strlit("1:shared");
    assert("1:per_locale"@.len() != "1:shared"@.len());
}

/// A table recorded as shared is left alone while its field stays so, whatever rows
/// were written since: nothing is asked beyond the record.
pub proof fn a_table_is_narrowed_once(
    s: SessionView,
    table: Seq<char>,
    default_locale: Seq<char>,
)
    requires
        recorded_step(s, table).1 == Ok::<Option<bool>, ErrorView>(Some(false)),
    ensures
        sync_locale_rows_step(s, table, false, default_locale) == (
            recorded_step(s, table).0,
            Ok::<(), ErrorView>(()),
        ),
{
}

/// A table that holds rows, but none of the default locale, is refused rather than
/// emptied: nothing is sent but reads.
pub proof fn a_table_without_default_rows_is_refused(
    s: SessionView,
    table: Seq<char>,
    default_locale: Seq<char>,
    held: Seq<Seq<char>>,
)
    requires
        ask_names(s, RequestView::HeldLocales { table }).1 == Ok::<Seq<Seq<char>>, ErrorView>(held),
        held.len() > 0,
        !held.contains(default_locale),
    ensures
        keep_default_step(s, table, default_locale).1 == Err::<u64, ErrorView>(
            ErrorView::Refused(no_default_rows(table, default_locale, held)),
        ),
        only_reads(s, keep_default_step(s, table, default_locale).0),
{
    assert(held.contains(held[0]));
    assert(!only_locale(held, default_locale)) by {
        assert(held[0] != default_locale);
    }
    let s1 = keep_default_step(s, table, default_locale).0;
    assert(s.sent =~= s1.sent.take(s.sent.len() as int));
}

/// Narrowing deletes at most the rows of other locales: the one deletion it sends
/// spares the default locale.
pub proof fn narrowing_spares_the_default_locale(
    s: SessionView,
    table: Seq<char>,
    default_locale: Seq<char>,
    i: int,
)
    requires
        s.sent.len() <= i < keep_default_step(s, table, default_locale).0.sent.len(),
    ensures
        ({
            let request = keep_default_step(s, table, default_locale).0.sent[i];
            reads(request) || request == (RequestView::DeleteRowsOutsideLocales {
                table,
                locales: seq![default_locale],
            })
        }),
{
}

} // verus!
