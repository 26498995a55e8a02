//! Records: a value under a key, read, removed, and stored in place of another.
use crate::migrate::helpers::gate::gate_value;
use crate::migrate::inline_unique::unique_gate_key;
use crate::migrate::join_tables::locale_rows::record_key;
use crate::migrate::legacy_timestamps::timestamps_gate_key;
use crate::migrate::locale_change::shape_key;
use crate::migrate::meta::{delete_step, get_step, upsert_step};
use crate::migrate::nullable_columns::nullable_gate_key;
use crate::migrate::reference_cardinality::cardinality_key;
use crate::migrate::relationship_target::target_key;
use crate::migrate::search_index::index_gate_key;
use crate::promises::{
    after, answered, on_record, parameters_are_counted_from_one, record_read, record_removed,
    record_written,
};
use crate::session::{ReplyView, SessionView};
use crate::value::{DbRowView, DbValueView, ErrorView};
use vstd::prelude::*;

verus! {

/// A record is read by its key alone: the text of the row answered is what is read, and
/// where there is no row, there is no record. What the database refuses is an error.
pub proof fn a_record_is_read_by_its_key(
    s: SessionView,
    key: Seq<char>,
    row: DbRowView,
    value: Seq<char>,
    why: Seq<char>,
)
    requires
        row.values.len() > 0,
        row.values[0] == DbValueView::Text(value),
    ensures
        get_step(s, key).0 == after(s, seq![record_read(s.dialect, key)]),
        answered(s, 0, ReplyView::Row(Some(row))) ==> get_step(s, key).1 == Ok::<
            Option<Seq<char>>,
            ErrorView,
        >(Some(value)),
        answered(s, 0, ReplyView::Row(None)) ==> get_step(s, key).1 == Ok::<
            Option<Seq<char>>,
            ErrorView,
        >(None),
        answered(s, 0, ReplyView::Failed(why)) ==> get_step(s, key).1 == Err::<
            Option<Seq<char>>,
            ErrorView,
        >(ErrorView::Backend(why)),
{
    parameters_are_counted_from_one(s.dialect);
    let read = record_read(s.dialect, key);
    assert(s.sent.push(read) =~= s.sent + seq![read]);
}

/// A record is removed by its key alone, whether or not there is one.
pub proof fn a_record_is_removed_by_its_key(
    s: SessionView,
    key: Seq<char>,
    n: u64,
    why: Seq<char>,
)
    ensures
        delete_step(s, key).0 == after(s, seq![record_removed(s.dialect, key)]),
        answered(s, 0, ReplyView::Count(n)) ==> delete_step(s, key).1 == Ok::<(), ErrorView>(()),
        answered(s, 0, ReplyView::Failed(why)) ==> delete_step(s, key).1 == Err::<(), ErrorView>(
            ErrorView::Backend(why),
        ),
{
    parameters_are_counted_from_one(s.dialect);
    let removed = record_removed(s.dialect, key);
    assert(s.sent.push(removed) =~= s.sent + seq![removed]);
}

/// A record is stored in place of the one under its key: that one is removed, and the
/// value given is stored. Where it cannot be removed, nothing is stored.
pub proof fn a_record_takes_the_place_of_another(
    s: SessionView,
    key: Seq<char>,
    value: Seq<char>,
    n: u64,
    m: u64,
    why: Seq<char>,
)
    ensures
        answered(s, 0, ReplyView::Count(n)) ==> upsert_step(s, key, value).0 == after(
            s,
            seq![record_removed(s.dialect, key), record_written(s.dialect, key, value)],
        ),
        answered(s, 0, ReplyView::Count(n)) && answered(s, 1, ReplyView::Count(m)) ==> upsert_step(
            s,
            key,
            value,
        ).1 == Ok::<(), ErrorView>(()),
        answered(s, 0, ReplyView::Count(n)) && answered(s, 1, ReplyView::Failed(why))
            ==> upsert_step(s, key, value).1 == Err::<(), ErrorView>(ErrorView::Backend(why)),
        answered(s, 0, ReplyView::Failed(why)) ==> upsert_step(s, key, value) == (
            after(s, seq![record_removed(s.dialect, key)]),
            Err::<(), ErrorView>(ErrorView::Backend(why)),
        ),
{
    parameters_are_counted_from_one(s.dialect);
    let removed = record_removed(s.dialect, key);
    let written = record_written(s.dialect, key, value);
    assert(s.sent.push(removed) =~= s.sent + seq![removed]);
    assert(s.sent.push(removed).push(written) =~= s.sent + seq![removed, written]);
}

/// What was stored without an error is on record, in two requests.
pub proof fn what_is_stored_is_on_record(s: SessionView, key: Seq<char>, value: Seq<char>)
    ensures
        ({
            let (end, r) = upsert_step(s, key, value);
            r is Ok ==> {
                &&& end == after(
                    s,
                    seq![record_removed(s.dialect, key), record_written(s.dialect, key, value)],
                )
                &&& on_record(end, s.sent.len() as int, end.sent.len() as int, key, value)
            }
        }),
{
    parameters_are_counted_from_one(s.dialect);
    let (end, r) = upsert_step(s, key, value);
    if r is Ok {
        let removed = record_removed(s.dialect, key);
        let written = record_written(s.dialect, key, value);
        assert(s.sent.push(removed).push(written) =~= s.sent + seq![removed, written]);
        assert(end.sent[s.sent.len() as int] == removed);
        assert(end.sent[(s.sent.len() + 1) as int] == written);
    }
}

/// What is read is on record, in one request.
pub proof fn what_is_read_is_on_record(s: SessionView, key: Seq<char>)
    ensures
        ({
            let (end, r) = get_step(s, key);
            &&& end == after(s, seq![record_read(s.dialect, key)])
            &&& (r matches Ok(Some(value)) ==> on_record(
                end,
                s.sent.len() as int,
                end.sent.len() as int,
                key,
                value,
            ))
        }),
{
    parameters_are_counted_from_one(s.dialect);
    let (end, r) = get_step(s, key);
    let read = record_read(s.dialect, key);
    assert(s.sent.push(read) =~= s.sent + seq![read]);
    assert(end.sent[s.sent.len() as int] == read);
}

/// What is on record of a definition or a table is kept under its own name.
pub proof fn records_have_their_keys(name: Seq<char>)
    ensures
        index_gate_key(name) == "fts_shape:"@ + name,
        unique_gate_key(name) == "inline_unique:"@ + name,
        nullable_gate_key(name) == "nullable_columns:"@ + name,
        cardinality_key(name) == "reference_cardinality:"@ + name,
        timestamps_gate_key(name) == "legacy_timestamps:"@ + name,
        shape_key(name) == "locale_shape:"@ + name,
        target_key(name) == "relationship_target:"@ + name,
        record_key(name) == "join_locale:"@ + name,
{
}

/// What marks a pass as done holds its version before a digest of what it went by.
pub proof fn marks_hold_version_and_digest(version: Seq<char>, digest: Seq<char>)
    ensures
        gate_value(version, digest) == version + ":"@ + digest,
{
}

} // verus!
