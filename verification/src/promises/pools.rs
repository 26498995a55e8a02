//! Pools: what is opened, with which settings, and what a configuration must name.
use crate::pool::{DatabaseConfig, connect_step, create_pool_step, get_step, pragmas, write_step};
use crate::postgres::{self, PgCell, updates, upsert};
use crate::promises::{after, answered};
use crate::session::{Dialect, ReplyView, RequestView, SessionView};
use crate::text::{decimal, join, signed_decimal};
use crate::value::{DbValueView, ErrorView};
use vstd::prelude::*;

verus! {

/// A connection is taken for what it is taken for, and what went wrong is said.
pub proof fn connections_are_for_reading_or_writing(s: SessionView, write: bool, why: Seq<char>)
    ensures
        connect_step(s, write).0 == after(s, seq![RequestView::Connect { write }]),
        get_step(s).0 == after(s, seq![RequestView::Connect { write: false }]),
        write_step(s).0 == after(s, seq![RequestView::Connect { write: true }]),
        answered(s, 0, ReplyView::Done) ==> connect_step(s, write).1 is Ok && get_step(s).1 is Ok
            && write_step(s).1 is Ok,
        answered(s, 0, ReplyView::Failed(why)) ==> {
            &&& connect_step(s, write).1 is Err
            &&& get_step(s).1 == Err::<(), ErrorView>(ErrorView::Backend(why))
            &&& write_step(s).1 == Err::<(), ErrorView>(ErrorView::Backend(why))
        },
{
    let reading = RequestView::Connect { write: false };
    let writing = RequestView::Connect { write: true };
    assert(s.sent.push(reading) =~= s.sent + seq![reading]);
    assert(s.sent.push(writing) =~= s.sent + seq![writing]);
}

/// What each new SQLite connection runs: changes are written ahead, foreign keys are
/// enforced, and the waits and sizes are those configured.
pub open spec fn connection_settings(config: DatabaseConfig) -> Seq<char> {
    "PRAGMA journal_mode = WAL; PRAGMA synchronous = NORMAL; PRAGMA foreign_keys = ON; PRAGMA busy_timeout = "@
        + decimal(config.busy_timeout as nat) + "; PRAGMA wal_autocheckpoint = "@ + decimal(
        config.wal_autocheckpoint as nat,
    ) + "; PRAGMA cache_size = "@ + signed_decimal(config.cache_size as int)
        + "; PRAGMA mmap_size = "@ + decimal(config.mmap_size as nat)
        + "; PRAGMA temp_store = MEMORY;"@
}

/// A SQLite database is opened twice, for reading and for writing, each with as many
/// connections as configured, the wait configured and the settings above; its directory
/// is made before.
pub proof fn sqlite_is_opened_for_reading_and_writing(
    s: SessionView,
    config_dir: Seq<char>,
    config: DatabaseConfig,
)
    requires
        config.backend == Dialect::Sqlite,
        answered(s, 0, ReplyView::Done),
        answered(s, 1, ReplyView::Done),
        answered(s, 2, ReplyView::Done),
    ensures
        ({
            let (end, r) = create_pool_step(s, config_dir, config);
            &&& r == Ok::<Dialect, ErrorView>(Dialect::Sqlite)
            &&& end.sent == s.sent.push(
                RequestView::CreateDatabaseDirectory { config_dir, path: config.path@ },
            ).push(
                RequestView::OpenSqlitePool {
                    write: false,
                    config_dir,
                    path: config.path@,
                    max_size: config.pool_max_size as u64,
                    timeout: config.connection_timeout,
                    pragmas: connection_settings(config),
                    statements: config.stmt_cache_capacity,
                },
            ).push(
                RequestView::OpenSqlitePool {
                    write: true,
                    config_dir,
                    path: config.path@,
                    max_size: config.write_pool_max_size as u64,
                    timeout: config.connection_timeout,
                    pragmas: connection_settings(config),
                    statements: config.stmt_cache_capacity,
                },
            )
        }),
{
}

/// A SQLite pool that cannot be opened is no pool: what failed first is the error, and
/// nothing is opened after it.
pub proof fn sqlite_pools_are_opened_or_not_at_all(
    s: SessionView,
    config_dir: Seq<char>,
    config: DatabaseConfig,
    why: Seq<char>,
)
    requires
        config.backend == Dialect::Sqlite,
    ensures
        ({
            let (end, r) = create_pool_step(s, config_dir, config);
            &&& answered(s, 0, ReplyView::Failed(why)) ==> r is Err && end.sent.len()
                == s.sent.len() + 1
            &&& answered(s, 0, ReplyView::Done) && answered(s, 1, ReplyView::Failed(why)) ==> r
                is Err && end.sent.len() == s.sent.len() + 2
            &&& answered(s, 0, ReplyView::Done) && answered(s, 1, ReplyView::Done) && answered(
                s,
                2,
                ReplyView::Failed(why),
            ) ==> r is Err && end.sent.len() == s.sent.len() + 3
        }),
{
}

/// A Postgres database is opened once, at the address configured, with as many
/// connections as configured. Without an address, or with one that is none, it is refused
/// and nothing is opened.
pub proof fn postgres_is_opened_at_its_address(
    s: SessionView,
    config_dir: Seq<char>,
    config: DatabaseConfig,
    why: Seq<char>,
)
    requires
        config.backend == Dialect::Postgres,
    ensures
        ({
            let (end, r) = create_pool_step(s, config_dir, config);
            &&& config.url is None ==> end == s && r == Err::<Dialect, ErrorView>(
                ErrorView::Refused("database.url is required for postgres backend"@),
            )
            &&& config.url matches Some(url) ==> {
                &&& postgres::address_fault(url@) matches Some(fault) ==> end == s && r == Err::<
                    Dialect,
                    ErrorView,
                >(ErrorView::Refused("Invalid postgres URL: "@ + fault))
                &&& postgres::address_fault(url@) is None ==> {
                    &&& end.sent == s.sent.push(
                        RequestView::OpenPostgresPool {
                            url: url@,
                            max_size: config.pool_max_size as u64,
                        },
                    )
                    &&& answered(s, 0, ReplyView::Done) ==> r == Ok::<Dialect, ErrorView>(
                        Dialect::Postgres,
                    )
                    &&& answered(s, 0, ReplyView::Failed(why)) ==> r is Err
                }
            }
        }),
{
}

proof fn updated_but_the_key(columns: Seq<Seq<char>>, key: Seq<char>, m: int)
    requires
        0 <= m < columns.len(),
        columns[m] != key,
    ensures
        updates(columns, key).contains(
            "\""@ + columns[m] + "\" = EXCLUDED.\""@ + columns[m] + "\""@,
        ),
    decreases columns.len(),
{
    let one = "\""@ + columns[m] + "\" = EXCLUDED.\""@ + columns[m] + "\""@;
    let before = updates(columns.drop_last(), key);
    let all = updates(columns, key);
    if m == columns.len() - 1 {
        assert(all.last() == one);
    } else {
        assert(columns.drop_last()[m] == columns[m]);
        updated_but_the_key(columns.drop_last(), key, m);
        let i = choose|i: int| 0 <= i < before.len() && before[i] == one;
        assert(all[i] == one);
    }
}

proof fn as_many_updates(columns: Seq<Seq<char>>, key: Seq<char>)
    ensures
        updates(columns, key).len() <= columns.len(),
        columns.contains(key) ==> updates(columns, key).len() < columns.len(),
    decreases columns.len(),
{
    if columns.len() > 0 {
        as_many_updates(columns.drop_last(), key);
        if columns.contains(key) && columns.last() != key {
            let i = choose|i: int| 0 <= i < columns.len() && columns[i] == key;
            assert(columns.drop_last()[i] == key);
        }
    }
}

/// An insert that meets its key updates every other column to what it would have stored,
/// and the key not.
pub proof fn an_upsert_updates_all_but_the_key(
    table: Seq<char>,
    columns: Seq<Seq<char>>,
    values: Seq<char>,
    key: Seq<char>,
    m: int,
)
    requires
        0 <= m < columns.len(),
    ensures
        ({
            let quoted = Seq::new(columns.len(), |i: int| "\""@ + columns[i] + "\""@);
            &&& upsert(table, columns, values, key) == "INSERT INTO \""@ + table + "\" ("@ + join(
                quoted,
                ", "@,
            ) + ") VALUES ("@ + values + ") ON CONFLICT (\""@ + key + "\") DO UPDATE SET "@ + join(
                updates(columns, key),
                ", "@,
            )
            &&& columns[m] != key ==> updates(columns, key).contains(
                "\""@ + columns[m] + "\" = EXCLUDED.\""@ + columns[m] + "\""@,
            )
            &&& columns[m] == key ==> updates(columns, key).len() < columns.len()
        }),
{
    let quoted = Seq::new(columns.len(), |i: int| "\""@ + columns[i] + "\""@);
    assert(postgres::quoted_columns(columns) =~= quoted);
    if columns[m] != key {
        updated_but_the_key(columns, key, m);
    } else {
        as_many_updates(columns, key);
    }
}

/// A cell is the value it holds: truth as one or zero, numbers and texts as they are, and
/// nothing where it holds none.
pub proof fn cells_are_what_they_hold(
    b: bool,
    small: i16,
    middle: i32,
    large: i64,
    bits: u64,
    text: String,
    bytes: Vec<u8>,
)
    ensures
        PgCell::Bool(Some(true)).value() == DbValueView::Integer(1),
        PgCell::Bool(Some(false)).value() == DbValueView::Integer(0),
        PgCell::Int2(Some(small)).value() == DbValueView::Integer(small as i64),
        PgCell::Int4(Some(middle)).value() == DbValueView::Integer(middle as i64),
        PgCell::Int8(Some(large)).value() == DbValueView::Integer(large),
        PgCell::Float(Some(bits)).value() == DbValueView::Real(bits),
        PgCell::Bytes(Some(bytes)).value() == DbValueView::Blob(bytes@),
        PgCell::Json(Some(text)).value() == DbValueView::Text(text@),
        PgCell::Text(Some(text)).value() == DbValueView::Text(text@),
        PgCell::Bool(None).value() == DbValueView::Null,
        PgCell::Int2(None).value() == DbValueView::Null,
        PgCell::Int4(None).value() == DbValueView::Null,
        PgCell::Int8(None).value() == DbValueView::Null,
        PgCell::Float(None).value() == DbValueView::Null,
        PgCell::Bytes(None).value() == DbValueView::Null,
        PgCell::Json(None).value() == DbValueView::Null,
        PgCell::Text(None).value() == DbValueView::Null,
{
}

/// A configuration calls the kinds of database by these words.
pub proof fn kinds_have_their_words(dialect: Dialect)
    ensures
        dialect == Dialect::Sqlite ==> dialect.word() == "sqlite"@,
        dialect == Dialect::Postgres ==> dialect.word() == "postgres"@,
{
}

} // verus!
