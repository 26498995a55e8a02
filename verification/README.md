# cms_db

The database layer of a content management system: it brings the tables of a SQLite
or Postgres database to the definitions of collections and globals, and reads
documents, drafts included. Written in Verus, every function with a contract.

## How it works

The library performs no I/O. A function that needs a database takes a
`session::Session`, which holds the answers given so far. It sends requests; where
no answer is on record it stops. The host carries out the first request without an
answer, records the answer and runs the function again:

```rust
loop {
    session.rewind();
    let result = operation(&mut session);
    match session.pending() {
        None => break result,
        Some(request) => { let reply = perform(request); session.answer(reply) }
    }
}
```

So each function is a function of its arguments and the answers, and that is what its
contract states: for `f` there is a spec function `f_step` that says, for every list
of answers, which requests are sent, what the operator is told (warnings, errors and
notes on what is being done), and what is returned.
An error says what was being done before it says what went wrong.

## Layout

- `src/session.rs`, `src/value.rs`: requests, answers, rows and errors.
- `src/replay.rs`: why the host's runs come to one.
- `src/definition.rs`, `src/names.rs`, `src/dialect.rs`: what is stored, and under
  which names and types.
- `src/migrate/`: schema synchronisation. `sync.rs` is the whole run, in one
  transaction; `helpers/` and `join_tables/` hold its parts; the other modules are
  conversions, each recorded in `_crap_meta`.
- `src/ops.rs`, `src/snapshot.rs`, `src/document.rs`, `src/query.rs`: reads.
- `src/pool.rs`, `src/postgres.rs`: pools, and what is particular to Postgres.
- `src/text.rs`, `src/order.rs`, `src/json.rs`, `src/json_text.rs`, `src/digest.rs`:
  texts, lists and JSON.
- `app/`: a host over `rusqlite` and `tokio-postgres`.
- `tests/`: the library run over an in-memory SQLite database.

Statements about several functions are `pub proof fn`s at the end of the module they
are about, such as `migrate::transaction::a_sync_is_one_transaction`.

`migrate::carrying` and `migrate::join_tables::resync` hold nothing else: references come
back as they were, and a second sync of the tables of rows changes nothing.

Three results are taken on trust, and named: a SHA-256 hash (`digest.rs`), a JSON text
parsed and printed again (`json_text.rs`), and what is wrong with the address of a
Postgres database (`postgres.rs`).
