# whiterabbit

A bookkeeping domain library in Verus. Journals own trees of accounts
(five roots, one per account type); records post amounts to accounts,
either as transactions (which may or may not balance) or as validations of
expected balances. Services turn commands (create, update, delete,
archive, batch) into events and store changes, all-or-nothing per command.

Layout:

- `src/account`, `src/journal`, `src/record`: entities, inputs, events,
  commands, specifications, repositories and services, each with
  contracts over mathematical views.
- `src/specification.rs`: specification expressions (leaf, all, any, not)
  and their evaluation.
- `src/store.rs`, `src/inmemory`: the in-memory store, its session
  (begin, commit, rollback) and repositories.
- `src/seaorm`: query conditions for an SQL store, and the rows that
  entities are written to and read from, with read-after-write laws;
  `src/seaorm/semantics.rs` reads a condition over a row and shows that
  the journal, account and record conditions select what the
  specifications match.
- `src/laws.rs`: properties that span several functions.
- `src/decimal.rs`, `src/runtime.rs`, `src/text.rs`: the calls into
  `rust_decimal`, `chrono`, `uuid` and `std` that the logic relies on,
  behind trusted wrappers.
- `app/`: JSON encoding of record costs (serde).
- `tests/`: scenarios on concrete values.
