# wallet_infra

Storage for wallets: the rules by which a wallet's transactions, outputs, baskets, labels
and certificates are exchanged between stores and kept from being lost, and the routing of
the requests that ask for it. The library is verified with Verus; `app/` runs it as a worker
on a SQL database and an object store.

## Layout

- `src/sql/`: statements as data. A statement has a text, which is sent to the database, and
  a meaning, which the proofs speak of.
- `src/storage/`: reading chunks (`read`, `fetch`), merging them in batches (`apply`,
  `upsert`, `lookup`) or row by row (`apply_rows`, `sync_row`, `sequential`), and columns
  whose bytes may live in the object store (`blob_column`). `merge`, `apply_laws` and
  `round_trip` state what holds of all of it. `run` says what the steps of a merge do to the
  tables and to the object store, and `run_laws`, `run_users` and `run_twice` state what
  holds of a merge as a whole: it loses nothing, keeps every blob that is there, leaves
  other users alone, and changes nothing when it is repeated. `run_phases` follows
  a merge phase by phase to its end and to what it answers, and `run_again` holds what the
  law of the repeated merge is proved from.
- `src/backup.rs`: encrypted backups, one object for each device.
- `src/dispatch.rs`, `src/http.rs`: which method a request calls, whether it may, with which
  arguments, and how it is answered.
- `src/codec.rs`, `src/json.rs`, `src/text.rs`, `src/time.rs`: what the rest is made of.
- `app/`: the worker. It performs the steps that the library asks for and hands back what
  came of them.
- `tests/`: the library on concrete values.

## Steps

Work that alternates decisions with the database or the object store is a machine: each step
says what is to be done outside, and the step's own method takes what came back and gives
the next step. The contract of each method fixes the next step for every answer.

## What is believed without proof

`src/codec.rs` holds three functions whose contracts Verus believes: decoding hexadecimal
text with `hex`, and encoding and decoding with the standard engine of `base64`.

Statements are believed to mean what `src/sql/expr.rs`, `src/storage/merge.rs` and
`src/storage/run.rs` say of them. One part of that rests on `app/`: a merge takes the newer
of two rows by comparing the texts of their `updated_at`, and the proofs compare instants.
The texts are ordered as the instants are because `stored_text` in `app/convert.rs` writes
every instant in UTC in one form and with the same number of digits.
