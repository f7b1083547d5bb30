//! Columns whose bytes may live in the object store.

use wallet_infra::error::Error;
use wallet_infra::r2::{object_key, should_use_r2, THRESHOLD};
use wallet_infra::sql::query::{Param, Query};
use wallet_infra::storage::blob_column::{
    decode_blob_with_r2, inline_blob, put_blob_column, table_pk_prefix, BlobSource, BlobStep,
    BlobWrite,
};
use wallet_infra::time::Timestamp;

fn at(seconds: i64) -> Timestamp {
    Timestamp { seconds, nanos: 0 }
}

fn write(also_updated: bool) -> BlobWrite {
    BlobWrite {
        table: "outputs".to_string(),
        id: 8,
        column: "locking_script".to_string(),
        bytes: vec![1, 2],
        updated_at: at(3),
        also_updated,
    }
}

#[test]
fn only_long_blobs_leave_the_row() {
    assert_eq!(THRESHOLD, 4096);
    assert!(!should_use_r2(&vec![0; 4096]));
    assert!(should_use_r2(&vec![0; 4097]));
    assert_eq!(object_key("outputs", 8, "locking_script"), "outputs/8/locking_script");
    assert_eq!(object_key("t", -12, "c"), "t/-12/c");
}

#[test]
fn tables_have_id_columns() {
    assert_eq!(table_pk_prefix("transactions"), "transaction");
    assert_eq!(table_pk_prefix("outputs"), "output");
    assert_eq!(table_pk_prefix("proven_tx_reqs"), "proven_tx_req");
    assert_eq!(table_pk_prefix("proven_txs"), "proven_tx");
    assert_eq!(table_pk_prefix("users"), "");
}

#[test]
fn a_missing_blob_fills_nothing() {
    assert_eq!(
        put_blob_column("outputs", 8, "locking_script", None, at(3), false),
        BlobStep::Settled
    );
}

#[test]
fn the_column_is_read_first() {
    assert_eq!(
        put_blob_column("outputs", 8, "locking_script", Some(&[1, 2]), at(3), false),
        BlobStep::ReadInline {
            query: Query {
                sql: "SELECT hex(locking_script) AS v FROM outputs WHERE output_id = ?".to_string(),
                params: vec![Param::Int(8)],
            },
            write: write(false),
        }
    );
}

#[test]
fn a_filled_blob_is_left_alone() {
    assert_eq!(write(false).after_inline(Some("00".to_string())), BlobStep::Settled);
    assert_eq!(write(false).after_store(true), BlobStep::Settled);
}

#[test]
fn an_empty_column_is_filled_while_it_is_empty() {
    assert_eq!(
        write(false).after_inline(Some("".to_string())),
        BlobStep::AskStore { write: write(false) }
    );
    assert_eq!(write(false).after_inline(None), BlobStep::AskStore { write: write(false) });
    assert_eq!(
        write(false).after_store(false),
        BlobStep::Write {
            query: Query {
                sql: "UPDATE outputs SET locking_script = ? WHERE output_id = ? AND \
                      (locking_script IS NULL OR length(locking_script) = 0)"
                    .to_string(),
                params: vec![Param::Blob(vec![1, 2]), Param::Int(8)],
            }
        }
    );
}

#[test]
fn a_long_blob_is_put_and_its_column_stays_empty() {
    let long = |also_updated| BlobWrite { bytes: vec![7; 4097], ..write(also_updated) };
    assert_eq!(long(true).after_store(true), BlobStep::Settled);
    assert_eq!(long(true).after_store(false), BlobStep::Put { write: long(true) });
    assert_eq!(
        long(true).finish(),
        BlobStep::Write {
            query: Query {
                sql: "UPDATE outputs SET locking_script = ?, updated_at = ? WHERE output_id = ? \
                      AND (locking_script IS NULL OR length(locking_script) = 0)"
                    .to_string(),
                params: vec![Param::Null, Param::Time(at(3)), Param::Int(8)],
            }
        }
    );
    let most = BlobWrite { bytes: vec![7; 4096], ..write(false) };
    assert!(matches!(most.after_store(false), BlobStep::Write { .. }));
}

#[test]
fn hexadecimal_text_is_decoded() {
    let found = |id: i64, hex: Option<&str>| {
        decode_blob_with_r2("outputs", id, "locking_script", &hex.map(|h| h.to_string()))
    };
    assert_eq!(found(8, Some("00fFA0")), Ok(BlobSource::Inline(vec![0, 255, 160])));
    assert_eq!(
        found(8, Some("")),
        Ok(BlobSource::Store {
            table: "outputs".to_string(),
            id: 8,
            column: "locking_script".to_string()
        })
    );
    assert!(matches!(found(8, None), Ok(BlobSource::Store { .. })));
    assert_eq!(found(0, None), Ok(BlobSource::Missing));
    assert_eq!(found(-1, Some("")), Ok(BlobSource::Missing));
}

#[test]
fn bad_hexadecimal_text_is_an_error() {
    let why = |hex: &str| match decode_blob_with_r2("outputs", 8, "c", &Some(hex.to_string())) {
        Err(Error::InternalError(message)) => message,
        other => panic!("unexpected outcome {other:?}"),
    };
    assert_eq!(why("0"), "Bad hex in outputs.c (id=8): Odd number of digits");
    assert_eq!(
        why("0g"),
        "Bad hex in outputs.c (id=8): Invalid character 'g' at position 1"
    );
    assert_eq!(
        inline_blob("t", 1, "c", Err("why".to_string())),
        Err(Error::InternalError("Bad hex in t.c (id=1): why".to_string()))
    );
    assert_eq!(inline_blob("t", 1, "c", Ok(vec![7])), Ok(BlobSource::Inline(vec![7])));
}
