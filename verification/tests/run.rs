//! Whole merges against a store in memory.

use std::collections::BTreeMap;
use wallet_infra::entities::{TableOutput, TableOutputBasket, TableProvenTxReq, TableTransaction};
use wallet_infra::r2::object_key;
use wallet_infra::sql::query::{Param, Query};
use wallet_infra::storage::apply::{BlobColumn, Progress};
use wallet_infra::storage::blob_column::{BlobStep, BlobWrite};
use wallet_infra::storage::lookup::KeyedId;
use wallet_infra::storage::store::StorageD1;
use wallet_infra::time::Timestamp;
use wallet_infra::types::{ProcessSyncChunkResult, RequestSyncChunkArgs, SyncChunk};

#[derive(Clone, Debug, PartialEq, Eq)]
enum Value {
    Nothing,
    Whole(i64),
    Text(String),
    Bytes(Vec<u8>),
    Instant(Timestamp),
}

impl Value {
    fn is_empty(&self) -> bool {
        match self {
            Value::Nothing => true,
            Value::Bytes(b) => b.is_empty(),
            _ => false,
        }
    }

    fn seconds(&self) -> i64 {
        match self {
            Value::Instant(t) => t.seconds,
            other => panic!("no instant: {other:?}"),
        }
    }
}

fn value(p: &Param) -> Value {
    match p {
        Param::Null => Value::Nothing,
        Param::Int(n) => Value::Whole(*n),
        Param::Text(s) => Value::Text(s.clone()),
        Param::Blob(b) => Value::Bytes(b.clone()),
        Param::Time(t) => Value::Instant(*t),
    }
}

type Row = BTreeMap<String, Value>;

#[derive(Clone, Debug, PartialEq, Eq)]
struct Memory {
    tables: BTreeMap<String, BTreeMap<i64, Row>>,
    objects: BTreeMap<String, Vec<u8>>,
}

fn between<'a>(sql: &'a str, from: &str, to: &str) -> &'a str {
    let rest = &sql[sql.find(from).unwrap() + from.len()..];
    &rest[..rest.find(to).unwrap()]
}

impl Memory {
    fn new() -> Memory {
        Memory { tables: BTreeMap::new(), objects: BTreeMap::new() }
    }

    fn rows(&self, table: &str) -> Vec<(i64, &Row)> {
        self.tables.get(table).map_or(vec![], |t| t.iter().map(|(k, r)| (*k, r)).collect())
    }

    /// Runs a merging insert and gives the id that it returns.
    fn upsert(&mut self, query: &Query) -> Option<i64> {
        let table = between(&query.sql, "INSERT INTO ", " (").to_string();
        let columns = between(&query.sql, " (", ")").split(", ");
        let incoming: Row =
            columns.map(|c| c.to_string()).zip(query.params.iter().map(value)).collect();
        let key: Vec<&str> = between(&query.sql, "ON CONFLICT(", ")").split(", ").collect();
        let owned = query.sql.contains(&format!(" WHERE {table}.user_id = excluded.user_id"));
        let rows = self.tables.entry(table.clone()).or_default();
        let found = rows.iter().find(|(_, r)| key.iter().all(|c| r[*c] == incoming[*c]));
        let Some(id) = found.map(|(id, _)| *id) else {
            let id = rows.keys().last().map_or(1, |k| k + 1);
            rows.insert(id, incoming);
            return Some(id);
        };
        let stored = rows.get_mut(&id).unwrap();
        if owned && stored["user_id"] != incoming["user_id"] {
            return None;
        }
        let newer = incoming["updated_at"].seconds() > stored["updated_at"].seconds();
        for (column, new) in incoming {
            let old = stored[&column].clone();
            let fills = column == "input_beef"
                || column == "locking_script"
                || (column == "raw_tx" && table == "transactions");
            let takes = match column.as_str() {
                "user_id" | "created_at" | "txid" => false,
                "spent_by" => old == Value::Nothing,
                _ => newer && (!fills || old.is_empty()),
            };
            if takes {
                stored.insert(column, new);
            }
        }
        if stored.get("spent_by").is_some_and(|v| *v != Value::Nothing) {
            stored.insert("spendable".to_string(), Value::Whole(0));
        }
        Some(id)
    }

    fn find(&self, table: &str, by: &str, queries: &[Query]) -> Vec<KeyedId> {
        let mut found = vec![];
        for query in queries {
            for (id, row) in self.rows(table) {
                let of_user = !query.sql.contains("user_id = ?")
                    || row["user_id"] == value(&query.params[0]);
                let asked = query.params.iter().any(|p| value(p) == row[by]);
                if let (true, true, Value::Text(key)) = (of_user, asked, &row[by]) {
                    found.push(KeyedId { key: Some(key.clone()), id: Some(id) });
                }
            }
        }
        found
    }

    fn find_empty(&self, column: BlobColumn, queries: &[Query]) -> Vec<KeyedId> {
        let mut found = vec![];
        for (id, row) in self.rows(column.table_name()) {
            let key = match (&row.get("reference"), &row.get("transaction_id"), &row.get("vout")) {
                (Some(Value::Text(reference)), ..) => reference.clone(),
                (_, Some(Value::Whole(tx)), Some(Value::Whole(vout))) => format!("{tx}:{vout}"),
                _ => match &row["txid"] {
                    Value::Text(txid) => txid.clone(),
                    other => panic!("no key: {other:?}"),
                },
            };
            let asked = queries.iter().any(|q| {
                let text = Param::Text(key.clone());
                let of_user =
                    !q.sql.contains("user_id = ?") || row["user_id"] == value(&q.params[0]);
                of_user && q.params.contains(&text)
            });
            if asked && row[column.name()].is_empty() {
                found.push(KeyedId { key: Some(key), id: Some(id) });
            }
        }
        found
    }

    fn fill(&mut self, write: BlobWrite) {
        let (table, id, column) = (write.table.clone(), write.id, write.column.clone());
        let place = object_key(&table, id, &column);
        let inline = match &self.tables[&table][&id][&column] {
            Value::Bytes(b) if !b.is_empty() => Some("00".to_string()),
            _ => None,
        };
        let mut step = write.after_inline(inline);
        loop {
            step = match step {
                BlobStep::Settled => return,
                BlobStep::AskStore { write } => {
                    write.after_store(self.objects.contains_key(&place))
                }
                BlobStep::Put { write } => {
                    self.objects.insert(place.clone(), write.bytes.clone());
                    write.finish()
                }
                BlobStep::Write { query } => {
                    let row = self.tables.get_mut(&table).unwrap().get_mut(&id).unwrap();
                    row.insert(column.clone(), value(&query.params[0]));
                    return;
                }
                other => panic!("unexpected step {other:?}"),
            };
        }
    }

    /// Merges a chunk of the user with the id one. A statement that returns no id fails it.
    fn push(&mut self, chunk: SyncChunk) -> Option<ProcessSyncChunkResult> {
        let mut step = StorageD1::process_sync_chunk(1, args(), chunk).unwrap();
        loop {
            step = match step {
                Progress::RunUpserts { batch } => {
                    let ids: Vec<Option<i64>> =
                        batch.entries.iter().map(|e| self.upsert(&e.query)).collect();
                    batch.after_ids(ids.into_iter().collect::<Option<Vec<i64>>>()?)
                }
                Progress::LoadProofs { apply, queries } => {
                    apply.after_proofs(self.find("proven_txs", "txid", &queries))
                }
                Progress::LoadTxids { apply, queries } => {
                    apply.after_txids(self.find("transactions", "txid", &queries))
                }
                Progress::LoadBasketNames { apply, query } => {
                    let baskets = self.rows("output_baskets").into_iter().filter_map(|(id, r)| {
                        match (&r["name"], r["user_id"] == value(&query.params[0])) {
                            (Value::Text(name), true) => {
                                Some(KeyedId { key: Some(name.clone()), id: Some(id) })
                            }
                            _ => None,
                        }
                    });
                    let baskets = baskets.collect();
                    apply.after_basket_names(baskets)
                }
                Progress::LoadSpends { apply, queries } => {
                    apply.after_spends(self.find("transactions", "reference", &queries))
                }
                Progress::FindEmpty { apply, column, queries } => {
                    apply.after_empty(column, self.find_empty(column, &queries))
                }
                Progress::AskStore { asking } => {
                    let (table, column) = (asking.column.table_name(), asking.column.name());
                    let exists = asking
                        .found
                        .iter()
                        .map(|r| self.objects.contains_key(&object_key(table, r.id, column)));
                    let exists = exists.collect();
                    asking.after_store(exists)
                }
                Progress::PutBlobs { mut blobs } => {
                    for write in std::mem::take(&mut blobs.writes) {
                        self.fill(write);
                    }
                    blobs.after_fills()
                }
                Progress::Done { result } => return Some(result),
                other => panic!("unexpected step {other:?}"),
            };
        }
    }
}

fn at(seconds: i64) -> Timestamp {
    Timestamp { seconds, nanos: 0 }
}

fn args() -> RequestSyncChunkArgs {
    RequestSyncChunkArgs {
        from_storage_identity_key: "a".to_string(),
        to_storage_identity_key: "b".to_string(),
        identity_key: "02ab".to_string(),
        since: None,
        max_rough_size: 100,
        max_items: 10,
        offsets: vec![],
    }
}

fn nothing() -> SyncChunk {
    SyncChunk {
        from_storage_identity_key: "a".to_string(),
        to_storage_identity_key: "b".to_string(),
        user_identity_key: "02ab".to_string(),
        user: None,
        output_baskets: None,
        proven_txs: None,
        proven_tx_reqs: None,
        transactions: None,
        outputs: None,
        tx_labels: None,
        tx_label_maps: None,
        output_tags: None,
        output_tag_maps: None,
        certificates: None,
        certificate_fields: None,
        commissions: None,
    }
}

fn basket() -> TableOutputBasket {
    TableOutputBasket {
        basket_id: 7,
        user_id: 99,
        name: "default".to_string(),
        number_of_desired_utxos: 6,
        minimum_desired_utxo_value: 10000,
        created_at: at(1),
        updated_at: at(2),
    }
}

fn request(beef: Vec<u8>) -> TableProvenTxReq {
    TableProvenTxReq {
        proven_tx_req_id: 5,
        txid: "aa".to_string(),
        status: "unmined".to_string(),
        attempts: 2,
        history: "{}".to_string(),
        notified: true,
        notify: "{}".to_string(),
        raw_tx: Some(vec![9]),
        input_beef: Some(beef),
        proven_tx_id: None,
        batch: None,
        created_at: at(1),
        updated_at: at(2),
    }
}

fn transaction(reference: &str, raw_tx: Vec<u8>, updated_at: i64) -> TableTransaction {
    TableTransaction {
        transaction_id: 21,
        user_id: 99,
        txid: Some("bb".to_string()),
        status: "completed".to_string(),
        reference: reference.to_string(),
        description: "pay".to_string(),
        satoshis: -5,
        version: 1,
        lock_time: 0,
        raw_tx: Some(raw_tx),
        input_beef: None,
        is_outgoing: true,
        proof_txid: None,
        created_at: at(1),
        updated_at: at(updated_at),
    }
}

fn output(script: Vec<u8>, updated_at: i64) -> TableOutput {
    TableOutput {
        output_id: 31,
        user_id: 99,
        transaction_id: 21,
        basket_id: Some(7),
        basket_name: Some("default".to_string()),
        txid: "bb".to_string(),
        vout: 1,
        satoshis: 1000,
        locking_script: Some(script),
        script_length: 1,
        script_offset: 9,
        output_type: "P2PKH".to_string(),
        provided_by: "".to_string(),
        purpose: None,
        output_description: None,
        spent_by: Some(21),
        spent_by_reference: Some("ref".to_string()),
        sequence_number: None,
        spending_description: None,
        spendable: false,
        change: false,
        derivation_prefix: None,
        derivation_suffix: None,
        sender_identity_key: None,
        custom_instructions: None,
        created_at: at(1),
        updated_at: at(updated_at),
    }
}

fn chunk(raw_tx: Vec<u8>, script: Vec<u8>, updated_at: i64) -> SyncChunk {
    SyncChunk {
        output_baskets: Some(vec![basket()]),
        proven_tx_reqs: Some(vec![request(vec![4; 4097])]),
        transactions: Some(vec![transaction("ref", raw_tx, updated_at)]),
        outputs: Some(vec![output(script, updated_at)]),
        ..nothing()
    }
}

#[test]
fn a_second_push_changes_nothing() {
    let mut memory = Memory::new();
    let first = memory.push(chunk(vec![1; 4097], vec![2], 2)).unwrap();
    assert_eq!(first.inserts, 4);
    assert_eq!(memory.objects.len(), 2);
    let before = memory.clone();
    let second = memory.push(chunk(vec![1; 4097], vec![2], 2)).unwrap();
    assert_eq!(memory, before);
    assert_eq!(second, first);
    assert_eq!(second.updates, 0);
}

#[test]
fn a_blob_stays_where_it_is() {
    let mut memory = Memory::new();
    memory.push(chunk(vec![1; 4097], vec![2; 4097], 2)).unwrap();
    let objects = memory.objects.clone();
    let keys: Vec<&str> = objects.keys().map(|k| k.as_str()).collect();
    assert_eq!(
        keys,
        vec!["outputs/1/locking_script", "proven_tx_reqs/1/input_beef", "transactions/1/raw_tx"]
    );
    memory.push(chunk(vec![7], vec![8], 3)).unwrap();
    assert_eq!(memory.objects, objects);
    assert!(memory.tables["transactions"][&1]["raw_tx"].is_empty());
    assert!(memory.tables["outputs"][&1]["locking_script"].is_empty());
    assert_eq!(memory.tables["transactions"][&1]["updated_at"].seconds(), 3);
    let mut other = Memory::new();
    other.push(chunk(vec![7], vec![8], 2)).unwrap();
    other.push(chunk(vec![1; 4097], vec![2; 4097], 3)).unwrap();
    assert_eq!(other.tables["transactions"][&1]["raw_tx"], Value::Bytes(vec![7]));
    assert_eq!(other.tables["outputs"][&1]["locking_script"], Value::Bytes(vec![8]));
    assert!(!other.objects.contains_key("transactions/1/raw_tx"));
}

#[test]
fn the_transaction_of_another_user_fails_the_push() {
    let mut memory = Memory::new();
    memory.push(chunk(vec![7], vec![8], 2)).unwrap();
    let rows = memory.tables.get_mut("transactions").unwrap();
    rows.get_mut(&1).unwrap().insert("user_id".to_string(), Value::Whole(2));
    let before = memory.clone();
    assert_eq!(memory.push(chunk(vec![9], vec![9], 3)), None);
    assert_eq!(memory.tables["transactions"], before.tables["transactions"]);
    assert_eq!(memory.tables["outputs"], before.tables["outputs"]);
    assert_eq!(memory.objects, before.objects);
}

#[test]
fn a_push_that_fails_loses_nothing() {
    let mut memory = Memory::new();
    memory.push(chunk(vec![1; 4097], vec![8], 2)).unwrap();
    let rows = memory.tables.get_mut("transactions").unwrap();
    rows.get_mut(&1).unwrap().insert("user_id".to_string(), Value::Whole(2));
    let before = memory.clone();
    let mut later = chunk(vec![9], vec![9], 3);
    later.output_baskets =
        Some(vec![TableOutputBasket { name: "other".to_string(), ..basket() }]);
    assert_eq!(memory.push(later), None);
    for (table, rows) in &before.tables {
        assert!(rows.keys().all(|id| memory.tables[table].contains_key(id)));
    }
    assert_eq!(memory.tables["output_baskets"].len(), 2);
    assert_eq!(memory.objects, before.objects);
}

#[test]
fn a_push_is_done_exactly_without_rows() {
    let mut memory = Memory::new();
    let result = memory.push(nothing()).unwrap();
    assert!(result.done);
    assert_eq!(result.error, None);
    let result = memory.push(SyncChunk { outputs: Some(vec![]), ..nothing() }).unwrap();
    assert!(result.done);
    for _ in 0..2 {
        let result = memory.push(chunk(vec![7], vec![8], 2)).unwrap();
        assert!(!result.done);
        assert_eq!(result.error, None);
    }
    let orphan = memory.push(SyncChunk {
        outputs: Some(vec![TableOutput { txid: "none".to_string(), ..output(vec![1], 2) }]),
        ..nothing()
    });
    let orphan = orphan.unwrap();
    assert!(!orphan.done);
    assert_eq!(orphan.inserts, 0);
}
