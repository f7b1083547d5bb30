//! Building a chunk, page by page.

use wallet_infra::entities::{TableOutputTag, TableTxLabel, TableUser};
use wallet_infra::sql::query::Param;
use wallet_infra::storage::read::{
    estimate_size, fetch_page, make_offsets_lookup, ChunkingState, Entity, Page, ReadStep, Reading,
    UserRow,
};
use wallet_infra::storage::store::StorageD1;
use wallet_infra::time::Timestamp;
use wallet_infra::types::{RequestSyncChunkArgs, SyncChunk, SyncOffset};

const ENTITIES: [(Entity, &str); 12] = [
    (Entity::OutputBasket, "outputBasket"),
    (Entity::ProvenTx, "provenTx"),
    (Entity::ProvenTxReq, "provenTxReq"),
    (Entity::TxLabel, "txLabel"),
    (Entity::OutputTag, "outputTag"),
    (Entity::Transaction, "transaction"),
    (Entity::Output, "output"),
    (Entity::TxLabelMap, "txLabelMap"),
    (Entity::OutputTagMap, "outputTagMap"),
    (Entity::Certificate, "certificate"),
    (Entity::CertificateField, "certificateField"),
    (Entity::Commission, "commission"),
];

fn at(seconds: i64) -> Timestamp {
    Timestamp { seconds, nanos: 0 }
}

fn offset(name: &str, offset: u32) -> SyncOffset {
    SyncOffset { name: name.to_string(), offset }
}

fn args(since: Option<Timestamp>, offsets: Vec<SyncOffset>) -> RequestSyncChunkArgs {
    RequestSyncChunkArgs {
        from_storage_identity_key: "from".to_string(),
        to_storage_identity_key: "to".to_string(),
        identity_key: "02ab".to_string(),
        since,
        max_rough_size: 100,
        max_items: 3,
        offsets,
    }
}

fn label(n: i64) -> TableTxLabel {
    TableTxLabel {
        label_id: n,
        user_id: 1,
        label: format!("l{n}"),
        created_at: at(1),
        updated_at: at(2),
    }
}

fn tag(n: i64) -> TableOutputTag {
    TableOutputTag {
        tag_id: n,
        user_id: 1,
        tag: format!("t{n}"),
        created_at: at(1),
        updated_at: at(2),
    }
}

fn user_row() -> UserRow {
    UserRow {
        user_id: None,
        identity_key: None,
        active_storage: Some("store".to_string()),
        created_at: at(1),
        updated_at: at(5),
    }
}

fn start(args: RequestSyncChunkArgs) -> Reading {
    match StorageD1::get_sync_chunk(1, args) {
        ReadStep::FetchUser { reading, query } => {
            assert_eq!(
                query.sql,
                "SELECT user_id, identity_key, active_storage, created_at, updated_at \
                 FROM users WHERE user_id = ?"
            );
            assert_eq!(query.params, vec![Param::Int(1)]);
            reading
        }
        other => panic!("unexpected step {other:?}"),
    }
}

fn page(step: ReadStep) -> (Reading, Entity, u32, u32) {
    match step {
        ReadStep::Fetch { reading, entity, offset, limit } => (reading, entity, offset, limit),
        other => panic!("unexpected step {other:?}"),
    }
}

fn chunk(step: ReadStep) -> SyncChunk {
    match step {
        ReadStep::Done { chunk } => chunk,
        other => panic!("unexpected step {other:?}"),
    }
}

#[test]
fn no_offsets_give_the_user_alone() {
    let chunk = chunk(start(args(None, vec![])).after_user_row(Some(user_row())));
    assert_eq!(
        chunk.user,
        Some(TableUser {
            user_id: 1,
            identity_key: "02ab".to_string(),
            active_storage: Some("store".to_string()),
            created_at: at(1),
            updated_at: at(5),
        })
    );
    assert_eq!(chunk.from_storage_identity_key, "from");
    assert_eq!(chunk.to_storage_identity_key, "to");
    assert_eq!(chunk.user_identity_key, "02ab");
    assert_eq!(chunk.tx_labels, None);
}

#[test]
fn an_unchanged_user_is_left_out() {
    for (since, there) in [(4, true), (5, false), (6, false)] {
        let step = start(args(Some(at(since)), vec![])).after_user_row(Some(user_row()));
        assert_eq!(chunk(step).user.is_some(), there);
    }
    assert_eq!(chunk(start(args(None, vec![])).after_user_row(None)).user, None);
}

#[test]
fn entities_are_read_in_order_and_once() {
    let offsets = ENTITIES.iter().rev().map(|(_, name)| offset(name, 4)).collect();
    let mut step = start(args(None, offsets)).after_user_row(None);
    for (entity, name) in ENTITIES {
        assert_eq!(entity.name(), name);
        let (reading, e, o, limit) = page(step);
        assert_eq!((e, o, limit), (entity, 4, 3));
        step = reading.after_page(e, Page::TxLabel(vec![]), 0);
    }
    assert_eq!(chunk(step).tx_labels, None);
}

#[test]
fn the_caps_bound_a_chunk() {
    let offsets = || vec![offset("txLabel", 0), offset("outputTag", 7), offset("output", 0)];
    let (reading, entity, _, limit) =
        page(start(args(None, offsets())).after_user_row(None));
    assert_eq!((entity, limit), (Entity::TxLabel, 3));
    let step = reading.after_page(entity, Page::TxLabel(vec![label(1), label(2)]), 60);
    let (reading, entity, from, limit) = page(step);
    assert_eq!((entity, from, limit), (Entity::OutputTag, 7, 1));
    let full = chunk(reading.after_page(entity, Page::OutputTag(vec![tag(1)]), 1));
    assert_eq!(full.tx_labels, Some(vec![label(1), label(2)]));
    assert_eq!(full.output_tags, Some(vec![tag(1)]));
    assert_eq!(full.outputs, None);

    let (reading, entity, ..) = page(start(args(None, offsets())).after_user_row(None));
    let heavy = chunk(reading.after_page(entity, Page::TxLabel(vec![label(1)]), 100));
    assert_eq!(heavy.output_tags, None);
}

#[test]
fn the_later_offset_counts() {
    let list = [offset("txLabel", 1), offset("output", 2), offset("txLabel", 3)];
    let map = make_offsets_lookup(&list);
    assert_eq!(map.get("txLabel"), Some(3));
    assert_eq!(map.get("output"), Some(2));
    assert_eq!(map.get("commission"), None);
}

#[test]
fn chunking_state_counts_items_and_size() {
    let mut state = ChunkingState::new(2, 10);
    assert!(state.can_add());
    assert_eq!(state.remaining_items(), 2);
    state.add_items(1, 9);
    assert!(state.can_add());
    assert_eq!(state.remaining_items(), 1);
    state.add_items(0, 1);
    assert!(!state.can_add());
    state.add_items(5, 0);
    assert_eq!(state.remaining_items(), 0);
    assert!(!ChunkingState::new(0, 10).can_add());
}

#[test]
fn sizes_are_lengths() {
    assert_eq!(estimate_size(Some(17)), 17);
    assert_eq!(estimate_size(None), 0);
    assert_eq!(estimate_size(Some((1usize << 32) + 3)), 3);
}

#[test]
fn every_entity_has_its_statement() {
    let tables = [
        "output_baskets",
        "proven_txs",
        "proven_tx_reqs",
        "tx_labels",
        "output_tags",
        "transactions t",
        "outputs o",
        "tx_labels_map m",
        "output_tags_map m",
        "certificates",
        "certificate_fields",
        "commissions",
    ];
    for ((entity, _), table) in ENTITIES.iter().zip(tables) {
        let q = fetch_page(*entity, 1, None, 20, 30);
        assert!(q.sql.contains(&format!(" FROM {table} ")), "{}", q.sql);
        assert_eq!(q.params[q.params.len() - 2..], [Param::Int(30), Param::Int(20)]);
    }
}

#[test]
fn a_whole_chunk_keeps_its_cap() {
    for (most, labels, tags) in [(0, 0, 0), (1, 1, 0), (4, 4, 0), (5, 5, 0), (7, 5, 2), (20, 5, 5)] {
        let offsets = vec![offset("txLabel", 0), offset("outputTag", 0), offset("commission", 0)];
        let request = RequestSyncChunkArgs { max_items: most, ..args(None, offsets) };
        let mut step = StorageD1::get_sync_chunk(1, request);
        let mut steps = 0;
        let full = loop {
            steps += 1;
            step = match step {
                ReadStep::FetchUser { reading, .. } => reading.after_user_row(Some(user_row())),
                ReadStep::Fetch { reading, entity, limit, .. } => {
                    let n = limit.min(5) as i64;
                    let rows = match entity {
                        Entity::TxLabel => Page::TxLabel((0..n).map(label).collect()),
                        Entity::OutputTag => Page::OutputTag((0..n).map(tag).collect()),
                        _ => Page::Commission(vec![]),
                    };
                    reading.after_page(entity, rows, 1)
                }
                ReadStep::Done { chunk } => break chunk,
            };
        };
        assert!(steps <= 14);
        assert_eq!(full.tx_labels.map_or(0, |rows| rows.len()), labels);
        assert_eq!(full.output_tags.map_or(0, |rows| rows.len()), tags);
        assert!(labels + tags <= most as usize);
    }
}
