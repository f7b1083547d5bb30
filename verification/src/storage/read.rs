//! Building a bounded chunk of a user's data, step by step.

use crate::entities::{
    TableCertificate, TableCertificateField, TableCommission, TableOutput, TableOutputBasket,
    TableOutputTag, TableOutputTagMap, TableProvenTx, TableProvenTxReq, TableTransaction,
    TableTxLabel, TableTxLabelMap, TableUser,
};
use crate::sql::query::{Param, Query, QueryView, SqlValue};
use crate::storage::apply::{counted, found, rows_of};
use crate::storage::fetch::{
    fetch_baskets_for_sync, fetch_certificate_fields_for_sync, fetch_certificates_for_sync,
    fetch_commissions_for_sync, fetch_output_tag_maps_for_sync, fetch_output_tags_for_sync,
    fetch_outputs_for_sync, fetch_proven_tx_reqs_for_sync, fetch_proven_txs_for_sync,
    fetch_transactions_for_sync, fetch_tx_label_maps_for_sync, fetch_tx_labels_for_sync, page,
    BASKETS_SELECT, CERTIFICATES_SELECT, CERTIFICATE_FIELDS_SELECT, COMMISSIONS_SELECT,
    OUTPUTS_SELECT, OUTPUT_TAGS_SELECT, OUTPUT_TAG_MAPS_SELECT, PROVEN_TXS_SELECT,
    PROVEN_TX_REQS_SELECT, TRANSACTIONS_SELECT, TX_LABELS_SELECT, TX_LABEL_MAPS_SELECT,
};
use crate::storage::store::StorageD1;
use crate::text::TextMap;
use crate::time::Timestamp;
use crate::types::{RequestSyncChunkArgs, SyncChunk, SyncOffset};
use vstd::prelude::*;

verus! {

// ---------------------------------------------------------------------------
// Caps
// ---------------------------------------------------------------------------

/// How much a chunk carries, and how much it may.
#[derive(Clone, Copy, Debug, PartialEq, Eq, Structural)]
pub struct ChunkingState {
    pub items_count: u32,
    pub rough_size: u32,
    pub max_items: u32,
    pub max_rough_size: u32,
}

impl ChunkingState {
    /// An empty chunk with the given caps.
    pub fn new(max_items: u32, max_rough_size: u32) -> (state: ChunkingState)
        ensures
            state == (ChunkingState { items_count: 0, rough_size: 0, max_items, max_rough_size }),
    {
        ChunkingState { items_count: 0, rough_size: 0, max_items, max_rough_size }
    }

    /// Whether the chunk is below both caps.
    pub open spec fn open_for_more(self) -> bool {
        self.items_count < self.max_items && self.rough_size < self.max_rough_size
    }

    /// Whether the chunk is below both caps.
    pub fn can_add(&self) -> (more: bool)
        ensures
            more == self.open_for_more(),
    {
        self.items_count < self.max_items && self.rough_size < self.max_rough_size
    }

    /// The state with more items in the chunk. Both counters count modulo two to the
    /// thirty-second.
    pub open spec fn with_items(self, count: u32, size: u32) -> ChunkingState {
        ChunkingState {
            items_count: counted(self.items_count, count as nat),
            rough_size: counted(self.rough_size, size as nat),
            ..self
        }
    }

    /// Counts items that went in the chunk.
    pub fn add_items(&mut self, count: u32, size: u32)
        ensures
            *final(self) == old(self).with_items(count, size),
    {
        self.items_count = self.items_count.wrapping_add(count);
        self.rough_size = self.rough_size.wrapping_add(size);
    }

    /// How many items still go in.
    pub open spec fn room(self) -> u32 {
        if self.items_count <= self.max_items {
            (self.max_items - self.items_count) as u32
        } else {
            0
        }
    }

    /// How many items still go in.
    pub fn remaining_items(&self) -> (n: u32)
        ensures
            n == self.room(),
    {
        self.max_items.saturating_sub(self.items_count)
    }
}

/// The rough size of rows: the length of their serialized text, modulo two to the
/// thirty-second, and nothing where they could not be serialized.
pub fn estimate_size(serialized: Option<usize>) -> (size: u32)
    ensures
        size == (match serialized {
            Some(len) => (len as nat % 0x1_0000_0000) as u32,
            None => 0,
        }),
{
    match serialized {
        Some(len) => {
            let wide: u64 = len as u64;
            (wide % 0x1_0000_0000) as u32
        },
        None => 0,
    }
}

/// A page that has no more rows than there is room for keeps the chunk within its cap, and
/// is counted exactly.
pub proof fn a_page_keeps_the_cap(state: ChunkingState, count: u32, size: u32)
    requires
        state.items_count <= state.max_items,
        count <= state.room(),
    ensures
        state.with_items(count, size).items_count == state.items_count + count,
        state.with_items(count, size).items_count <= state.max_items,
        state.with_items(count, size).room() == state.room() - count,
{
}

// ---------------------------------------------------------------------------
// Offsets
// ---------------------------------------------------------------------------

/// The offsets by the names of their entities; of two with one name the later counts.
pub open spec fn offsets_by_name(offsets: Seq<SyncOffset>) -> Map<Seq<char>, u32>
    decreases offsets.len(),
{
    if offsets.len() == 0 {
        Map::empty()
    } else {
        offsets_by_name(offsets.drop_last()).insert(offsets.last().name@, offsets.last().offset)
    }
}

/// The offsets by the names of their entities.
pub fn make_offsets_lookup(offsets: &[SyncOffset]) -> (map: TextMap<u32>)
    ensures
        map.wf(),
        map@ == offsets_by_name(offsets@),
{
    let mut map: TextMap<u32> = TextMap::new();
    let mut i: usize = 0;
    while i < offsets.len()
        invariant
            i <= offsets@.len(),
            map.wf(),
            map@ == offsets_by_name(offsets@.take(i as int)),
        decreases offsets@.len() - i,
    {
        proof {
            assert(offsets@.take(i + 1).drop_last() =~= offsets@.take(i as int));
        }
        map.insert(offsets[i].name.clone(), offsets[i].offset);
        i = i + 1;
    }
    assert(offsets@.take(i as int) =~= offsets@);
    map
}

// ---------------------------------------------------------------------------
// Entities
// ---------------------------------------------------------------------------

/// The entities of a chunk in the order in which they are read, parents before children.
#[derive(Clone, Copy, Debug, PartialEq, Eq, Structural)]
pub enum Entity {
    OutputBasket,
    ProvenTx,
    ProvenTxReq,
    TxLabel,
    OutputTag,
    Transaction,
    Output,
    TxLabelMap,
    OutputTagMap,
    Certificate,
    CertificateField,
    Commission,
}

impl Entity {
    /// The name of the entity in an offset.
    pub open spec fn text(self) -> Seq<char> {
        match self {
            Entity::OutputBasket => "outputBasket"@,
            Entity::ProvenTx => "provenTx"@,
            Entity::ProvenTxReq => "provenTxReq"@,
            Entity::TxLabel => "txLabel"@,
            Entity::OutputTag => "outputTag"@,
            Entity::Transaction => "transaction"@,
            Entity::Output => "output"@,
            Entity::TxLabelMap => "txLabelMap"@,
            Entity::OutputTagMap => "outputTagMap"@,
            Entity::Certificate => "certificate"@,
            Entity::CertificateField => "certificateField"@,
            Entity::Commission => "commission"@,
        }
    }

    /// The name of the entity in an offset.
    pub fn name(&self) -> (name: &'static str)
        ensures
            name@ == self.text(),
    {
        match self {
            Entity::OutputBasket => "outputBasket",
            Entity::ProvenTx => "provenTx",
            Entity::ProvenTxReq => "provenTxReq",
            Entity::TxLabel => "txLabel",
            Entity::OutputTag => "outputTag",
            Entity::Transaction => "transaction",
            Entity::Output => "output",
            Entity::TxLabelMap => "txLabelMap",
            Entity::OutputTagMap => "outputTagMap",
            Entity::Certificate => "certificate",
            Entity::CertificateField => "certificateField",
            Entity::Commission => "commission",
        }
    }

    /// What a page of the entity selects, for the user that it binds.
    pub open spec fn select(self) -> Seq<char> {
        match self {
            Entity::OutputBasket => BASKETS_SELECT@,
            Entity::ProvenTx => PROVEN_TXS_SELECT@,
            Entity::ProvenTxReq => PROVEN_TX_REQS_SELECT@,
            Entity::TxLabel => TX_LABELS_SELECT@,
            Entity::OutputTag => OUTPUT_TAGS_SELECT@,
            Entity::Transaction => TRANSACTIONS_SELECT@,
            Entity::Output => OUTPUTS_SELECT@,
            Entity::TxLabelMap => TX_LABEL_MAPS_SELECT@,
            Entity::OutputTagMap => OUTPUT_TAG_MAPS_SELECT@,
            Entity::Certificate => CERTIFICATES_SELECT@,
            Entity::CertificateField => CERTIFICATE_FIELDS_SELECT@,
            Entity::Commission => COMMISSIONS_SELECT@,
        }
    }

    /// How a page of the entity names the table that it is ordered by.
    pub open spec fn qualifier(self) -> Seq<char> {
        match self {
            Entity::Transaction => "t."@,
            Entity::Output => "o."@,
            Entity::TxLabelMap | Entity::OutputTagMap => "m."@,
            _ => ""@,
        }
    }

    pub open spec fn following(self) -> Option<Entity> {
        match self {
            Entity::OutputBasket => Some(Entity::ProvenTx),
            Entity::ProvenTx => Some(Entity::ProvenTxReq),
            Entity::ProvenTxReq => Some(Entity::TxLabel),
            Entity::TxLabel => Some(Entity::OutputTag),
            Entity::OutputTag => Some(Entity::Transaction),
            Entity::Transaction => Some(Entity::Output),
            Entity::Output => Some(Entity::TxLabelMap),
            Entity::TxLabelMap => Some(Entity::OutputTagMap),
            Entity::OutputTagMap => Some(Entity::Certificate),
            Entity::Certificate => Some(Entity::CertificateField),
            Entity::CertificateField => Some(Entity::Commission),
            Entity::Commission => None,
        }
    }

    /// How many entities come after this one.
    pub open spec fn left(self) -> nat {
        match self {
            Entity::OutputBasket => 11,
            Entity::ProvenTx => 10,
            Entity::ProvenTxReq => 9,
            Entity::TxLabel => 8,
            Entity::OutputTag => 7,
            Entity::Transaction => 6,
            Entity::Output => 5,
            Entity::TxLabelMap => 4,
            Entity::OutputTagMap => 3,
            Entity::Certificate => 2,
            Entity::CertificateField => 1,
            Entity::Commission => 0,
        }
    }

    fn next(&self) -> (entity: Option<Entity>)
        ensures
            entity == self.following(),
    {
        match self {
            Entity::OutputBasket => Some(Entity::ProvenTx),
            Entity::ProvenTx => Some(Entity::ProvenTxReq),
            Entity::ProvenTxReq => Some(Entity::TxLabel),
            Entity::TxLabel => Some(Entity::OutputTag),
            Entity::OutputTag => Some(Entity::Transaction),
            Entity::Transaction => Some(Entity::Output),
            Entity::Output => Some(Entity::TxLabelMap),
            Entity::TxLabelMap => Some(Entity::OutputTagMap),
            Entity::OutputTagMap => Some(Entity::Certificate),
            Entity::Certificate => Some(Entity::CertificateField),
            Entity::CertificateField => Some(Entity::Commission),
            Entity::Commission => None,
        }
    }
}

/// The statement for a page of an entity.
pub open spec fn page_of(
    entity: Entity,
    user_id: i64,
    since: Option<Timestamp>,
    offset: u32,
    limit: u32,
) -> QueryView {
    page(entity.select(), entity.qualifier(), user_id, since, offset, limit)
}

/// Every page is asked for on behalf of a user: its statement binds the user first, so
/// that the statements for two users differ.
pub proof fn a_page_is_of_its_user(
    entity: Entity,
    user_id: i64,
    other: i64,
    since: Option<Timestamp>,
    offset: u32,
    limit: u32,
)
    ensures
        page_of(entity, user_id, since, offset, limit).params[0] == SqlValue::Int(user_id as int),
        page_of(entity, user_id, since, offset, limit) == page_of(
            entity,
            other,
            since,
            offset,
            limit,
        ) ==> user_id == other,
{
    assert(page_of(entity, other, since, offset, limit).params[0] == SqlValue::Int(other as int));
}

/// The statement for a page of an entity.
pub fn fetch_page(
    entity: Entity,
    user_id: i64,
    since: Option<Timestamp>,
    offset: u32,
    limit: u32,
) -> (q: Query)
    ensures
        q@ == page_of(entity, user_id, since, offset, limit),
{
    match entity {
        Entity::OutputBasket => fetch_baskets_for_sync(user_id, since, offset, limit),
        Entity::ProvenTx => fetch_proven_txs_for_sync(user_id, since, offset, limit),
        Entity::ProvenTxReq => fetch_proven_tx_reqs_for_sync(user_id, since, offset, limit),
        Entity::TxLabel => fetch_tx_labels_for_sync(user_id, since, offset, limit),
        Entity::OutputTag => fetch_output_tags_for_sync(user_id, since, offset, limit),
        Entity::Transaction => fetch_transactions_for_sync(user_id, since, offset, limit),
        Entity::Output => fetch_outputs_for_sync(user_id, since, offset, limit),
        Entity::TxLabelMap => fetch_tx_label_maps_for_sync(user_id, since, offset, limit),
        Entity::OutputTagMap => fetch_output_tag_maps_for_sync(user_id, since, offset, limit),
        Entity::Certificate => fetch_certificates_for_sync(user_id, since, offset, limit),
        Entity::CertificateField => fetch_certificate_fields_for_sync(
            user_id,
            since,
            offset,
            limit,
        ),
        Entity::Commission => fetch_commissions_for_sync(user_id, since, offset, limit),
    }
}

/// The rows of a page.
#[derive(Debug, PartialEq, Eq)]
pub enum Page {
    OutputBasket(Vec<TableOutputBasket>),
    ProvenTx(Vec<TableProvenTx>),
    ProvenTxReq(Vec<TableProvenTxReq>),
    TxLabel(Vec<TableTxLabel>),
    OutputTag(Vec<TableOutputTag>),
    Transaction(Vec<TableTransaction>),
    Output(Vec<TableOutput>),
    TxLabelMap(Vec<TableTxLabelMap>),
    OutputTagMap(Vec<TableOutputTagMap>),
    Certificate(Vec<TableCertificate>),
    CertificateField(Vec<TableCertificateField>),
    Commission(Vec<TableCommission>),
}

impl Page {
    /// How many rows the page has.
    pub open spec fn count(self) -> nat {
        match self {
            Page::OutputBasket(rows) => rows@.len(),
            Page::ProvenTx(rows) => rows@.len(),
            Page::ProvenTxReq(rows) => rows@.len(),
            Page::TxLabel(rows) => rows@.len(),
            Page::OutputTag(rows) => rows@.len(),
            Page::Transaction(rows) => rows@.len(),
            Page::Output(rows) => rows@.len(),
            Page::TxLabelMap(rows) => rows@.len(),
            Page::OutputTagMap(rows) => rows@.len(),
            Page::Certificate(rows) => rows@.len(),
            Page::CertificateField(rows) => rows@.len(),
            Page::Commission(rows) => rows@.len(),
        }
    }

    fn len(&self) -> (n: usize)
        ensures
            n == self.count(),
    {
        match self {
            Page::OutputBasket(rows) => rows.len(),
            Page::ProvenTx(rows) => rows.len(),
            Page::ProvenTxReq(rows) => rows.len(),
            Page::TxLabel(rows) => rows.len(),
            Page::OutputTag(rows) => rows.len(),
            Page::Transaction(rows) => rows.len(),
            Page::Output(rows) => rows.len(),
            Page::TxLabelMap(rows) => rows.len(),
            Page::OutputTagMap(rows) => rows.len(),
            Page::Certificate(rows) => rows.len(),
            Page::CertificateField(rows) => rows.len(),
            Page::Commission(rows) => rows.len(),
        }
    }
}

/// A chunk with the rows of a page in their place.
pub open spec fn with_page(chunk: SyncChunk, page: Page) -> SyncChunk {
    match page {
        Page::OutputBasket(rows) => SyncChunk { output_baskets: Some(rows), ..chunk },
        Page::ProvenTx(rows) => SyncChunk { proven_txs: Some(rows), ..chunk },
        Page::ProvenTxReq(rows) => SyncChunk { proven_tx_reqs: Some(rows), ..chunk },
        Page::TxLabel(rows) => SyncChunk { tx_labels: Some(rows), ..chunk },
        Page::OutputTag(rows) => SyncChunk { output_tags: Some(rows), ..chunk },
        Page::Transaction(rows) => SyncChunk { transactions: Some(rows), ..chunk },
        Page::Output(rows) => SyncChunk { outputs: Some(rows), ..chunk },
        Page::TxLabelMap(rows) => SyncChunk { tx_label_maps: Some(rows), ..chunk },
        Page::OutputTagMap(rows) => SyncChunk { output_tag_maps: Some(rows), ..chunk },
        Page::Certificate(rows) => SyncChunk { certificates: Some(rows), ..chunk },
        Page::CertificateField(rows) => SyncChunk { certificate_fields: Some(rows), ..chunk },
        Page::Commission(rows) => SyncChunk { commissions: Some(rows), ..chunk },
    }
}

fn place(chunk: &mut SyncChunk, page: Page)
    ensures
        *final(chunk) == with_page(*old(chunk), page),
{
    match page {
        Page::OutputBasket(rows) => {
            chunk.output_baskets = Some(rows);
        },
        Page::ProvenTx(rows) => {
            chunk.proven_txs = Some(rows);
        },
        Page::ProvenTxReq(rows) => {
            chunk.proven_tx_reqs = Some(rows);
        },
        Page::TxLabel(rows) => {
            chunk.tx_labels = Some(rows);
        },
        Page::OutputTag(rows) => {
            chunk.output_tags = Some(rows);
        },
        Page::Transaction(rows) => {
            chunk.transactions = Some(rows);
        },
        Page::Output(rows) => {
            chunk.outputs = Some(rows);
        },
        Page::TxLabelMap(rows) => {
            chunk.tx_label_maps = Some(rows);
        },
        Page::OutputTagMap(rows) => {
            chunk.output_tag_maps = Some(rows);
        },
        Page::Certificate(rows) => {
            chunk.certificates = Some(rows);
        },
        Page::CertificateField(rows) => {
            chunk.certificate_fields = Some(rows);
        },
        Page::Commission(rows) => {
            chunk.commissions = Some(rows);
        },
    }
}

// ---------------------------------------------------------------------------
// The user record
// ---------------------------------------------------------------------------

/// The user record as the store gives it.
#[derive(Debug, PartialEq, Eq)]
pub struct UserRow {
    pub user_id: Option<i64>,
    pub identity_key: Option<String>,
    pub active_storage: Option<String>,
    pub created_at: Timestamp,
    pub updated_at: Timestamp,
}

/// The user record with what stands for missing values.
pub open spec fn user_of(row: UserRow, user_id: i64, identity_key: String) -> TableUser {
    TableUser {
        user_id: row.user_id.unwrap_or(user_id),
        identity_key: match row.identity_key {
            Some(key) => key,
            None => identity_key,
        },
        active_storage: row.active_storage,
        created_at: row.created_at,
        updated_at: row.updated_at,
    }
}

pub open spec fn user_query(user_id: i64) -> QueryView {
    QueryView {
        sql: "SELECT user_id, identity_key, active_storage, created_at, updated_at FROM users WHERE user_id = ?"@,
        params: seq![SqlValue::Int(user_id as int)],
    }
}

// ---------------------------------------------------------------------------
// Steps
// ---------------------------------------------------------------------------

/// A chunk under construction.
#[derive(Debug, PartialEq, Eq)]
pub struct Reading {
    pub user_id: i64,
    pub args: RequestSyncChunkArgs,
    pub chunk: SyncChunk,
    pub state: ChunkingState,
}

/// What building the chunk takes next.
#[derive(Debug, PartialEq, Eq)]
pub enum ReadStep {
    /// Read the user record.
    FetchUser { reading: Reading, query: Query },
    /// Read a page of an entity, and learn the rows and their rough size.
    Fetch { reading: Reading, entity: Entity, offset: u32, limit: u32 },
    /// The chunk.
    Done { chunk: SyncChunk },
}

/// A chunk that carries nothing yet.
pub open spec fn empty_chunk(args: RequestSyncChunkArgs) -> SyncChunk {
    SyncChunk {
        from_storage_identity_key: args.from_storage_identity_key,
        to_storage_identity_key: args.to_storage_identity_key,
        user_identity_key: args.identity_key,
        user: None,
        output_baskets: None,
        proven_txs: None,
        proven_tx_reqs: None,
        tx_labels: None,
        output_tags: None,
        transactions: None,
        outputs: None,
        tx_label_maps: None,
        output_tag_maps: None,
        certificates: None,
        certificate_fields: None,
        commissions: None,
    }
}

/// A chunk of a user of which nothing has been read.
pub open spec fn first_reading(user_id: i64, args: RequestSyncChunkArgs) -> Reading {
    Reading {
        user_id,
        args,
        chunk: empty_chunk(args),
        state: ChunkingState {
            items_count: 0,
            rough_size: 0,
            max_items: args.max_items,
            max_rough_size: args.max_rough_size,
        },
    }
}

impl Reading {
    /// The offset that the request gives for an entity.
    pub open spec fn offset_of(self, entity: Entity) -> Option<u32> {
        found(offsets_by_name(self.args.offsets@), entity.text())
    }

    /// The step at an entity: its page where the chunk is below its caps and the request
    /// gives an offset for it, else the step at the entity that follows.
    pub open spec fn at(self, entity: Entity) -> ReadStep
        decreases entity.left(),
    {
        if self.state.open_for_more() && self.offset_of(entity) is Some {
            ReadStep::Fetch {
                reading: self,
                entity,
                offset: self.offset_of(entity)->0,
                limit: self.state.room(),
            }
        } else {
            match entity.following() {
                Some(next) => self.at(next),
                None => ReadStep::Done { chunk: self.chunk },
            }
        }
    }

    /// The step after an entity.
    pub open spec fn past(self, entity: Entity) -> ReadStep {
        match entity.following() {
            Some(next) => self.at(next),
            None => ReadStep::Done { chunk: self.chunk },
        }
    }

    /// The chunk with the user record, which goes in unless it did not change since the
    /// instant that the request gives.
    pub open spec fn with_user(self, row: Option<UserRow>) -> Reading {
        match row {
            Some(row) => {
                let user = user_of(row, self.user_id, self.args.identity_key);
                if self.args.since is None || user.updated_at.after(self.args.since->0) {
                    Reading { chunk: SyncChunk { user: Some(user), ..self.chunk }, ..self }
                } else {
                    self
                }
            },
            None => self,
        }
    }

    /// The step after the user record: a request without offsets gets nothing else.
    pub open spec fn after_user(self, row: Option<UserRow>) -> ReadStep {
        let after = self.with_user(row);
        if after.args.offsets@.len() == 0 {
            ReadStep::Done { chunk: after.chunk }
        } else {
            after.at(Entity::OutputBasket)
        }
    }

    /// The chunk with a page, which goes in where it has rows.
    pub open spec fn with_page(self, page: Page, size: u32) -> Reading {
        if page.count() > 0 {
            Reading {
                chunk: with_page(self.chunk, page),
                state: self.state.with_items((page.count() % 0x1_0000_0000) as u32, size),
                ..self
            }
        } else {
            self
        }
    }

    fn step_at(self, entity: Entity) -> (step: ReadStep)
        ensures
            step == self.at(entity),
    {
        let offsets = make_offsets_lookup(self.args.offsets.as_slice());
        let mut here = entity;
        loop
            invariant
                offsets.wf(),
                offsets@ == offsets_by_name(self.args.offsets@),
                self.at(here) == self.at(entity),
            decreases here.left(),
        {
            if self.state.can_add() {
                if let Some(offset) = offsets.get(here.name()) {
                    let limit = self.state.remaining_items();
                    return ReadStep::Fetch { reading: self, entity: here, offset, limit };
                }
            }
            match here.next() {
                Some(next) => {
                    here = next;
                },
                None => {
                    return ReadStep::Done { chunk: self.chunk };
                },
            }
        }
    }

    /// Goes on with the user record, where there is one.
    pub fn after_user_row(self, row: Option<UserRow>) -> (step: ReadStep)
        ensures
            step == self.after_user(row),
    {
        let mut after = self;
        if let Some(row) = row {
            let user = TableUser {
                user_id: row.user_id.unwrap_or(after.user_id),
                identity_key: match row.identity_key {
                    Some(key) => key,
                    None => after.args.identity_key.clone(),
                },
                active_storage: row.active_storage,
                created_at: row.created_at,
                updated_at: row.updated_at,
            };
            let wanted = match after.args.since {
                Some(since) => user.updated_at.is_after(&since),
                None => true,
            };
            if wanted {
                after.chunk.user = Some(user);
            }
        }
        assert(after == self.with_user(row));
        if after.args.offsets.len() == 0 {
            ReadStep::Done { chunk: after.chunk }
        } else {
            after.step_at(Entity::OutputBasket)
        }
    }

    /// Goes on with the rows of the page of an entity and their rough size.
    pub fn after_page(self, entity: Entity, page: Page, size: u32) -> (step: ReadStep)
        ensures
            step == self.with_page(page, size).past(entity),
    {
        let mut after = self;
        let n = page.len();
        if n > 0 {
            let wide: u64 = n as u64;
            let count: u32 = (wide % 0x1_0000_0000) as u32;
            after.state.add_items(count, size);
            place(&mut after.chunk, page);
        }
        assert(after == self.with_page(page, size));
        match entity.next() {
            Some(next) => after.step_at(next),
            None => ReadStep::Done { chunk: after.chunk },
        }
    }
}

impl StorageD1 {
    /// Starts to build a chunk of a user's data, bounded by the caps of the request.
    pub fn get_sync_chunk(user_id: i64, args: RequestSyncChunkArgs) -> (step: ReadStep)
        ensures
            step matches ReadStep::FetchUser { reading, query } && query@ == user_query(user_id)
                && reading == first_reading(user_id, args),
    {
        let chunk = SyncChunk {
            from_storage_identity_key: args.from_storage_identity_key.clone(),
            to_storage_identity_key: args.to_storage_identity_key.clone(),
            user_identity_key: args.identity_key.clone(),
            user: None,
            output_baskets: None,
            proven_txs: None,
            proven_tx_reqs: None,
            tx_labels: None,
            output_tags: None,
            transactions: None,
            outputs: None,
            tx_label_maps: None,
            output_tag_maps: None,
            certificates: None,
            certificate_fields: None,
            commissions: None,
        };
        assert(chunk == empty_chunk(args));
        let state = ChunkingState::new(args.max_items, args.max_rough_size);
        let query = Query {
            sql: "SELECT user_id, identity_key, active_storage, created_at, updated_at FROM users WHERE user_id = ?".to_owned(),
            params: vec![Param::Int(user_id)],
        };
        assert(query@ =~= user_query(user_id));
        ReadStep::FetchUser { reading: Reading { user_id, args, chunk, state }, query }
    }
}

/// The chunk that a step has so far.
pub open spec fn chunk_of(step: ReadStep) -> SyncChunk {
    match step {
        ReadStep::FetchUser { reading, .. } => reading.chunk,
        ReadStep::Fetch { reading, .. } => reading.chunk,
        ReadStep::Done { chunk } => chunk,
    }
}

/// A request without offsets gets the user record and nothing else.
pub proof fn no_offsets_no_rows(reading: Reading, row: Option<UserRow>)
    requires
        reading.args.offsets@.len() == 0,
    ensures
        reading.after_user(row) == (ReadStep::Done { chunk: reading.with_user(row).chunk }),
{
}

/// Every page that is asked for belongs to an entity that the request gives an offset for,
/// starts at that offset, asks for no more rows than there is room for, and is asked for
/// only below both caps.
pub proof fn a_page_is_asked_for_within_the_caps(reading: Reading, entity: Entity)
    ensures
        reading.at(entity) matches ReadStep::Fetch { reading: r, entity: e, offset, limit } ==> {
            &&& r == reading
            &&& e.left() <= entity.left()
            &&& reading.offset_of(e) == Some(offset)
            &&& limit == reading.state.room()
            &&& 0 < limit <= reading.state.max_items
            &&& reading.state.open_for_more()
        },
        reading.at(entity) is Fetch || reading.at(entity) is Done,
        chunk_of(reading.at(entity)) == reading.chunk,
    decreases entity.left(),
{
    if !(reading.state.open_for_more() && reading.offset_of(entity) is Some) {
        if let Some(next) = entity.following() {
            a_page_is_asked_for_within_the_caps(reading, next);
        }
    }
}

/// After a page the next one belongs to a later entity, so each entity is read at most
/// once.
pub proof fn an_entity_is_read_once(reading: Reading, entity: Entity)
    ensures
        reading.past(entity) matches ReadStep::Fetch { entity: e, .. } ==> e.left() < entity.left(),
{
    if let Some(next) = entity.following() {
        a_page_is_asked_for_within_the_caps(reading, next);
    }
}

/// Parents are read before their children.
pub proof fn parents_are_read_first()
    ensures
        Entity::ProvenTx.left() > Entity::Transaction.left(),
        Entity::OutputBasket.left() > Entity::Output.left(),
        Entity::Transaction.left() > Entity::Output.left(),
        Entity::Transaction.left() > Entity::TxLabelMap.left(),
        Entity::TxLabel.left() > Entity::TxLabelMap.left(),
        Entity::Output.left() > Entity::OutputTagMap.left(),
        Entity::OutputTag.left() > Entity::OutputTagMap.left(),
        Entity::Certificate.left() > Entity::CertificateField.left(),
        Entity::Transaction.left() > Entity::Commission.left(),
{
}

// ---------------------------------------------------------------------------
// A whole reading
// ---------------------------------------------------------------------------

/// What the store gives to a reading: the user record, and for each page that is asked for,
/// by its entity, its offset and its limit, the rows and their rough size.
pub struct Source {
    pub user: Option<UserRow>,
    pub pages: spec_fn(Entity, u32, u32) -> (Page, u32),
}

impl Source {
    /// Whether no page has more rows than were asked for.
    pub open spec fn keeps_limits(self) -> bool {
        forall|entity: Entity, offset: u32, limit: u32|
            (#[trigger] (self.pages)(entity, offset, limit)).0.count() <= limit
    }
}

/// The step after one that was taken.
pub open spec fn next_read(source: Source, step: ReadStep) -> ReadStep {
    match step {
        ReadStep::FetchUser { reading, .. } => reading.after_user(source.user),
        ReadStep::Fetch { reading, entity, offset, limit } => {
            let (page, size) = (source.pages)(entity, offset, limit);
            reading.with_page(page, size).past(entity)
        },
        ReadStep::Done { .. } => step,
    }
}

/// The step after `n` that were taken.
pub open spec fn read_on(source: Source, step: ReadStep, n: nat) -> ReadStep
    decreases n,
{
    if n == 0 {
        step
    } else {
        next_read(source, read_on(source, step, (n - 1) as nat))
    }
}

/// How many rows a chunk carries in all, besides the user record.
pub open spec fn rows_in(chunk: SyncChunk) -> nat {
    rows_of(chunk.output_baskets).len() + rows_of(chunk.proven_txs).len() + rows_of(
        chunk.proven_tx_reqs,
    ).len() + rows_of(chunk.tx_labels).len() + rows_of(chunk.output_tags).len() + rows_of(
        chunk.transactions,
    ).len() + rows_of(chunk.outputs).len() + rows_of(chunk.tx_label_maps).len() + rows_of(
        chunk.output_tag_maps,
    ).len() + rows_of(chunk.certificates).len() + rows_of(chunk.certificate_fields).len()
        + rows_of(chunk.commissions).len()
}

/// Whether a reading counts at least the rows that its chunk carries, and no more than the
/// request allows.
spec fn within(reading: Reading, args: RequestSyncChunkArgs) -> bool {
    &&& reading.args == args
    &&& reading.state.max_items == args.max_items
    &&& rows_in(reading.chunk) <= reading.state.items_count <= args.max_items
}

/// Whether a step keeps the cap of the request, with `n` steps before its end at most.
spec fn keeps_cap(step: ReadStep, args: RequestSyncChunkArgs, n: int) -> bool {
    match step {
        ReadStep::FetchUser { reading, .. } => within(reading, args) && n >= 13,
        ReadStep::Fetch { reading, entity, offset, limit } => {
            &&& within(reading, args)
            &&& limit == reading.state.room()
            &&& n >= entity.left() + 1
        },
        ReadStep::Done { chunk } => rows_in(chunk) <= args.max_items,
    }
}

proof fn entity_keeps_cap(
    reading: Reading,
    args: RequestSyncChunkArgs,
    entity: Entity,
    n: int,
)
    requires
        within(reading, args),
        n >= entity.left() + 1,
    ensures
        keeps_cap(reading.at(entity), args, n),
{
    a_page_is_asked_for_within_the_caps(reading, entity);
}

proof fn page_adds_its_rows(chunk: SyncChunk, page: Page)
    ensures
        rows_in(with_page(chunk, page)) <= rows_in(chunk) + page.count(),
{
    let after = with_page(chunk, page);
    match page {
        Page::OutputBasket(rows) => {
            assert(rows_of(after.output_baskets) == rows@);
        },
        Page::ProvenTx(rows) => {
            assert(rows_of(after.proven_txs) == rows@);
        },
        Page::ProvenTxReq(rows) => {
            assert(rows_of(after.proven_tx_reqs) == rows@);
        },
        Page::TxLabel(rows) => {
            assert(rows_of(after.tx_labels) == rows@);
        },
        Page::OutputTag(rows) => {
            assert(rows_of(after.output_tags) == rows@);
        },
        Page::Transaction(rows) => {
            assert(rows_of(after.transactions) == rows@);
        },
        Page::Output(rows) => {
            assert(rows_of(after.outputs) == rows@);
        },
        Page::TxLabelMap(rows) => {
            assert(rows_of(after.tx_label_maps) == rows@);
        },
        Page::OutputTagMap(rows) => {
            assert(rows_of(after.output_tag_maps) == rows@);
        },
        Page::Certificate(rows) => {
            assert(rows_of(after.certificates) == rows@);
        },
        Page::CertificateField(rows) => {
            assert(rows_of(after.certificate_fields) == rows@);
        },
        Page::Commission(rows) => {
            assert(rows_of(after.commissions) == rows@);
        },
    }
}

proof fn next_keeps_cap(source: Source, step: ReadStep, args: RequestSyncChunkArgs, n: int)
    requires
        source.keeps_limits(),
        keeps_cap(step, args, n),
    ensures
        keeps_cap(next_read(source, step), args, n - 1),
{
    match step {
        ReadStep::FetchUser { reading, .. } => {
            let after = reading.with_user(source.user);
            assert(within(after, args));
            entity_keeps_cap(after, args, Entity::OutputBasket, n - 1);
        },
        ReadStep::Fetch { reading, entity, offset, limit } => {
            let (page, size) = (source.pages)(entity, offset, limit);
            let after = reading.with_page(page, size);
            assert((source.pages)(entity, offset, limit).0.count() <= limit);
            if page.count() > 0 {
                a_page_keeps_the_cap(reading.state, page.count() as u32, size);
                page_adds_its_rows(reading.chunk, page);
            }
            assert(within(after, args));
            if let Some(following) = entity.following() {
                entity_keeps_cap(after, args, following, n - 1);
            }
        },
        ReadStep::Done { .. } => {},
    }
}

proof fn reading_keeps_cap(source: Source, step: ReadStep, args: RequestSyncChunkArgs, n: nat)
    requires
        source.keeps_limits(),
        keeps_cap(step, args, 13),
    ensures
        keeps_cap(read_on(source, step, n), args, 13 - n),
    decreases n,
{
    if n > 0 {
        reading_keeps_cap(source, step, args, (n - 1) as nat);
        next_keeps_cap(
            source,
            read_on(source, step, (n - 1) as nat),
            args,
            13 - (n - 1),
        );
    }
}

/// A chunk keeps to its cap: where no page has more rows than were asked for, a reading
/// carries at no time more rows in all than the request allows, and so neither does the
/// chunk that it gives. It gives one after the user record and at most one page for each
/// entity.
pub proof fn a_chunk_keeps_its_cap(
    source: Source,
    user_id: i64,
    args: RequestSyncChunkArgs,
    step: ReadStep,
    n: nat,
)
    requires
        source.keeps_limits(),
        step matches ReadStep::FetchUser { reading, .. } && reading == first_reading(user_id, args),
    ensures
        rows_in(chunk_of(read_on(source, step, n))) <= args.max_items,
        read_on(source, step, n) matches ReadStep::Done { chunk } ==> rows_in(chunk)
            <= args.max_items,
        n >= 13 ==> read_on(source, step, n) is Done,
{
    reading_keeps_cap(source, step, args, n);
}

} // verus!
