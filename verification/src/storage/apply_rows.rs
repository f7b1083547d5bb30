//! The merge of a sync chunk row by row, step by step.

use crate::entities::TableOutput;
use crate::error::{Error, ErrorView};
use crate::sql::query::{Query, QueryView};
use crate::storage::apply::{
    check_identity, chunk_is_empty, count_more, counted, find, found, fresh, index,
    mismatch_text, no_ids, no_result, no_rows, rows_of, LocalIds, LocalIdsView,
};
use crate::storage::lookup::{absorbed, basket_names_query, load_basket_name_map, KeyedId};
use crate::storage::store::StorageD1;
use crate::storage::sync_row::{SyncRow, SyncRowView, UpsertResult};
use crate::time::{latest, update_max_updated_at};
use crate::types::{ProcessSyncChunkResult, RequestSyncChunkArgs, SyncChunk};
use vstd::prelude::*;

verus! {

/// The entities of a chunk in the order in which their rows are merged one by one.
#[derive(Clone, Copy, Debug, PartialEq, Eq, Structural)]
pub enum RowPhase {
    Baskets,
    ProvenTxReqs,
    ProvenTxs,
    TxLabels,
    OutputTags,
    Transactions,
    Outputs,
    TxLabelMaps,
    OutputTagMaps,
    Certificates,
    CertificateFields,
    Commissions,
    Finished,
}

impl RowPhase {
    pub open spec fn following(self) -> RowPhase {
        match self {
            RowPhase::Baskets => RowPhase::ProvenTxReqs,
            RowPhase::ProvenTxReqs => RowPhase::ProvenTxs,
            RowPhase::ProvenTxs => RowPhase::TxLabels,
            RowPhase::TxLabels => RowPhase::OutputTags,
            RowPhase::OutputTags => RowPhase::Transactions,
            RowPhase::Transactions => RowPhase::Outputs,
            RowPhase::Outputs => RowPhase::TxLabelMaps,
            RowPhase::TxLabelMaps => RowPhase::OutputTagMaps,
            RowPhase::OutputTagMaps => RowPhase::Certificates,
            RowPhase::Certificates => RowPhase::CertificateFields,
            RowPhase::CertificateFields => RowPhase::Commissions,
            RowPhase::Commissions => RowPhase::Finished,
            RowPhase::Finished => RowPhase::Finished,
        }
    }

    /// How many phases are left.
    pub open spec fn left(self) -> nat {
        match self {
            RowPhase::Baskets => 12,
            RowPhase::ProvenTxReqs => 11,
            RowPhase::ProvenTxs => 10,
            RowPhase::TxLabels => 9,
            RowPhase::OutputTags => 8,
            RowPhase::Transactions => 7,
            RowPhase::Outputs => 6,
            RowPhase::TxLabelMaps => 5,
            RowPhase::OutputTagMaps => 4,
            RowPhase::Certificates => 3,
            RowPhase::CertificateFields => 2,
            RowPhase::Commissions => 1,
            RowPhase::Finished => 0,
        }
    }

    fn next(&self) -> (phase: RowPhase)
        ensures
            phase == self.following(),
    {
        match self {
            RowPhase::Baskets => RowPhase::ProvenTxReqs,
            RowPhase::ProvenTxReqs => RowPhase::ProvenTxs,
            RowPhase::ProvenTxs => RowPhase::TxLabels,
            RowPhase::TxLabels => RowPhase::OutputTags,
            RowPhase::OutputTags => RowPhase::Transactions,
            RowPhase::Transactions => RowPhase::Outputs,
            RowPhase::Outputs => RowPhase::TxLabelMaps,
            RowPhase::TxLabelMaps => RowPhase::OutputTagMaps,
            RowPhase::OutputTagMaps => RowPhase::Certificates,
            RowPhase::Certificates => RowPhase::CertificateFields,
            RowPhase::CertificateFields => RowPhase::Commissions,
            RowPhase::Commissions => RowPhase::Finished,
            RowPhase::Finished => RowPhase::Finished,
        }
    }
}

/// A merge row by row under way: the row that is next is the one at `at` of its phase.
#[verifier::ext_equal]
pub struct RowsView {
    pub user_id: i64,
    pub chunk: SyncChunk,
    pub result: ProcessSyncChunkResult,
    pub ids: LocalIdsView,
    pub basket_names: Seq<KeyedId>,
    pub phase: RowPhase,
    pub at: int,
}

/// A merge row by row under way: the row that is next is the one at `at` of its phase.
#[derive(Debug, PartialEq, Eq)]
pub struct Rows {
    pub user_id: i64,
    pub chunk: SyncChunk,
    pub result: ProcessSyncChunkResult,
    pub ids: LocalIds,
    pub basket_names: Vec<KeyedId>,
    pub phase: RowPhase,
    pub at: usize,
}

impl View for Rows {
    type V = RowsView;

    open spec fn view(&self) -> RowsView {
        RowsView {
            user_id: self.user_id,
            chunk: self.chunk,
            result: self.result,
            ids: self.ids@,
            basket_names: self.basket_names@,
            phase: self.phase,
            at: self.at as int,
        }
    }
}

/// What the merge row by row takes next.
#[verifier::ext_equal]
pub enum RowsStepView {
    MergeUser { rows: RowsView },
    LoadBasketNames { rows: RowsView, query: QueryView },
    Upsert { rows: RowsView },
    Done { result: ProcessSyncChunkResult },
}

/// What the merge row by row takes next.
#[derive(Debug, PartialEq, Eq)]
pub enum RowsStep {
    /// Merge the user record of the chunk, and learn whether that wrote anything.
    MergeUser { rows: Rows },
    /// Run the statement, and learn the baskets that it finds.
    LoadBasketNames { rows: Rows, query: Query },
    /// Merge the current row, and learn what became of it.
    Upsert { rows: Rows },
    /// The answer.
    Done { result: ProcessSyncChunkResult },
}

impl View for RowsStep {
    type V = RowsStepView;

    open spec fn view(&self) -> RowsStepView {
        match self {
            RowsStep::MergeUser { rows } => RowsStepView::MergeUser { rows: rows@ },
            RowsStep::LoadBasketNames { rows, query } => RowsStepView::LoadBasketNames {
                rows: rows@,
                query: query@,
            },
            RowsStep::Upsert { rows } => RowsStepView::Upsert { rows: rows@ },
            RowsStep::Done { result } => RowsStepView::Done { result: *result },
        }
    }
}

impl RowsView {
    /// How many rows the current phase has.
    pub open spec fn len(self) -> nat {
        match self.phase {
            RowPhase::Baskets => rows_of(self.chunk.output_baskets).len(),
            RowPhase::ProvenTxReqs => rows_of(self.chunk.proven_tx_reqs).len(),
            RowPhase::ProvenTxs => rows_of(self.chunk.proven_txs).len(),
            RowPhase::TxLabels => rows_of(self.chunk.tx_labels).len(),
            RowPhase::OutputTags => rows_of(self.chunk.output_tags).len(),
            RowPhase::Transactions => rows_of(self.chunk.transactions).len(),
            RowPhase::Outputs => rows_of(self.chunk.outputs).len(),
            RowPhase::TxLabelMaps => rows_of(self.chunk.tx_label_maps).len(),
            RowPhase::OutputTagMaps => rows_of(self.chunk.output_tag_maps).len(),
            RowPhase::Certificates => rows_of(self.chunk.certificates).len(),
            RowPhase::CertificateFields => rows_of(self.chunk.certificate_fields).len(),
            RowPhase::Commissions => rows_of(self.chunk.commissions).len(),
            RowPhase::Finished => 0,
        }
    }

    /// The local basket of an output: by the id that the chunk gives it, or by its name.
    pub open spec fn basket_of(self, o: TableOutput) -> Option<i64> {
        let by_id = match o.basket_id {
            Some(id) => found(self.ids.baskets, id),
            None => None,
        };
        match by_id {
            Some(id) => Some(id),
            None => match o.basket_name {
                Some(name) => found(absorbed(Map::empty(), self.basket_names), name@),
                None => None,
            },
        }
    }

    /// The row that is next, with the local ids of its parents; none past the end of the
    /// phase, and none for a row whose parents did not come with the chunk.
    pub open spec fn current(self) -> Option<SyncRowView> {
        if 0 <= self.at < self.len() {
            match self.phase {
                RowPhase::Baskets => Some(
                    SyncRowView::Basket {
                        user_id: self.user_id,
                        row: rows_of(self.chunk.output_baskets)[self.at],
                    },
                ),
                RowPhase::ProvenTxReqs => Some(
                    SyncRowView::ProvenTxReq { row: rows_of(self.chunk.proven_tx_reqs)[self.at] },
                ),
                RowPhase::ProvenTxs => Some(
                    SyncRowView::ProvenTx { row: rows_of(self.chunk.proven_txs)[self.at] },
                ),
                RowPhase::TxLabels => Some(
                    SyncRowView::TxLabel {
                        user_id: self.user_id,
                        row: rows_of(self.chunk.tx_labels)[self.at],
                    },
                ),
                RowPhase::OutputTags => Some(
                    SyncRowView::OutputTag {
                        user_id: self.user_id,
                        row: rows_of(self.chunk.output_tags)[self.at],
                    },
                ),
                RowPhase::Transactions => Some(
                    SyncRowView::Transaction {
                        user_id: self.user_id,
                        row: rows_of(self.chunk.transactions)[self.at],
                    },
                ),
                RowPhase::Outputs => {
                    let row = rows_of(self.chunk.outputs)[self.at];
                    Some(
                        SyncRowView::Output {
                            user_id: self.user_id,
                            row,
                            tx_id: found(self.ids.transactions, row.transaction_id).unwrap_or(
                                row.transaction_id,
                            ),
                            basket_id: self.basket_of(row),
                        },
                    )
                },
                RowPhase::TxLabelMaps => {
                    let row = rows_of(self.chunk.tx_label_maps)[self.at];
                    match (
                        found(self.ids.transactions, row.transaction_id),
                        found(self.ids.labels, row.label_id),
                    ) {
                        (Some(tx_id), Some(label_id)) => Some(
                            SyncRowView::TxLabelMap { row, tx_id, label_id },
                        ),
                        _ => None,
                    }
                },
                RowPhase::OutputTagMaps => {
                    let row = rows_of(self.chunk.output_tag_maps)[self.at];
                    match (
                        found(self.ids.outputs, row.output_id),
                        found(self.ids.tags, row.tag_id),
                    ) {
                        (Some(output_id), Some(tag_id)) => Some(
                            SyncRowView::OutputTagMap { row, output_id, tag_id },
                        ),
                        _ => None,
                    }
                },
                RowPhase::Certificates => Some(
                    SyncRowView::Certificate {
                        user_id: self.user_id,
                        row: rows_of(self.chunk.certificates)[self.at],
                    },
                ),
                RowPhase::CertificateFields => {
                    let row = rows_of(self.chunk.certificate_fields)[self.at];
                    match found(self.ids.certificates, row.certificate_id) {
                        Some(cert_id) => Some(
                            SyncRowView::CertificateField { user_id: self.user_id, row, cert_id },
                        ),
                        None => None,
                    }
                },
                RowPhase::Commissions => {
                    let row = rows_of(self.chunk.commissions)[self.at];
                    match found(self.ids.transactions, row.transaction_id) {
                        Some(tx_id) => Some(
                            SyncRowView::Commission { user_id: self.user_id, row, tx_id },
                        ),
                        None => None,
                    }
                },
                RowPhase::Finished => None,
            }
        } else {
            None
        }
    }

    /// The step at the next row that can be merged. The names of the baskets are looked up
    /// before the outputs.
    pub open spec fn advance(self) -> RowsStepView
        decreases self.phase.left(), self.len() - self.at,
    {
        if self.phase == RowPhase::Finished {
            RowsStepView::Done { result: self.result }
        } else if self.current() is Some {
            RowsStepView::Upsert { rows: self }
        } else if 0 <= self.at < self.len() {
            RowsView { at: self.at + 1, ..self }.advance()
        } else {
            let next = RowsView { phase: self.phase.following(), at: 0, ..self };
            if next.phase == RowPhase::Outputs && self.chunk.outputs is Some {
                RowsStepView::LoadBasketNames {
                    rows: next,
                    query: basket_names_query(self.user_id),
                }
            } else {
                next.advance()
            }
        }
    }

    /// The merge after the current row: its local id is recorded, and the answer counts it.
    pub open spec fn merged(self, row: SyncRowView, outcome: UpsertResult) -> RowsView {
        RowsView {
            ids: match self.phase {
                RowPhase::Baskets => LocalIdsView {
                    baskets: self.ids.baskets.insert(row.foreign(), outcome.local_id),
                    ..self.ids
                },
                RowPhase::TxLabels => LocalIdsView {
                    labels: self.ids.labels.insert(row.foreign(), outcome.local_id),
                    ..self.ids
                },
                RowPhase::OutputTags => LocalIdsView {
                    tags: self.ids.tags.insert(row.foreign(), outcome.local_id),
                    ..self.ids
                },
                RowPhase::Transactions => LocalIdsView {
                    transactions: self.ids.transactions.insert(row.foreign(), outcome.local_id),
                    ..self.ids
                },
                RowPhase::Outputs => LocalIdsView {
                    outputs: self.ids.outputs.insert(row.foreign(), outcome.local_id),
                    ..self.ids
                },
                RowPhase::Certificates => LocalIdsView {
                    certificates: self.ids.certificates.insert(row.foreign(), outcome.local_id),
                    ..self.ids
                },
                _ => self.ids,
            },
            result: ProcessSyncChunkResult {
                inserts: if outcome.is_new {
                    counted(self.result.inserts, 1)
                } else {
                    self.result.inserts
                },
                updates: if outcome.is_new {
                    self.result.updates
                } else {
                    counted(self.result.updates, 1)
                },
                max_updated_at: Some(latest(self.result.max_updated_at, row.updated_at())),
                ..self.result
            },
            at: self.at + 1,
            ..self
        }
    }

    /// The step after the current row was merged.
    pub open spec fn after_row(self, outcome: UpsertResult) -> RowsStepView {
        match self.current() {
            Some(row) => self.merged(row, outcome).advance(),
            None => self.advance(),
        }
    }

    /// The step after the user record: the end of an empty chunk, or the first row.
    pub open spec fn after_user(self, updated: bool) -> RowsStepView {
        RowsView {
            result: ProcessSyncChunkResult {
                updates: if updated {
                    counted(self.result.updates, 1)
                } else {
                    self.result.updates
                },
                max_updated_at: match self.chunk.user {
                    Some(user) => Some(latest(self.result.max_updated_at, user.updated_at)),
                    None => self.result.max_updated_at,
                },
                ..self.result
            },
            ..self
        }.rest()
    }

    pub open spec fn rest(self) -> RowsStepView {
        if no_rows(self.chunk) {
            RowsStepView::Done { result: ProcessSyncChunkResult { done: true, ..self.result } }
        } else {
            self.advance()
        }
    }
}

impl Rows {
    fn len(&self) -> (n: usize)
        ensures
            n == self@.len(),
    {
        match self.phase {
            RowPhase::Baskets => match &self.chunk.output_baskets {
                Some(rows) => rows.len(),
                None => 0,
            },
            RowPhase::ProvenTxReqs => match &self.chunk.proven_tx_reqs {
                Some(rows) => rows.len(),
                None => 0,
            },
            RowPhase::ProvenTxs => match &self.chunk.proven_txs {
                Some(rows) => rows.len(),
                None => 0,
            },
            RowPhase::TxLabels => match &self.chunk.tx_labels {
                Some(rows) => rows.len(),
                None => 0,
            },
            RowPhase::OutputTags => match &self.chunk.output_tags {
                Some(rows) => rows.len(),
                None => 0,
            },
            RowPhase::Transactions => match &self.chunk.transactions {
                Some(rows) => rows.len(),
                None => 0,
            },
            RowPhase::Outputs => match &self.chunk.outputs {
                Some(rows) => rows.len(),
                None => 0,
            },
            RowPhase::TxLabelMaps => match &self.chunk.tx_label_maps {
                Some(rows) => rows.len(),
                None => 0,
            },
            RowPhase::OutputTagMaps => match &self.chunk.output_tag_maps {
                Some(rows) => rows.len(),
                None => 0,
            },
            RowPhase::Certificates => match &self.chunk.certificates {
                Some(rows) => rows.len(),
                None => 0,
            },
            RowPhase::CertificateFields => match &self.chunk.certificate_fields {
                Some(rows) => rows.len(),
                None => 0,
            },
            RowPhase::Commissions => match &self.chunk.commissions {
                Some(rows) => rows.len(),
                None => 0,
            },
            RowPhase::Finished => 0,
        }
    }

    fn basket_of(&self, o: &TableOutput) -> (id: Option<i64>)
        ensures
            id == self@.basket_of(*o),
    {
        let by_id: Option<i64> = match o.basket_id {
            Some(id) => find(&self.ids.baskets, id),
            None => None,
        };
        match by_id {
            Some(id) => Some(id),
            None => match &o.basket_name {
                Some(name) => index(&self.basket_names).get(name.as_str()),
                None => None,
            },
        }
    }

    /// The row that is next, with the local ids of its parents.
    pub fn current(&self) -> (row: Option<SyncRow<'_>>)
        ensures
            row is Some <==> self@.current() is Some,
            row matches Some(r) ==> Some(r@) == self@.current(),
    {
        if self.at >= self.len() {
            return None;
        }
        match self.phase {
            RowPhase::Baskets => match &self.chunk.output_baskets {
                Some(rows) => Some(SyncRow::Basket { user_id: self.user_id, row: &rows[self.at] }),
                None => None,
            },
            RowPhase::ProvenTxReqs => match &self.chunk.proven_tx_reqs {
                Some(rows) => Some(SyncRow::ProvenTxReq { row: &rows[self.at] }),
                None => None,
            },
            RowPhase::ProvenTxs => match &self.chunk.proven_txs {
                Some(rows) => Some(SyncRow::ProvenTx { row: &rows[self.at] }),
                None => None,
            },
            RowPhase::TxLabels => match &self.chunk.tx_labels {
                Some(rows) => Some(SyncRow::TxLabel { user_id: self.user_id, row: &rows[self.at] }),
                None => None,
            },
            RowPhase::OutputTags => match &self.chunk.output_tags {
                Some(rows) => Some(SyncRow::OutputTag { user_id: self.user_id, row: &rows[self.at] }),
                None => None,
            },
            RowPhase::Transactions => match &self.chunk.transactions {
                Some(rows) => Some(SyncRow::Transaction { user_id: self.user_id, row: &rows[self.at] }),
                None => None,
            },
            RowPhase::Outputs => match &self.chunk.outputs {
                Some(rows) => {
                    let row = &rows[self.at];
                    let tx_id: i64 = match find(&self.ids.transactions, row.transaction_id) {
                        Some(id) => id,
                        None => row.transaction_id,
                    };
                    let basket_id = self.basket_of(row);
                    Some(SyncRow::Output { user_id: self.user_id, row, tx_id, basket_id })
                },
                None => None,
            },
            RowPhase::TxLabelMaps => match &self.chunk.tx_label_maps {
                Some(rows) => {
                    let row = &rows[self.at];
                    let local_tx = find(&self.ids.transactions, row.transaction_id);
                    let local_label = find(&self.ids.labels, row.label_id);
                    match (local_tx, local_label) {
                        (Some(tx_id), Some(label_id)) => Some(
                            SyncRow::TxLabelMap { row, tx_id, label_id },
                        ),
                        _ => None,
                    }
                },
                None => None,
            },
            RowPhase::OutputTagMaps => match &self.chunk.output_tag_maps {
                Some(rows) => {
                    let row = &rows[self.at];
                    let local_out = find(&self.ids.outputs, row.output_id);
                    let local_tag = find(&self.ids.tags, row.tag_id);
                    match (local_out, local_tag) {
                        (Some(output_id), Some(tag_id)) => Some(
                            SyncRow::OutputTagMap { row, output_id, tag_id },
                        ),
                        _ => None,
                    }
                },
                None => None,
            },
            RowPhase::Certificates => match &self.chunk.certificates {
                Some(rows) => Some(SyncRow::Certificate { user_id: self.user_id, row: &rows[self.at] }),
                None => None,
            },
            RowPhase::CertificateFields => match &self.chunk.certificate_fields {
                Some(rows) => {
                    let row = &rows[self.at];
                    match find(&self.ids.certificates, row.certificate_id) {
                        Some(cert_id) => Some(
                            SyncRow::CertificateField { user_id: self.user_id, row, cert_id },
                        ),
                        None => None,
                    }
                },
                None => None,
            },
            RowPhase::Commissions => match &self.chunk.commissions {
                Some(rows) => {
                    let row = &rows[self.at];
                    match find(&self.ids.transactions, row.transaction_id) {
                        Some(tx_id) => Some(
                            SyncRow::Commission { user_id: self.user_id, row, tx_id },
                        ),
                        None => None,
                    }
                },
                None => None,
            },
            RowPhase::Finished => None,
        }
    }

    fn advance(self) -> (step: RowsStep)
        ensures
            step@ == self@.advance(),
    {
        let mut rows = self;
        loop
            invariant
                rows@.advance() == self@.advance(),
            decreases rows@.phase.left(), rows@.len() - rows@.at,
        {
            if rows.phase == RowPhase::Finished {
                return RowsStep::Done { result: rows.result };
            }
            let mergeable = rows.current().is_some();
            if mergeable {
                return RowsStep::Upsert { rows };
            }
            let ghost before = rows@;
            if rows.at < rows.len() {
                rows.at = rows.at + 1;
                assert(rows@ =~= RowsView { at: before.at + 1, ..before });
            } else {
                rows.phase = rows.phase.next();
                rows.at = 0;
                assert(rows@ =~= RowsView { phase: before.phase.following(), at: 0, ..before });
                if rows.phase == RowPhase::Outputs && rows.chunk.outputs.is_some() {
                    let query = load_basket_name_map(rows.user_id);
                    return RowsStep::LoadBasketNames { rows, query };
                }
            }
        }
    }

    fn rest(self) -> (step: RowsStep)
        ensures
            step@ == self@.rest(),
    {
        if chunk_is_empty(&self.chunk) {
            let mut result = self.result;
            result.done = true;
            RowsStep::Done { result }
        } else {
            self.advance()
        }
    }

    /// Goes on with whether the user record was written.
    pub fn after_user(self, updated: bool) -> (step: RowsStep)
        ensures
            step@ == self@.after_user(updated),
    {
        let mut after = self;
        if updated {
            after.result.updates = count_more(after.result.updates, 1);
        }
        if let Some(user) = &after.chunk.user {
            update_max_updated_at(&mut after.result.max_updated_at, user.updated_at);
        }
        after.rest()
    }

    /// Goes on with the baskets that the statement of `LoadBasketNames` found.
    pub fn after_basket_names(self, found: Vec<KeyedId>) -> (step: RowsStep)
        ensures
            step@ == (RowsView { basket_names: found@, ..self@ }).advance(),
    {
        let mut after = self;
        after.basket_names = found;
        assert(after@ =~= (RowsView { basket_names: found@, ..self@ }));
        after.advance()
    }

    /// Goes on with what became of the current row.
    pub fn after_row(self, outcome: UpsertResult) -> (step: RowsStep)
        ensures
            step@ == self@.after_row(outcome),
    {
        broadcast use vstd::std_specs::hash::group_hash_axioms;

        let n = self.len();
        let (foreign, updated_at) = match self.current() {
            Some(row) => (row.foreign(), row.updated_at()),
            None => {
                return self.advance();
            },
        };
        let ghost row = self@.current()->0;
        let mut after = self;
        match after.phase {
            RowPhase::Baskets => {
                after.ids.baskets.insert(foreign, outcome.local_id);
            },
            RowPhase::TxLabels => {
                after.ids.labels.insert(foreign, outcome.local_id);
            },
            RowPhase::OutputTags => {
                after.ids.tags.insert(foreign, outcome.local_id);
            },
            RowPhase::Transactions => {
                after.ids.transactions.insert(foreign, outcome.local_id);
            },
            RowPhase::Outputs => {
                after.ids.outputs.insert(foreign, outcome.local_id);
            },
            RowPhase::Certificates => {
                after.ids.certificates.insert(foreign, outcome.local_id);
            },
            _ => {},
        }
        if outcome.is_new {
            after.result.inserts = count_more(after.result.inserts, 1);
        } else {
            after.result.updates = count_more(after.result.updates, 1);
        }
        update_max_updated_at(&mut after.result.max_updated_at, updated_at);
        assert(after.at < n);
        after.at = after.at + 1;
        assert(after@ =~= self@.merged(row, outcome));
        after.advance()
    }
}

/// A merge row by row of which nothing has been done.
pub open spec fn fresh_rows(user_id: i64, chunk: SyncChunk) -> RowsView {
    RowsView {
        user_id,
        chunk,
        result: no_result(),
        ids: fresh(user_id, chunk).ids,
        basket_names: Seq::empty(),
        phase: RowPhase::Baskets,
        at: 0,
    }
}

impl StorageD1 {
    /// Starts to merge a chunk into a user's data row by row. A chunk of another user is
    /// refused before anything is asked of the store.
    pub fn process_sync_chunk_legacy(user_id: i64, args: RequestSyncChunkArgs, chunk: SyncChunk) -> (
        step: Result<RowsStep, Error>)
        ensures
            step is Ok <==> chunk.user_identity_key@ == args.identity_key@,
            step matches Ok(p) ==> p@ == (if chunk.user is Some {
                RowsStepView::MergeUser { rows: fresh_rows(user_id, chunk) }
            } else {
                fresh_rows(user_id, chunk).rest()
            }),
            step matches Err(e) ==> e@ == ErrorView::ValidationError(
                mismatch_text(chunk.user_identity_key@, args.identity_key@),
            ),
    {
        match check_identity(&args, &chunk) {
            Err(e) => Err(e),
            Ok(_) => {
                let has_user = chunk.user.is_some();
                let rows = Rows {
                    user_id,
                    chunk,
                    result: ProcessSyncChunkResult {
                        done: false,
                        max_updated_at: None,
                        updates: 0,
                        inserts: 0,
                        error: None,
                    },
                    ids: no_ids(),
                    basket_names: Vec::new(),
                    phase: RowPhase::Baskets,
                    at: 0,
                };
                assert(rows@ =~= fresh_rows(user_id, chunk));
                if has_user {
                    Ok(RowsStep::MergeUser { rows })
                } else {
                    Ok(rows.rest())
                }
            },
        }
    }
}

proof fn advancing_keeps_done(s: RowsView)
    ensures
        match s.advance() {
            RowsStepView::MergeUser { rows } => false,
            RowsStepView::LoadBasketNames { rows, .. } => rows.result == s.result,
            RowsStepView::Upsert { rows } => rows.result == s.result,
            RowsStepView::Done { result } => result == s.result,
        },
    decreases s.phase.left(), s.len() - s.at,
{
    if s.phase != RowPhase::Finished && s.current() is None {
        if 0 <= s.at < s.len() {
            advancing_keeps_done(RowsView { at: s.at + 1, ..s });
        } else {
            advancing_keeps_done(RowsView { phase: s.phase.following(), at: 0, ..s });
        }
    }
}

/// The answer says that all is done exactly for a chunk without rows besides the user
/// record.
pub proof fn rows_done_means_no_rows(s: RowsView, updated: bool)
    requires
        !s.result.done,
    ensures
        match s.after_user(updated) {
            RowsStepView::MergeUser { rows } => false,
            RowsStepView::LoadBasketNames { rows, .. } => !rows.result.done && !no_rows(s.chunk),
            RowsStepView::Upsert { rows } => !rows.result.done && !no_rows(s.chunk),
            RowsStepView::Done { result } => result.done == no_rows(s.chunk),
        },
{
    let after = RowsView {
        result: ProcessSyncChunkResult {
            updates: if updated {
                counted(s.result.updates, 1)
            } else {
                s.result.updates
            },
            max_updated_at: match s.chunk.user {
                Some(user) => Some(latest(s.result.max_updated_at, user.updated_at)),
                None => s.result.max_updated_at,
            },
            ..s.result
        },
        ..s
    };
    advancing_keeps_done(after);
}

/// Going on to the next row changes nothing in the answer, and merging a row counts it
/// once: as an insert where it is new, and as an update else.
pub proof fn a_row_is_counted_once(s: RowsView, row: SyncRowView, outcome: UpsertResult)
    ensures
        s.advance() is Done ==> s.advance()->Done_result == s.result,
        s.merged(row, outcome).result.done == s.result.done,
        outcome.is_new ==> s.merged(row, outcome).result.inserts == counted(s.result.inserts, 1)
            && s.merged(row, outcome).result.updates == s.result.updates,
        !outcome.is_new ==> s.merged(row, outcome).result.updates == counted(s.result.updates, 1)
            && s.merged(row, outcome).result.inserts == s.result.inserts,
{
    advancing_keeps_done(s);
}

} // verus!
