//! What a whole reading gives, said of the request and of the store.

use crate::storage::apply::found;
use crate::storage::read::{
    first_reading, next_read, offsets_by_name, read_on, with_page, Entity, Page, ReadStep, Reading,
    Source, UserRow,
};
use crate::time::instants_are_ordered_by_their_place;
use crate::types::{RequestSyncChunkArgs, SyncChunk, SyncOffset};
use vstd::prelude::*;

verus! {

// ---------------------------------------------------------------------------
// Offsets
// ---------------------------------------------------------------------------

/// Whether an offset is the last one with a name.
pub open spec fn last_of_its_name(offsets: Seq<SyncOffset>, name: Seq<char>, i: int) -> bool {
    &&& 0 <= i < offsets.len()
    &&& offsets[i].name@ == name
    &&& forall|j: int| i < j < offsets.len() ==> (#[trigger] offsets[j]).name@ != name
}

/// The offset that a request gives under a name: that of the last one with the name.
pub open spec fn offset_under(offsets: Seq<SyncOffset>, name: Seq<char>) -> Option<u32> {
    if exists|i: int| last_of_its_name(offsets, name, i) {
        Some(offsets[choose|i: int| last_of_its_name(offsets, name, i)].offset)
    } else {
        None
    }
}

/// Under each name the last offset counts, and a name without one gives nothing.
pub proof fn the_last_offset_counts(offsets: Seq<SyncOffset>, name: Seq<char>)
    ensures
        found(offsets_by_name(offsets), name) == offset_under(offsets, name),
    decreases offsets.len(),
{
    if offsets.len() > 0 {
        let rest = offsets.drop_last();
        let n = offsets.len() - 1;
        the_last_offset_counts(rest, name);
        if offsets[n].name@ == name {
            assert(last_of_its_name(offsets, name, n));
            let i = choose|i: int| last_of_its_name(offsets, name, i);
            assert(i == n) by {
                if i < n {
                    assert(offsets[n].name@ != name);
                }
            }
        } else {
            assert forall|i: int| last_of_its_name(offsets, name, i) implies last_of_its_name(
                rest,
                name,
                i,
            ) by {
                assert forall|j: int| i < j < rest.len() implies (#[trigger] rest[j]).name@
                    != name by {
                    assert(rest[j] == offsets[j]);
                }
            }
            assert forall|i: int| last_of_its_name(rest, name, i) implies last_of_its_name(
                offsets,
                name,
                i,
            ) by {
                assert forall|j: int| i < j < offsets.len() implies (#[trigger] offsets[j]).name@
                    != name by {
                    if j < n {
                        assert(rest[j] == offsets[j]);
                    }
                }
            }
            if exists|i: int| last_of_its_name(offsets, name, i) {
                let a = choose|i: int| last_of_its_name(offsets, name, i);
                let b = choose|i: int| last_of_its_name(rest, name, i);
                assert(last_of_its_name(rest, name, a));
                assert(last_of_its_name(offsets, name, b));
                assert(a == b) by {
                    if a < b {
                        assert(offsets[b].name@ != name);
                    }
                    if b < a {
                        assert(offsets[a].name@ != name);
                    }
                }
            }
        }
    }
}

// ---------------------------------------------------------------------------
// Pages
// ---------------------------------------------------------------------------

/// The entities in the order in which a chunk is filled, with their names in an offset.
pub open spec fn filling_order() -> Seq<(Entity, Seq<char>)> {
    seq![
        (Entity::OutputBasket, "outputBasket"@),
        (Entity::ProvenTx, "provenTx"@),
        (Entity::ProvenTxReq, "provenTxReq"@),
        (Entity::TxLabel, "txLabel"@),
        (Entity::OutputTag, "outputTag"@),
        (Entity::Transaction, "transaction"@),
        (Entity::Output, "output"@),
        (Entity::TxLabelMap, "txLabelMap"@),
        (Entity::OutputTagMap, "outputTagMap"@),
        (Entity::Certificate, "certificate"@),
        (Entity::CertificateField, "certificateField"@),
        (Entity::Commission, "commission"@),
    ]
}

/// The rows that a chunk carries of an entity.
pub open spec fn carried(chunk: SyncChunk, entity: Entity) -> Option<Page> {
    match entity {
        Entity::OutputBasket => match chunk.output_baskets {
            Some(rows) => Some(Page::OutputBasket(rows)),
            None => None,
        },
        Entity::ProvenTx => match chunk.proven_txs {
            Some(rows) => Some(Page::ProvenTx(rows)),
            None => None,
        },
        Entity::ProvenTxReq => match chunk.proven_tx_reqs {
            Some(rows) => Some(Page::ProvenTxReq(rows)),
            None => None,
        },
        Entity::TxLabel => match chunk.tx_labels {
            Some(rows) => Some(Page::TxLabel(rows)),
            None => None,
        },
        Entity::OutputTag => match chunk.output_tags {
            Some(rows) => Some(Page::OutputTag(rows)),
            None => None,
        },
        Entity::Transaction => match chunk.transactions {
            Some(rows) => Some(Page::Transaction(rows)),
            None => None,
        },
        Entity::Output => match chunk.outputs {
            Some(rows) => Some(Page::Output(rows)),
            None => None,
        },
        Entity::TxLabelMap => match chunk.tx_label_maps {
            Some(rows) => Some(Page::TxLabelMap(rows)),
            None => None,
        },
        Entity::OutputTagMap => match chunk.output_tag_maps {
            Some(rows) => Some(Page::OutputTagMap(rows)),
            None => None,
        },
        Entity::Certificate => match chunk.certificates {
            Some(rows) => Some(Page::Certificate(rows)),
            None => None,
        },
        Entity::CertificateField => match chunk.certificate_fields {
            Some(rows) => Some(Page::CertificateField(rows)),
            None => None,
        },
        Entity::Commission => match chunk.commissions {
            Some(rows) => Some(Page::Commission(rows)),
            None => None,
        },
    }
}

/// Whether a page has rows of an entity.
pub open spec fn is_page_of(page: Page, entity: Entity) -> bool {
    match entity {
        Entity::OutputBasket => page is OutputBasket,
        Entity::ProvenTx => page is ProvenTx,
        Entity::ProvenTxReq => page is ProvenTxReq,
        Entity::TxLabel => page is TxLabel,
        Entity::OutputTag => page is OutputTag,
        Entity::Transaction => page is Transaction,
        Entity::Output => page is Output,
        Entity::TxLabelMap => page is TxLabelMap,
        Entity::OutputTagMap => page is OutputTagMap,
        Entity::Certificate => page is Certificate,
        Entity::CertificateField => page is CertificateField,
        Entity::Commission => page is Commission,
    }
}

/// Whether the store answers with rows of the entity that it is asked for.
pub open spec fn answers_in_kind(source: Source) -> bool {
    forall|entity: Entity, offset: u32, limit: u32|
        is_page_of((#[trigger] (source.pages)(entity, offset, limit)).0, entity)
}

/// A page goes in the place of its entity and nowhere else.
pub proof fn a_page_goes_in_its_place(
    chunk: SyncChunk,
    page: Page,
    entity: Entity,
    other: Entity,
)
    requires
        is_page_of(page, entity),
    ensures
        carried(with_page(chunk, page), entity) == Some(page),
        other != entity ==> carried(with_page(chunk, page), other) == carried(chunk, other),
        with_page(chunk, page).user == chunk.user,
        with_page(chunk, page).from_storage_identity_key == chunk.from_storage_identity_key,
        with_page(chunk, page).to_storage_identity_key == chunk.to_storage_identity_key,
        with_page(chunk, page).user_identity_key == chunk.user_identity_key,
{
}

// ---------------------------------------------------------------------------
// A whole reading
// ---------------------------------------------------------------------------

/// How many rows, and of what rough size, are in the chunk when the turn of an entity comes.
/// Both are counted modulo two to the thirty-second.
pub open spec fn filled_before(source: Source, args: RequestSyncChunkArgs, k: int) -> (int, int)
    decreases k,
{
    if k <= 0 {
        (0, 0)
    } else {
        let (items, size) = filled_before(source, args, k - 1);
        match page_for(source, args, k - 1, items, size) {
            Some((page, rough)) => (
                (items + page.count()) % 0x1_0000_0000,
                (size + rough) % 0x1_0000_0000,
            ),
            None => (items, size),
        }
    }
}

/// The page of an entity that belongs in the chunk: where the request gives an offset for it
/// and the chunk is below both caps, the rows from that offset on for which there is room;
/// none where there are no rows.
pub open spec fn page_for(
    source: Source,
    args: RequestSyncChunkArgs,
    k: int,
    items: int,
    size: int,
) -> Option<(Page, u32)> {
    let (entity, name) = filling_order()[k];
    match offset_under(args.offsets@, name) {
        Some(offset) => if items < args.max_items && size < args.max_rough_size {
            let page = (source.pages)(entity, offset, (args.max_items - items) as u32);
            if page.0.count() > 0 {
                Some(page)
            } else {
                None
            }
        } else {
            None
        },
        None => None,
    }
}

/// The rows of an entity that belong in the chunk.
pub open spec fn rows_due(source: Source, args: RequestSyncChunkArgs, k: int) -> Option<Page> {
    let (items, size) = filled_before(source, args, k);
    match page_for(source, args, k, items, size) {
        Some((page, _)) => Some(page),
        None => None,
    }
}

/// Whether a chunk carries what is due of the first entities and nothing of the others.
pub open spec fn carries_due(
    chunk: SyncChunk,
    source: Source,
    args: RequestSyncChunkArgs,
    k: int,
) -> bool {
    forall|j: int|
        0 <= j < 12 ==> carried(chunk, (#[trigger] filling_order()[j]).0) == if j < k {
            rows_due(source, args, j)
        } else {
            None
        }
}

/// Whether two chunks agree on everything but rows.
pub open spec fn same_head(a: SyncChunk, b: SyncChunk) -> bool {
    &&& a.user == b.user
    &&& a.from_storage_identity_key == b.from_storage_identity_key
    &&& a.to_storage_identity_key == b.to_storage_identity_key
    &&& a.user_identity_key == b.user_identity_key
}

/// Whether a reading stands before an entity with what is due of the earlier ones.
pub open spec fn stands_before(
    reading: Reading,
    source: Source,
    args: RequestSyncChunkArgs,
    k: int,
) -> bool {
    let (items, size) = filled_before(source, args, k);
    &&& reading.args == args
    &&& reading.state.items_count == items
    &&& reading.state.rough_size == size
    &&& reading.state.max_items == args.max_items
    &&& reading.state.max_rough_size == args.max_rough_size
    &&& carries_due(reading.chunk, source, args, k)
}

proof fn order_facts(k: int)
    requires
        0 <= k < 12,
    ensures
        filling_order().len() == 12,
        filling_order()[k].0.text() == filling_order()[k].1,
        k < 11 ==> filling_order()[k].0.following() == Some(filling_order()[k + 1].0),
        k == 11 ==> filling_order()[k].0.following() is None,
        forall|j: int|
            0 <= j < 12 && j != k ==> (#[trigger] filling_order()[j]).0 != filling_order()[k].0,
{
    let order = filling_order();
    assert(order[0].0.left() == 11 && order[1].0.left() == 10 && order[2].0.left() == 9
        && order[3].0.left() == 8 && order[4].0.left() == 7 && order[5].0.left() == 6
        && order[6].0.left() == 5 && order[7].0.left() == 4 && order[8].0.left() == 3
        && order[9].0.left() == 2 && order[10].0.left() == 1 && order[11].0.left() == 0);
    assert forall|j: int| 0 <= j < 12 implies (#[trigger] order[j]).0.left() == 11 - j by {
        if j < 6 {
            assert(j == 0 || j == 1 || j == 2 || j == 3 || j == 4 || j == 5);
        } else {
            assert(j == 6 || j == 7 || j == 8 || j == 9 || j == 10 || j == 11);
        }
    }
    if k < 6 {
        assert(k == 0 || k == 1 || k == 2 || k == 3 || k == 4 || k == 5);
    } else {
        assert(k == 6 || k == 7 || k == 8 || k == 9 || k == 10 || k == 11);
    }
}

proof fn counters_count(source: Source, args: RequestSyncChunkArgs, k: int)
    ensures
        0 <= filled_before(source, args, k).0 <= u32::MAX,
        0 <= filled_before(source, args, k).1 <= u32::MAX,
    decreases k,
{
    if k > 0 {
        counters_count(source, args, k - 1);
    }
}

#[verifier::rlimit(40)]
proof fn a_turn_is_taken(
    reading: Reading,
    source: Source,
    args: RequestSyncChunkArgs,
    k: int,
)
    requires
        answers_in_kind(source),
        0 <= k < 12,
        stands_before(reading, source, args, k),
    ensures
        ({
            let entity = filling_order()[k].0;
            let step = reading.at(entity);
            match offset_under(args.offsets@, filling_order()[k].1) {
                Some(offset) => if reading.state.open_for_more() {
                    let (page, size) = (source.pages)(entity, offset, reading.state.room());
                    let after = reading.with_page(page, size);
                    &&& step == (ReadStep::Fetch {
                        reading,
                        entity,
                        offset,
                        limit: reading.state.room(),
                    })
                    &&& next_read(source, step) == after.past(entity)
                    &&& stands_before(after, source, args, k + 1)
                    &&& same_head(after.chunk, reading.chunk)
                } else {
                    step == reading.past(entity) && stands_before(reading, source, args, k + 1)
                },
                None => step == reading.past(entity) && stands_before(
                    reading,
                    source,
                    args,
                    k + 1,
                ),
            }
        }),
{
    order_facts(k);
    counters_count(source, args, k);
    let (entity, name) = filling_order()[k];
    the_last_offset_counts(args.offsets@, name);
    let (items, size) = filled_before(source, args, k);
    assert(reading.offset_of(entity) == offset_under(args.offsets@, name));
    match offset_under(args.offsets@, name) {
        Some(offset) => {
            if reading.state.open_for_more() {
                let room = reading.state.room();
                assert(room == (args.max_items - items) as u32);
                let (page, rough) = (source.pages)(entity, offset, room);
                let after = reading.with_page(page, rough);
                assert(is_page_of((source.pages)(entity, offset, room).0, entity));
                assert forall|j: int| 0 <= j < 12 implies carried(
                    after.chunk,
                    (#[trigger] filling_order()[j]).0,
                ) == if j < k + 1 {
                    rows_due(source, args, j)
                } else {
                    None
                } by {
                    if page.count() > 0 {
                        a_page_goes_in_its_place(
                            reading.chunk,
                            page,
                            entity,
                            filling_order()[j].0,
                        );
                    }
                    assert(carried(reading.chunk, filling_order()[j].0) == if j < k {
                        rows_due(source, args, j)
                    } else {
                        None
                    });
                }
                if page.count() > 0 {
                    a_page_goes_in_its_place(reading.chunk, page, entity, entity);
                    counter_adds(reading.state.items_count, page.count());
                    counter_adds(reading.state.rough_size, rough as nat);
                }
            }
        },
        None => {},
    }
    if !(reading.state.open_for_more() && offset_under(args.offsets@, name) is Some) {
        assert(rows_due(source, args, k) is None);
        assert forall|j: int| 0 <= j < 12 implies carried(
            reading.chunk,
            (#[trigger] filling_order()[j]).0,
        ) == if j < k + 1 {
            rows_due(source, args, j)
        } else {
            None
        } by {}
    }
}

proof fn counter_adds(count: u32, n: nat)
    ensures
        crate::storage::apply::counted(count, (n % 0x1_0000_0000) as nat) == (count + n)
            % 0x1_0000_0000,
{
    vstd::arithmetic::div_mod::lemma_add_mod_noop(count as int, n as int, 0x1_0000_0000);
    vstd::arithmetic::div_mod::lemma_small_mod(count as nat, 0x1_0000_0000);
}

proof fn reading_goes_on(source: Source, step: ReadStep, n: nat)
    ensures
        read_on(source, next_read(source, step), n) == read_on(source, step, n + 1),
    decreases n,
{
    if n > 0 {
        reading_goes_on(source, step, (n - 1) as nat);
        assert(read_on(source, step, n + 1) == next_read(source, read_on(source, step, n)));
    } else {
        reveal_with_fuel(read_on, 2);
    }
}

proof fn done_stays_done(source: Source, step: ReadStep, n: nat)
    requires
        step is Done,
    ensures
        read_on(source, step, n) == step,
    decreases n,
{
    if n > 0 {
        done_stays_done(source, step, (n - 1) as nat);
    }
}

/// Whether a reading has come to its end with what is due.
pub open spec fn ends_with_due(
    step: ReadStep,
    head: SyncChunk,
    source: Source,
    args: RequestSyncChunkArgs,
) -> bool {
    step matches ReadStep::Done { chunk } && same_head(chunk, head) && carries_due(
        chunk,
        source,
        args,
        12,
    )
}

#[verifier::rlimit(40)]
proof fn from_a_turn_on(
    reading: Reading,
    source: Source,
    args: RequestSyncChunkArgs,
    k: int,
    n: nat,
)
    requires
        answers_in_kind(source),
        0 <= k < 12,
        stands_before(reading, source, args, k),
        n >= 12 - k,
    ensures
        ends_with_due(
            read_on(source, reading.at(filling_order()[k].0), n),
            reading.chunk,
            source,
            args,
        ),
    decreases 12 - k,
{
    order_facts(k);
    a_turn_is_taken(reading, source, args, k);
    let (entity, name) = filling_order()[k];
    let step = reading.at(entity);
    let asked = offset_under(args.offsets@, name) is Some && reading.state.open_for_more();
    let after = if asked {
        let (page, size) = (source.pages)(
            entity,
            offset_under(args.offsets@, name)->0,
            reading.state.room(),
        );
        reading.with_page(page, size)
    } else {
        reading
    };
    let m: nat = if asked {
        (n - 1) as nat
    } else {
        n
    };
    if asked {
        reading_goes_on(source, step, m);
    }
    if k < 11 {
        from_a_turn_on(after, source, args, k + 1, m);
    } else {
        done_stays_done(source, after.past(entity), m);
    }
}

/// The user record of the chunk: that of the store, unless the request gives an instant and
/// the record is no newer.
pub open spec fn user_is_right(
    chunk: SyncChunk,
    row: Option<UserRow>,
    user_id: i64,
    args: RequestSyncChunkArgs,
) -> bool {
    match (row, args.since) {
        (None, _) => chunk.user is None,
        (Some(row), Some(since)) if row.updated_at.place() <= since.place() => chunk.user is None,
        (Some(row), _) => chunk.user matches Some(user) && {
            &&& user.user_id == match row.user_id {
                Some(id) => id,
                None => user_id,
            }
            &&& user.identity_key == match row.identity_key {
                Some(key) => key,
                None => args.identity_key,
            }
            &&& user.active_storage == row.active_storage
            &&& user.created_at == row.created_at
            &&& user.updated_at == row.updated_at
        },
    }
}

/// A reading is complete, whatever the instant of the request and the user record are. It
/// comes to its end after the user record and at most one page for each entity. The chunk has
/// the keys of the request and the user record where that is due. Of each entity for which
/// the request gives an offset and whose turn comes while the chunk is below both caps, it
/// carries the rows that the store gives from that offset on, as many as there is room for;
/// of any other it carries nothing.
#[verifier::rlimit(40)]
pub proof fn a_reading_is_complete(
    source: Source,
    user_id: i64,
    args: RequestSyncChunkArgs,
    step: ReadStep,
    n: nat,
    k: int,
)
    requires
        answers_in_kind(source),
        step matches ReadStep::FetchUser { reading, .. } && reading == first_reading(user_id, args),
        n >= 13,
        0 <= k < 12,
    ensures
        read_on(source, step, n) matches ReadStep::Done { chunk } && {
            &&& chunk.from_storage_identity_key == args.from_storage_identity_key
            &&& chunk.to_storage_identity_key == args.to_storage_identity_key
            &&& chunk.user_identity_key == args.identity_key
            &&& user_is_right(chunk, source.user, user_id, args)
            &&& carried(chunk, filling_order()[k].0) == rows_due(source, args, k)
        },
{
    let after = first_reading(user_id, args).with_user(source.user);
    let m = (n - 1) as nat;
    reading_goes_on(source, step, m);
    order_facts(0);
    a_reading_starts(source, user_id, args);
    if args.offsets@.len() == 0 {
        done_stays_done(source, next_read(source, step), m);
        nothing_is_due(source, args, k);
        assert(carried(after.chunk, filling_order()[k].0) is None);
    } else {
        from_a_turn_on(after, source, args, 0, m);
        let end = read_on(source, step, n);
        assert(ends_with_due(end, after.chunk, source, args));
        assert(carried(end->Done_chunk, filling_order()[k].0) == rows_due(source, args, k));
    }
}

proof fn nothing_is_due(source: Source, args: RequestSyncChunkArgs, k: int)
    requires
        args.offsets@.len() == 0,
    ensures
        rows_due(source, args, k) is None,
{
    assert(!exists|i: int| last_of_its_name(args.offsets@, filling_order()[k].1, i));
}

proof fn a_reading_starts(source: Source, user_id: i64, args: RequestSyncChunkArgs)
    ensures
        ({
            let after = first_reading(user_id, args).with_user(source.user);
            &&& stands_before(after, source, args, 0)
            &&& user_is_right(after.chunk, source.user, user_id, args)
            &&& after.chunk.from_storage_identity_key == args.from_storage_identity_key
            &&& after.chunk.to_storage_identity_key == args.to_storage_identity_key
            &&& after.chunk.user_identity_key == args.identity_key
        }),
{
    let after = first_reading(user_id, args).with_user(source.user);
    if let (Some(row), Some(since)) = (source.user, args.since) {
        instants_are_ordered_by_their_place(row.updated_at, since);
    }
    assert forall|j: int| 0 <= j < 12 implies carried(
        after.chunk,
        (#[trigger] filling_order()[j]).0,
    ) == if j < 0 {
        rows_due(source, args, j)
    } else {
        None
    } by {
        nothing_yet(after.chunk, filling_order()[j].0);
    }
}

proof fn nothing_yet(chunk: SyncChunk, entity: Entity)
    requires
        chunk.output_baskets is None,
        chunk.proven_txs is None,
        chunk.proven_tx_reqs is None,
        chunk.tx_labels is None,
        chunk.output_tags is None,
        chunk.transactions is None,
        chunk.outputs is None,
        chunk.tx_label_maps is None,
        chunk.output_tag_maps is None,
        chunk.certificates is None,
        chunk.certificate_fields is None,
        chunk.commissions is None,
    ensures
        carried(chunk, entity) is None,
{
}

/// After the user record a reading is at its end only where the request gives no offset for
/// any entity or one of its caps is zero.
pub proof fn a_reading_goes_on_after_the_user(
    user_id: i64,
    args: RequestSyncChunkArgs,
    row: Option<UserRow>,
)
    ensures
        first_reading(user_id, args).after_user(row) is Done ==> args.max_items == 0
            || args.max_rough_size == 0 || forall|k: int|
            0 <= k < 12 ==> offset_under(
                args.offsets@,
                (#[trigger] filling_order()[k]).1,
            ) is None,
{
    let reading = first_reading(user_id, args).with_user(row);
    if args.max_items > 0 && args.max_rough_size > 0 && first_reading(user_id, args).after_user(
        row,
    ) is Done {
        assert forall|k: int| 0 <= k < 12 implies offset_under(
            args.offsets@,
            (#[trigger] filling_order()[k]).1,
        ) is None by {
            if offset_under(args.offsets@, filling_order()[k].1) is Some {
                order_facts(0);
                asks_for_a_page(reading, 0, k);
            }
        }
    }
}

proof fn asks_for_a_page(reading: Reading, from: int, k: int)
    requires
        reading.state.open_for_more(),
        0 <= from <= k < 12,
        offset_under(reading.args.offsets@, filling_order()[k].1) is Some,
    ensures
        reading.at(filling_order()[from].0) is Fetch,
    decreases k - from,
{
    order_facts(from);
    the_last_offset_counts(reading.args.offsets@, filling_order()[from].1);
    if from < k && reading.offset_of(filling_order()[from].0) is None {
        asks_for_a_page(reading, from + 1, k);
    }
}

} // verus!
