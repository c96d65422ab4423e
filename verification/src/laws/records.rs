//! What holds of the records of transactions and of the stored blocks.

use vstd::prelude::*;
use crate::blocks::{
    block_taken_in, confirmed_records, due_below, due_in_block, repeated, times_due, times_listed,
};
use crate::laws::chain::{distinct_txids, law_final_is_final};
use crate::memory::{block_fits, blocks_fit, records_fit, BlockView};
use crate::state::ExchangeView;
use crate::tx::{
    has_room, latest_record, lemma_times_listed, recorded, rolled_back_times, tx_rolled_back,
    RollbackErrorView,
};

verus! {

/// An executed transaction has a record that lists the pool. The records of other transactions,
/// and the record of its confirmation, stay as they were; to note it once more changes nothing.
pub proof fn law_execution_is_recorded(
    records: Map<(Seq<u8>, bool), Seq<Seq<char>>>,
    txid: Seq<u8>,
    pool: Seq<char>,
)
    ensures
        ({
            let after = recorded(records, txid, pool);
            &&& after.contains_key((txid, false))
            &&& after[(txid, false)].contains(pool)
            &&& after.remove((txid, false)) == records.remove((txid, false))
            &&& recorded(after, txid, pool) == after
        }),
{
    let after = recorded(records, txid, pool);
    let pools = if records.contains_key((txid, false)) {
        records[(txid, false)]
    } else {
        Seq::empty()
    };
    assert(pools.push(pool)[pools.len() as int] == pool);
    assert(after.remove((txid, false)) =~= records.remove((txid, false)));
    assert(recorded(after, txid, pool) =~= after);
}

/// A block changes no record but those of its own transactions. Of each of these that was
/// executed, the latest record is then the one from its execution; to confirm once more changes
/// nothing.
pub proof fn law_confirmation_takes_over_the_record(
    records: Map<(Seq<u8>, bool), Seq<Seq<char>>>,
    txids: Seq<Seq<u8>>,
    txid: Seq<u8>,
)
    ensures
        ({
            let after = confirmed_records(records, txids);
            &&& !txids.contains(txid) ==> latest_record(after, txid) == latest_record(records, txid)
            &&& txids.contains(txid) && records.contains_key((txid, false)) ==> after.contains_key(
                (txid, true),
            ) && latest_record(after, txid) == Some(records[(txid, false)])
            &&& confirmed_records(after, txids) == after
        }),
{
    let after = confirmed_records(records, txids);
    assert(confirmed_records(after, txids) =~= after);
}

/// A transaction that was rolled back has no record any more, so that it cannot be rolled back
/// again; the records of other transactions stay as they were.
pub proof fn law_rollback_forgets_the_records(
    state: ExchangeView,
    records: Map<(Seq<u8>, bool), Seq<Seq<char>>>,
    txid: Seq<u8>,
    other: Seq<u8>,
)
    ensures
        ({
            let after = records.remove((txid, false)).remove((txid, true));
            &&& tx_rolled_back(state, after, txid) is Err
            &&& tx_rolled_back(state, after, txid)->Err_0 == RollbackErrorView::NoRecord
            &&& other != txid ==> latest_record(after, other) == latest_record(records, other)
        }),
{
}

/// After a block was taken in, no block is stored that is `depth` deep or deeper, counted from the
/// new one, which is at depth one. All the others are stored as they were, the new one among them
/// where it is not itself deep enough.
pub proof fn law_deep_blocks_are_forgotten(
    state: ExchangeView,
    blocks: Map<u32, BlockView>,
    records: Map<(Seq<u8>, bool), Seq<Seq<char>>>,
    block: BlockView,
    depth: u32,
    height: u32,
)
    ensures
        block_taken_in(state, blocks, records, block, depth) matches Ok((_, kept, _)) ==> {
            &&& kept.contains_key(height) ==> height > block.height - depth + 1
            &&& height > block.height - depth + 1 && height != block.height ==> (
            kept.contains_key(height) == blocks.contains_key(height) && (kept.contains_key(height)
                ==> kept[height] == blocks[height]))
            &&& depth >= 2 ==> kept.contains_key(block.height) && kept[block.height] == block
        },
{
}

/// What is kept in stable memory can always be stored as it is: the execution of a transaction for
/// which there is room, its rollback, and a block that can be stored, keep it so.
pub proof fn law_stores_stay_storable(
    state: ExchangeView,
    blocks: Map<u32, BlockView>,
    records: Map<(Seq<u8>, bool), Seq<Seq<char>>>,
    txid: Seq<u8>,
    pool: Seq<char>,
    block: BlockView,
    depth: u32,
)
    requires
        blocks_fit(blocks),
        records_fit(records),
    ensures
        has_room(records, txid, pool) ==> records_fit(recorded(records, txid, pool)),
        records_fit(records.remove((txid, false)).remove((txid, true))),
        block_fits(block) ==> (block_taken_in(state, blocks, records, block, depth) matches Ok(
            (_, kept, confirmed),
        ) ==> blocks_fit(kept) && records_fit(confirmed)),
{
}

/// What is due in a block is due for each of its transactions whose record lists the pool.
pub(crate) proof fn lemma_due_in_block(
    records: Map<(Seq<u8>, bool), Seq<Seq<char>>>,
    pool: Seq<char>,
    txids: Seq<Seq<u8>>,
    txid: Seq<u8>,
)
    requires
        txids.contains(txid),
        times_due(records, pool, txid) > 0,
    ensures
        due_in_block(records, pool, txids).contains(txid),
    decreases txids.len(),
{
    let rest = txids.drop_last();
    let before = due_in_block(records, pool, rest);
    let added = repeated(txids.last(), times_due(records, pool, txids.last()));
    if txids.last() == txid {
        assert((before + added)[before.len() as int] == txid);
    } else {
        let j = choose|j: int| 0 <= j < txids.len() && txids[j] == txid;
        assert(rest[j] == txid);
        lemma_due_in_block(records, pool, rest, txid);
        let k = choose|k: int| 0 <= k < before.len() && before[k] == txid;
        assert((before + added)[k] == txid);
    }
}

/// What is due in a block is due below every height above it.
pub(crate) proof fn lemma_due_below(
    blocks: Map<u32, BlockView>,
    records: Map<(Seq<u8>, bool), Seq<Seq<char>>>,
    pool: Seq<char>,
    height: u32,
    end: nat,
    txid: Seq<u8>,
)
    requires
        height < end,
        blocks.contains_key(height),
        due_in_block(records, pool, blocks[height].txids).contains(txid),
    ensures
        due_below(blocks, records, pool, end).contains(txid),
    decreases end,
{
    let below = due_below(blocks, records, pool, (end - 1) as nat);
    if height == end - 1 {
        let added = due_in_block(records, pool, blocks[height].txids);
        let k = choose|k: int| 0 <= k < added.len() && added[k] == txid;
        assert((below + added)[below.len() + k] == txid);
    } else {
        lemma_due_below(blocks, records, pool, height, (end - 1) as nat, txid);
        let k = choose|k: int| 0 <= k < below.len() && below[k] == txid;
        let last = (end - 1) as u32;
        if end - 1 <= u32::MAX && blocks.contains_key(last) {
            let added = due_in_block(records, pool, blocks[last].txids);
            assert((below + added)[k] == txid);
        }
    }
}

/// A transaction on the pool that stands in a block which is `depth` deep, or deeper, when a new
/// block was taken in, is final: to roll it back is refused. It is for a chain in which no
/// transaction stands twice.
pub proof fn law_deep_transactions_are_final(
    state: ExchangeView,
    blocks: Map<u32, BlockView>,
    records: Map<(Seq<u8>, bool), Seq<Seq<char>>>,
    block: BlockView,
    depth: u32,
    height: u32,
    txid: Seq<u8>,
)
    requires
        distinct_txids(state.states),
        blocks.insert(block.height, block).contains_key(height),
        height <= block.height - depth + 1,
        blocks.insert(block.height, block)[height].txids.contains(txid),
        confirmed_records(records, block.txids).contains_key((txid, true)),
        confirmed_records(records, block.txids)[(txid, true)].contains(state.address),
    ensures
        block_taken_in(state, blocks, records, block, depth) matches Ok((states, _, confirmed))
            ==> tx_rolled_back(ExchangeView { states, ..state }, confirmed, txid) is Err,
{
    let known = blocks.insert(block.height, block);
    let confirmed = confirmed_records(records, block.txids);
    let final_height = block.height - depth + 1;
    let due = due_below(known, confirmed, state.address, (final_height + 1) as nat);
    lemma_times_listed(confirmed[(txid, true)], state.address);
    lemma_due_in_block(confirmed, state.address, known[height].txids, txid);
    lemma_due_below(
        known,
        confirmed,
        state.address,
        height,
        (final_height + 1) as nat,
        txid,
    );
    if block_taken_in(state, blocks, records, block, depth) is Ok {
        law_final_is_final(state, due, txid, state.game);
        let states = block_taken_in(state, blocks, records, block, depth)->Ok_0.0;
        let n = times_listed(confirmed[(txid, true)], state.address);
        assert(rolled_back_times(states, state.game, txid, n) is Err);
    }
}

} // verus!
