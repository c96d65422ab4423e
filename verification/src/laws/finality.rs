//! When a transaction becomes final, and what a block does to the three stores.

use vstd::prelude::*;
use crate::blocks::{
    block_taken_in, confirmed_records, due_below, due_in_block, finalized_all, is_taken_in, repeated,
    times_due,
};
use crate::errors::ErrorView;
use crate::laws::chain::distinct_txids;
use crate::laws::records::{lemma_due_below, lemma_due_in_block};
use crate::memory::BlockView;
use crate::reorg::{block_step_is, BlockStep, ReorgError};
use crate::state::{
    finalized, index_of_tx, lemma_index_of_tx, lemma_index_of_tx_is, ExchangeView, PoolStateView,
};
use crate::text::decimal;
use crate::tx::lemma_times_listed;

verus! {

/// Whether a transaction is confirmed on the pool once a block with these transactions is taken in:
/// its record lists the pool, which is the one from its execution if the block confirms it, and the
/// one from an earlier confirmation otherwise.
pub open spec fn confirmed_on(
    records: Map<(Seq<u8>, bool), Seq<Seq<char>>>,
    txids: Seq<Seq<u8>>,
    txid: Seq<u8>,
    pool: Seq<char>,
) -> bool {
    if txids.contains(txid) && records.contains_key((txid, false)) {
        records[(txid, false)].contains(pool)
    } else {
        records.contains_key((txid, true)) && records[(txid, true)].contains(pool)
    }
}

/// Whether place `k` of the block at `height` is that of a transaction on the exchange's pool that
/// is `depth` deep when `block` is taken in: `block` itself is one deep, the one below it two.
pub open spec fn is_deep(
    state: ExchangeView,
    blocks: Map<u32, BlockView>,
    records: Map<(Seq<u8>, bool), Seq<Seq<char>>>,
    block: BlockView,
    depth: u32,
    height: u32,
    k: int,
) -> bool {
    let stored = blocks.insert(block.height, block);
    &&& stored.contains_key(height)
    &&& block.height - height + 1 >= depth
    &&& 0 <= k < stored[height].txids.len()
    &&& confirmed_on(records, block.txids, stored[height].txids[k], state.address)
}

/// What is due in a block has a place in it.
proof fn lemma_due_in_block_has_a_place(
    records: Map<(Seq<u8>, bool), Seq<Seq<char>>>,
    pool: Seq<char>,
    txids: Seq<Seq<u8>>,
    a: int,
) -> (k: int)
    requires
        0 <= a < due_in_block(records, pool, txids).len(),
    ensures
        0 <= k < txids.len(),
        txids[k] == due_in_block(records, pool, txids)[a],
        times_due(records, pool, txids[k]) > 0,
    decreases txids.len(),
{
    let rest = txids.drop_last();
    let before = due_in_block(records, pool, rest);
    if a < before.len() {
        let k = lemma_due_in_block_has_a_place(records, pool, rest, a);
        assert(rest[k] == txids[k]);
        k
    } else {
        txids.len() - 1
    }
}

/// What is due below a height has a place in a block below it.
proof fn lemma_due_below_has_a_place(
    blocks: Map<u32, BlockView>,
    records: Map<(Seq<u8>, bool), Seq<Seq<char>>>,
    pool: Seq<char>,
    end: nat,
    a: int,
) -> (place: (u32, int))
    requires
        0 <= a < due_below(blocks, records, pool, end).len(),
    ensures
        place.0 < end,
        blocks.contains_key(place.0),
        0 <= place.1 < blocks[place.0].txids.len(),
        blocks[place.0].txids[place.1] == due_below(blocks, records, pool, end)[a],
        times_due(records, pool, blocks[place.0].txids[place.1]) > 0,
    decreases end,
{
    let below = due_below(blocks, records, pool, (end - 1) as nat);
    if a < below.len() {
        lemma_due_below_has_a_place(blocks, records, pool, (end - 1) as nat, a)
    } else {
        let height = (end - 1) as u32;
        let k = lemma_due_in_block_has_a_place(
            records,
            pool,
            blocks[height].txids,
            a - below.len(),
        );
        (height, k)
    }
}

/// Being due once a block is taken in is being confirmed on the pool then.
proof fn lemma_due_is_confirmed(
    records: Map<(Seq<u8>, bool), Seq<Seq<char>>>,
    txids: Seq<Seq<u8>>,
    txid: Seq<u8>,
    pool: Seq<char>,
)
    ensures
        times_due(confirmed_records(records, txids), pool, txid) > 0 <==> confirmed_on(
            records,
            txids,
            txid,
            pool,
        ),
{
    let after = confirmed_records(records, txids);
    if after.contains_key((txid, true)) {
        lemma_times_listed(after[(txid, true)], pool);
    }
}

/// The chain that finalizing leaves is the end of the one before; it is the whole of it, or begins
/// with one of the transactions that were finalized.
proof fn lemma_finalized_begins(states: Seq<PoolStateView>, txids: Seq<Seq<u8>>) -> (a: int)
    requires
        finalized_all(states, txids) is Ok,
    ensures
        ({
            let left = finalized_all(states, txids)->Ok_0;
            &&& left.len() <= states.len()
            &&& left == states.skip(states.len() - left.len())
            &&& txids.len() == 0 ==> left == states
            &&& txids.len() > 0 ==> left.len() > 0 && 0 <= a < txids.len() && left[0].id == Some(
                txids[a],
            )
        }),
    decreases txids.len(),
{
    if txids.len() == 0 {
        assert(states.skip(0) =~= states);
        0
    } else {
        let (left, _) = finalized(states, txids[0]);
        lemma_index_of_tx(states, txids[0]);
        let rest = txids.drop_first();
        let b = lemma_finalized_begins(left, rest);
        let end = finalized_all(states, txids)->Ok_0;
        assert(end =~= states.skip(states.len() - end.len()));
        if rest.len() == 0 {
            0
        } else {
            assert(rest[b] == txids[b + 1]);
            b + 1
        }
    }
}

/// A block finalizes nothing that is still recoverable: the chain of pool states after it is the
/// one before it, or the end of that one which begins with a transaction on the pool that is
/// `depth` deep.
pub proof fn law_block_finalizes_only_what_is_deep(
    state: ExchangeView,
    blocks: Map<u32, BlockView>,
    records: Map<(Seq<u8>, bool), Seq<Seq<char>>>,
    block: BlockView,
    depth: u32,
)
    requires
        depth <= block.height,
    ensures
        block_taken_in(state, blocks, records, block, depth) matches Ok((states, _, _)) ==> {
            &&& states.len() <= state.states.len()
            &&& states == state.states.skip(state.states.len() - states.len())
            &&& states == state.states || exists|height: u32, k: int|
                states.len() > 0 && #[trigger] is_deep(
                    state,
                    blocks,
                    records,
                    block,
                    depth,
                    height,
                    k,
                ) && states[0].id == Some(blocks.insert(block.height, block)[height].txids[k])
        },
{
    let stored = blocks.insert(block.height, block);
    let confirmed = confirmed_records(records, block.txids);
    let end = (block.height - depth + 2) as nat;
    let due = due_below(stored, confirmed, state.address, end);
    if block_taken_in(state, blocks, records, block, depth) is Ok {
        let states = block_taken_in(state, blocks, records, block, depth)->Ok_0.0;
        let a = lemma_finalized_begins(state.states, due);
        if due.len() > 0 {
            let (height, k) = lemma_due_below_has_a_place(
                stored,
                confirmed,
                state.address,
                end,
                a,
            );
            lemma_due_is_confirmed(records, block.txids, due[a], state.address);
            assert(is_deep(state, blocks, records, block, depth, height, k));
        }
    }
}

/// A block leaves the chain as it is where every transaction of the chain that stands in a stored
/// block, the new one included, is still recoverable: less than `depth` deep. And it is always
/// taken in where nothing on the pool is `depth` deep.
pub proof fn law_recoverable_block_leaves_the_chain(
    state: ExchangeView,
    blocks: Map<u32, BlockView>,
    records: Map<(Seq<u8>, bool), Seq<Seq<char>>>,
    block: BlockView,
    depth: u32,
)
    requires
        depth <= block.height,
    ensures
        (forall|height: u32, k: int, j: int|
            blocks.insert(block.height, block).contains_key(height) && 0 <= k
                < blocks.insert(block.height, block)[height].txids.len() && 0 <= j
                < state.states.len() && (#[trigger] state.states[j]).id == Some(
                #[trigger] blocks.insert(block.height, block)[height].txids[k],
            ) ==> block.height - height + 1 < depth) ==> (block_taken_in(
            state,
            blocks,
            records,
            block,
            depth,
        ) matches Ok((states, _, _)) ==> states == state.states),
        (forall|height: u32, k: int|
            !#[trigger] is_deep(state, blocks, records, block, depth, height, k)) ==> (
        block_taken_in(state, blocks, records, block, depth) matches Ok((states, _, _)) && states
            == state.states),
{
    let stored = blocks.insert(block.height, block);
    law_block_finalizes_only_what_is_deep(state, blocks, records, block, depth);
    if block_taken_in(state, blocks, records, block, depth) is Ok {
        let states = block_taken_in(state, blocks, records, block, depth)->Ok_0.0;
        if states != state.states {
            let (height, k) = choose|height: u32, k: int|
                states.len() > 0 && #[trigger] is_deep(
                    state,
                    blocks,
                    records,
                    block,
                    depth,
                    height,
                    k,
                ) && states[0].id == Some(stored[height].txids[k]);
            let j = state.states.len() - states.len();
            assert(states[0] == state.states[j]);
            assert(state.states[j].id == Some(stored[height].txids[k]));
        }
    }
    let confirmed = confirmed_records(records, block.txids);
    let end = (block.height - depth + 2) as nat;
    let due = due_below(stored, confirmed, state.address, end);
    if due.len() > 0 {
        let (height, k) = lemma_due_below_has_a_place(stored, confirmed, state.address, end, 0);
        lemma_due_is_confirmed(records, block.txids, due[0], state.address);
        assert(is_deep(state, blocks, records, block, depth, height, k));
    }
}

/// A block that is taken in finalizes all that is deep: a transaction on the pool that is `depth`
/// deep stands first in the chain that is left, or no longer in it. It is for a chain in which no
/// transaction stands twice.
pub proof fn law_block_finalizes_all_that_is_deep(
    state: ExchangeView,
    blocks: Map<u32, BlockView>,
    records: Map<(Seq<u8>, bool), Seq<Seq<char>>>,
    block: BlockView,
    depth: u32,
    height: u32,
    k: int,
)
    requires
        depth <= block.height,
        distinct_txids(state.states),
        is_deep(state, blocks, records, block, depth, height, k),
    ensures
        block_taken_in(state, blocks, records, block, depth) matches Ok((states, _, _))
            ==> forall|j: int|
            0 < j < states.len() ==> (#[trigger] states[j]).id != Some(
                blocks.insert(block.height, block)[height].txids[k],
            ),
{
    let stored = blocks.insert(block.height, block);
    let confirmed = confirmed_records(records, block.txids);
    let end = (block.height - depth + 2) as nat;
    let due = due_below(stored, confirmed, state.address, end);
    let txid = stored[height].txids[k];
    lemma_due_is_confirmed(records, block.txids, txid, state.address);
    lemma_due_in_block(confirmed, state.address, stored[height].txids, txid);
    lemma_due_below(stored, confirmed, state.address, height, end, txid);
    if block_taken_in(state, blocks, records, block, depth) is Ok {
        let a = choose|a: int| 0 <= a < due.len() && due[a] == txid;
        lemma_finalized_drops_what_is_before(state.states, due, a);
    }
}

/// What was finalized stands first in what is left, or no longer in it.
proof fn lemma_finalized_drops_what_is_before(
    states: Seq<PoolStateView>,
    txids: Seq<Seq<u8>>,
    a: int,
)
    requires
        distinct_txids(states),
        finalized_all(states, txids) is Ok,
        0 <= a < txids.len(),
    ensures
        forall|j: int|
            0 < j < finalized_all(states, txids)->Ok_0.len() ==> (#[trigger] finalized_all(
                states,
                txids,
            )->Ok_0[j]).id != Some(txids[a]),
    decreases txids.len(),
{
    let (left, _) = finalized(states, txids[0]);
    lemma_index_of_tx(states, txids[0]);
    let i = index_of_tx(states, txids[0])->0;
    assert(forall|j: int| 0 <= j < left.len() ==> left[j] == states[i + j]);
    let rest = txids.drop_first();
    if a == 0 {
        let b = lemma_finalized_begins(left, rest);
        let end = finalized_all(states, txids)->Ok_0;
        let d = left.len() - end.len();
        assert forall|j: int| 0 < j < end.len() implies (#[trigger] end[j]).id != Some(
            txids[0],
        ) by {
            assert(end[j] == left[d + j]);
            assert(left[0].id == Some(txids[0]));
        }
    } else {
        assert(rest[a - 1] == txids[a]);
        lemma_finalized_drops_what_is_before(left, rest, a - 1);
    }
}

/// Whether the transactions of a list stand in the chain, in the order of the list.
spec fn in_chain_order(states: Seq<PoolStateView>, txids: Seq<Seq<u8>>) -> bool {
    &&& forall|a: int| 0 <= a < txids.len() ==> index_of_tx(states, #[trigger] txids[a]) is Some
    &&& forall|a: int, b: int|
        0 <= a <= b < txids.len() ==> index_of_tx(states, #[trigger] txids[a])->0 <= index_of_tx(
            states,
            #[trigger] txids[b],
        )->0
}

/// Transactions that stand in the chain in their order can be finalized one after the other.
proof fn lemma_finalized_in_order(states: Seq<PoolStateView>, txids: Seq<Seq<u8>>)
    requires
        in_chain_order(states, txids),
    ensures
        finalized_all(states, txids) is Ok,
        txids.len() > 0 ==> finalized_all(states, txids)->Ok_0 == states.skip(
            index_of_tx(states, txids.last())->0,
        ),
    decreases txids.len(),
{
    if txids.len() > 0 {
        let i = index_of_tx(states, txids[0])->0;
        let (left, _) = finalized(states, txids[0]);
        let rest = txids.drop_first();
        lemma_index_of_tx(states, txids[0]);
        assert forall|a: int| 0 <= a < txids.len() implies index_of_tx(
            left,
            #[trigger] txids[a],
        ) == Some(index_of_tx(states, txids[a])->0 - i) by {
            let p = index_of_tx(states, txids[a])->0;
            lemma_index_of_tx(states, txids[a]);
            assert(index_of_tx(states, txids[0])->0 <= p);
            assert(forall|j: int| 0 <= j < left.len() ==> left[j] == states[i + j]);
            lemma_index_of_tx_is(left, txids[a], p - i);
        }
        assert(forall|a: int| 0 <= a < rest.len() ==> rest[a] == txids[a + 1]);
        lemma_finalized_in_order(left, rest);
        if rest.len() > 0 {
            let p = index_of_tx(states, txids.last())->0;
            assert(rest.last() == txids.last());
            assert(txids.last() == txids[txids.len() - 1]);
            lemma_index_of_tx(states, txids.last());
            assert(left.skip(p - i) =~= states.skip(p));
        }
    }
}

/// A block is taken in wherever the transactions on the pool that are `depth` deep stand in the
/// chain of pool states in the order in which they stand in the blocks.
pub proof fn law_block_is_taken_in(
    state: ExchangeView,
    blocks: Map<u32, BlockView>,
    records: Map<(Seq<u8>, bool), Seq<Seq<char>>>,
    block: BlockView,
    depth: u32,
)
    requires
        depth <= block.height,
        forall|h: u32, k: int, g: u32, l: int|
            #[trigger] is_deep(state, blocks, records, block, depth, h, k) && #[trigger] is_deep(
                state,
                blocks,
                records,
                block,
                depth,
                g,
                l,
            ) && (h < g || (h == g && k <= l)) ==> {
                let stored = blocks.insert(block.height, block);
                &&& index_of_tx(state.states, stored[h].txids[k]) is Some
                &&& index_of_tx(state.states, stored[g].txids[l]) is Some
                &&& index_of_tx(state.states, stored[h].txids[k])->0 <= index_of_tx(
                    state.states,
                    stored[g].txids[l],
                )->0
            },
    ensures
        block_taken_in(state, blocks, records, block, depth) is Ok,
{
    let stored = blocks.insert(block.height, block);
    let confirmed = confirmed_records(records, block.txids);
    let end = (block.height - depth + 2) as nat;
    lemma_due_below_in_order(state, blocks, records, block, depth, end);
    lemma_finalized_in_order(
        state.states,
        due_below(stored, confirmed, state.address, end),
    );
}

/// What is due below a height stands in the chain in its order.
proof fn lemma_due_below_in_order(
    state: ExchangeView,
    blocks: Map<u32, BlockView>,
    records: Map<(Seq<u8>, bool), Seq<Seq<char>>>,
    block: BlockView,
    depth: u32,
    end: nat,
)
    requires
        depth <= block.height,
        end <= block.height - depth + 2,
        forall|h: u32, k: int, g: u32, l: int|
            #[trigger] is_deep(state, blocks, records, block, depth, h, k) && #[trigger] is_deep(
                state,
                blocks,
                records,
                block,
                depth,
                g,
                l,
            ) && (h < g || (h == g && k <= l)) ==> {
                let stored = blocks.insert(block.height, block);
                &&& index_of_tx(state.states, stored[h].txids[k]) is Some
                &&& index_of_tx(state.states, stored[g].txids[l]) is Some
                &&& index_of_tx(state.states, stored[h].txids[k])->0 <= index_of_tx(
                    state.states,
                    stored[g].txids[l],
                )->0
            },
    ensures
        in_chain_order(
            state.states,
            due_below(
                blocks.insert(block.height, block),
                confirmed_records(records, block.txids),
                state.address,
                end,
            ),
        ),
    decreases end,
{
    let stored = blocks.insert(block.height, block);
    let confirmed = confirmed_records(records, block.txids);
    if end > 0 {
        let before = (end - 1) as nat;
        let height = (end - 1) as u32;
        let below = due_below(stored, confirmed, state.address, before);
        let due = due_below(stored, confirmed, state.address, end);
        lemma_due_below_in_order(state, blocks, records, block, depth, before);
        if end - 1 <= u32::MAX && stored.contains_key(height) {
            let txids = stored[height].txids;
            let added = due_in_block(confirmed, state.address, txids);
            lemma_due_in_block_in_order(
                state,
                blocks,
                records,
                block,
                depth,
                height,
                txids.len() as int,
            );
            assert(txids.take(txids.len() as int) =~= txids);
            assert(due == below + added);
            assert forall|a: int, b: int| 0 <= a <= b < due.len() implies index_of_tx(
                state.states,
                #[trigger] due[a],
            ) is Some && index_of_tx(state.states, #[trigger] due[b]) is Some && index_of_tx(
                state.states,
                due[a],
            )->0 <= index_of_tx(state.states, due[b])->0 by {
                if b < below.len() {
                    assert(due[a] == below[a] && due[b] == below[b]);
                } else if a >= below.len() {
                    assert(due[a] == added[a - below.len()] && due[b] == added[b - below.len()]);
                } else {
                    let (h, k) = lemma_due_below_has_a_place(
                        stored,
                        confirmed,
                        state.address,
                        before,
                        a,
                    );
                    let l = lemma_due_in_block_has_a_place(
                        confirmed,
                        state.address,
                        txids,
                        b - below.len(),
                    );
                    lemma_due_is_confirmed(records, block.txids, due[a], state.address);
                    lemma_due_is_confirmed(records, block.txids, due[b], state.address);
                    assert(is_deep(state, blocks, records, block, depth, h, k));
                    assert(is_deep(state, blocks, records, block, depth, height, l));
                }
            }
        }
    }
}

/// What is due in the first `n` places of a block stands in the chain in its order.
proof fn lemma_due_in_block_in_order(
    state: ExchangeView,
    blocks: Map<u32, BlockView>,
    records: Map<(Seq<u8>, bool), Seq<Seq<char>>>,
    block: BlockView,
    depth: u32,
    height: u32,
    n: int,
)
    requires
        depth <= block.height,
        blocks.insert(block.height, block).contains_key(height),
        block.height - height + 1 >= depth,
        0 <= n <= blocks.insert(block.height, block)[height].txids.len(),
        forall|h: u32, k: int, g: u32, l: int|
            #[trigger] is_deep(state, blocks, records, block, depth, h, k) && #[trigger] is_deep(
                state,
                blocks,
                records,
                block,
                depth,
                g,
                l,
            ) && (h < g || (h == g && k <= l)) ==> {
                let stored = blocks.insert(block.height, block);
                &&& index_of_tx(state.states, stored[h].txids[k]) is Some
                &&& index_of_tx(state.states, stored[g].txids[l]) is Some
                &&& index_of_tx(state.states, stored[h].txids[k])->0 <= index_of_tx(
                    state.states,
                    stored[g].txids[l],
                )->0
            },
    ensures
        in_chain_order(
            state.states,
            due_in_block(
                confirmed_records(records, block.txids),
                state.address,
                blocks.insert(block.height, block)[height].txids.take(n),
            ),
        ),
    decreases n,
{
    let stored = blocks.insert(block.height, block);
    let confirmed = confirmed_records(records, block.txids);
    let txids = stored[height].txids.take(n);
    if n > 0 {
        let rest = stored[height].txids.take(n - 1);
        assert(txids.drop_last() =~= rest);
        lemma_due_in_block_in_order(state, blocks, records, block, depth, height, n - 1);
        let before = due_in_block(confirmed, state.address, rest);
        let last = txids.last();
        let added = repeated(last, times_due(confirmed, state.address, last));
        let due = due_in_block(confirmed, state.address, txids);
        assert(due == before + added);
        assert(last == stored[height].txids[n - 1]);
        assert forall|a: int, b: int| 0 <= a <= b < due.len() implies index_of_tx(
            state.states,
            #[trigger] due[a],
        ) is Some && index_of_tx(state.states, #[trigger] due[b]) is Some && index_of_tx(
            state.states,
            due[a],
        )->0 <= index_of_tx(state.states, due[b])->0 by {
            if b < before.len() {
                assert(due[a] == before[a] && due[b] == before[b]);
            } else {
                assert(due[b] == last);
                lemma_due_is_confirmed(records, block.txids, last, state.address);
                assert(is_deep(state, blocks, records, block, depth, height, n - 1));
                if a < before.len() {
                    let k = lemma_due_in_block_has_a_place(confirmed, state.address, rest, a);
                    assert(rest[k] == stored[height].txids[k]);
                    lemma_due_is_confirmed(records, block.txids, due[a], state.address);
                    assert(is_deep(state, blocks, records, block, depth, height, k));
                } else {
                    assert(due[a] == last);
                }
            }
        }
    }
}

/// A block that is not taken in is refused because a transaction on the pool that is `depth` deep is
/// not where it is looked for in the chain.
pub proof fn law_block_is_refused(
    state: ExchangeView,
    blocks: Map<u32, BlockView>,
    records: Map<(Seq<u8>, bool), Seq<Seq<char>>>,
    block: BlockView,
    depth: u32,
)
    requires
        depth <= block.height,
    ensures
        block_taken_in(state, blocks, records, block, depth) matches Err(e) ==> {
            &&& e == ErrorView::InvalidState("txid not found"@)
            &&& exists|height: u32, k: int| #[trigger]
                is_deep(state, blocks, records, block, depth, height, k)
        },
{
    let stored = blocks.insert(block.height, block);
    let confirmed = confirmed_records(records, block.txids);
    let end = (block.height - depth + 2) as nat;
    let due = due_below(stored, confirmed, state.address, end);
    if block_taken_in(state, blocks, records, block, depth) is Err {
        lemma_finalizing_fails(state.states, due);
        let (height, k) = lemma_due_below_has_a_place(stored, confirmed, state.address, end, 0);
        lemma_due_is_confirmed(records, block.txids, due[0], state.address);
        assert(is_deep(state, blocks, records, block, depth, height, k));
    }
}

/// Finalizing fails only for a transaction that is not in the chain.
proof fn lemma_finalizing_fails(states: Seq<PoolStateView>, txids: Seq<Seq<u8>>)
    requires
        finalized_all(states, txids) is Err,
    ensures
        txids.len() > 0,
        finalized_all(states, txids)->Err_0 == ErrorView::InvalidState("txid not found"@),
    decreases txids.len(),
{
    let (left, res) = finalized(states, txids[0]);
    if res is Ok {
        lemma_finalizing_fails(left, txids.drop_first());
    }
}

/// A block that is taken in changes nothing of the exchange but the chain; the stored blocks are then
/// those that are less than `depth` deep, the new one among them, as they were. One that is refused
/// leaves all three stores as they were.
pub proof fn law_block_changes_all_or_nothing(
    state: ExchangeView,
    blocks: Map<u32, BlockView>,
    records: Map<(Seq<u8>, bool), Seq<Seq<char>>>,
    block: BlockView,
    depth: u32,
    after: ExchangeView,
    kept: Map<u32, BlockView>,
    confirmed: Map<(Seq<u8>, bool), Seq<Seq<char>>>,
    res: Result<(), ErrorView>,
    height: u32,
)
    requires
        is_taken_in(state, blocks, records, block, depth, after, kept, confirmed, res),
    ensures
        res is Ok <==> block_taken_in(state, blocks, records, block, depth) is Ok,
        res is Err ==> after == state && kept == blocks && confirmed == records,
        res is Ok ==> {
            &&& (after.states, kept, confirmed) == block_taken_in(
                state,
                blocks,
                records,
                block,
                depth,
            )->Ok_0
            &&& after.key == state.key
            &&& after.address == state.address
            &&& after.ii_canister == state.ii_canister
            &&& after.orchestrator == state.orchestrator
            &&& after.address_principal_map == state.address_principal_map
            &&& after.game == state.game
            &&& after.game_status == state.game_status
            &&& kept.contains_key(height) <==> (height == block.height || blocks.contains_key(
                height,
            )) && block.height - height + 1 < depth
            &&& kept.contains_key(height) ==> kept[height] == (if height == block.height {
                block
            } else {
                blocks[height]
            })
        },
{
}

/// A block confirms its own transactions and no others: each that has a record from its execution
/// has then the same record from its confirmation. All other records are as before.
pub proof fn law_block_confirms_its_transactions(
    state: ExchangeView,
    blocks: Map<u32, BlockView>,
    records: Map<(Seq<u8>, bool), Seq<Seq<char>>>,
    block: BlockView,
    depth: u32,
    txid: Seq<u8>,
)
    ensures
        block_taken_in(state, blocks, records, block, depth) matches Ok((_, _, after)) ==> {
            let confirms = block.txids.contains(txid) && records.contains_key((txid, false));
            &&& after.contains_key((txid, false)) == records.contains_key((txid, false))
            &&& records.contains_key((txid, false)) ==> after[(txid, false)] == records[(
                txid,
                false,
            )]
            &&& confirms ==> after.contains_key((txid, true)) && after[(txid, true)] == records[(
                txid,
                false,
            )]
            &&& !confirms ==> after.contains_key((txid, true)) == records.contains_key((txid, true))
            &&& !confirms && records.contains_key((txid, true)) ==> after[(txid, true)]
                == records[(txid, true)]
        },
{
}

/// What is done about a block goes by how it fits: one that extends the known blocks, or repeats one
/// of them, is taken in; one on a branch that can be recovered from is taken in after the abandoned
/// blocks are undone; any other is refused, with the reason.
pub proof fn law_block_is_judged(detected: Result<(), ReorgError>, step: BlockStep)
    requires
        block_step_is(detected, step),
    ensures
        step is Accept <==> detected is Ok || detected->Err_0 is DuplicateBlock,
        step is HandleReorg <==> detected is Err && detected->Err_0 is Recoverable,
        step matches BlockStep::HandleReorg { height, depth } ==> detected->Err_0
            == (ReorgError::Recoverable { height, depth }),
        step is Refuse <==> detected is Err && (detected->Err_0 is Unrecoverable
            || detected->Err_0 is BlockNotFoundInState),
        detected matches Err(ReorgError::Unrecoverable) ==> step->Refuse_0@
            == "Unrecoverable reorg detected"@,
        detected matches Err(ReorgError::BlockNotFoundInState { height }) ==> step->Refuse_0@
            == "Block not found in state at height "@ + decimal(height as nat),
{
}

/// Finalizing a transaction succeeds if and only if it is in the chain; the chain then begins with
/// it, where it first stands, and all after that stays. Otherwise nothing changes.
pub proof fn law_finalize_begins_with_the_transaction(
    states: Seq<PoolStateView>,
    txid: Seq<u8>,
    i: int,
)
    requires
        0 <= i <= states.len(),
        i < states.len() ==> states[i].id == Some(txid),
        forall|j: int| 0 <= j < i ==> (#[trigger] states[j]).id != Some(txid),
    ensures
        i < states.len() ==> finalized(states, txid).1 is Ok && finalized(states, txid).0
            == states.subrange(i, states.len() as int),
        i == states.len() ==> finalized(states, txid) == (
            states,
            Err::<(), ErrorView>(ErrorView::InvalidState("txid not found"@)),
        ),
{
    lemma_index_of_tx(states, txid);
    if i < states.len() {
        lemma_index_of_tx_is(states, txid, i);
        assert(states.skip(i) =~= states.subrange(i, states.len() as int));
    }
}

} // verus!
