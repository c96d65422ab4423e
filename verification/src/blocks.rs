//! What a new block does to the exchange: transactions become confirmed, and those that are deep
//! enough become final.

use vstd::prelude::*;
use crate::errors::{outcome, ErrorView, ExchangeError};
use crate::memory::{
    block_fits, block_views, lists_blocks, BlockStore, BlockView, NewBlockInfo, TxRecordStore,
};
use crate::state::{
    copy_states, finalized, state_views, ExchangeState, ExchangeView, PoolStateView,
};
use crate::text::string_views;
use crate::utxo::{txid_views, Txid};

verus! {

/// The records after the transactions of a block were confirmed: each that has a record from its
/// execution has the same record from its confirmation.
pub open spec fn confirmed_records(
    records: Map<(Seq<u8>, bool), Seq<Seq<char>>>,
    txids: Seq<Seq<u8>>,
) -> Map<(Seq<u8>, bool), Seq<Seq<char>>> {
    Map::new(
        |k: (Seq<u8>, bool)|
            records.contains_key(k) || (k.1 && txids.contains(k.0) && records.contains_key(
                (k.0, false),
            )),
        |k: (Seq<u8>, bool)|
            if k.1 && txids.contains(k.0) && records.contains_key((k.0, false)) {
                records[(k.0, false)]
            } else {
                records[k]
            },
    )
}

/// How often `pool` is among the pools.
pub open spec fn times_listed(pools: Seq<Seq<char>>, pool: Seq<char>) -> nat
    decreases pools.len(),
{
    if pools.len() == 0 {
        0
    } else {
        times_listed(pools.drop_last(), pool) + if pools.last() == pool {
            1nat
        } else {
            0nat
        }
    }
}

/// How often a transaction is to be finalized for `pool`: once for each time that the record of
/// its confirmation lists the pool.
pub open spec fn times_due(
    records: Map<(Seq<u8>, bool), Seq<Seq<char>>>,
    pool: Seq<char>,
    txid: Seq<u8>,
) -> nat {
    if records.contains_key((txid, true)) {
        times_listed(records[(txid, true)], pool)
    } else {
        0
    }
}

/// `n` times the same id.
pub open spec fn repeated(txid: Seq<u8>, n: nat) -> Seq<Seq<u8>> {
    Seq::new(n, |i: int| txid)
}

/// The transactions of a block that are to be finalized for `pool`, in the order of the block.
pub open spec fn due_in_block(
    records: Map<(Seq<u8>, bool), Seq<Seq<char>>>,
    pool: Seq<char>,
    txids: Seq<Seq<u8>>,
) -> Seq<Seq<u8>>
    decreases txids.len(),
{
    if txids.len() == 0 {
        Seq::empty()
    } else {
        due_in_block(records, pool, txids.drop_last()) + repeated(
            txids.last(),
            times_due(records, pool, txids.last()),
        )
    }
}

/// The transactions that are to be finalized for `pool`, in the blocks below height `end`, in
/// ascending order of height.
pub open spec fn due_below(
    blocks: Map<u32, BlockView>,
    records: Map<(Seq<u8>, bool), Seq<Seq<char>>>,
    pool: Seq<char>,
    end: nat,
) -> Seq<Seq<u8>>
    decreases end,
{
    if end == 0 {
        Seq::empty()
    } else {
        let height = (end - 1) as u32;
        let below = due_below(blocks, records, pool, (end - 1) as nat);
        if end - 1 <= u32::MAX && blocks.contains_key(height) {
            below + due_in_block(records, pool, blocks[height].txids)
        } else {
            below
        }
    }
}

/// What finalizing one transaction after another makes of a chain of pool states, or the error of
/// the first that is not in it.
pub open spec fn finalized_all(states: Seq<PoolStateView>, txids: Seq<Seq<u8>>) -> Result<
    Seq<PoolStateView>,
    ErrorView,
>
    decreases txids.len(),
{
    if txids.len() == 0 {
        Ok(states)
    } else {
        match finalized(states, txids[0]) {
            (after, Ok(_)) => finalized_all(after, txids.drop_first()),
            (_, Err(e)) => Err(e),
        }
    }
}

/// The blocks without those up to `height`.
pub open spec fn blocks_above(blocks: Map<u32, BlockView>, height: int) -> Map<u32, BlockView> {
    Map::new(|h: u32| blocks.contains_key(h) && h > height, |h: u32| blocks[h])
}

/// What a block makes of the chain of pool states, of the stored blocks and of the records; or
/// the error of a transaction that is to be finalized and is not in the chain.
pub open spec fn block_taken_in(
    state: ExchangeView,
    blocks: Map<u32, BlockView>,
    records: Map<(Seq<u8>, bool), Seq<Seq<char>>>,
    block: BlockView,
    depth: u32,
) -> Result<
    (Seq<PoolStateView>, Map<u32, BlockView>, Map<(Seq<u8>, bool), Seq<Seq<char>>>),
    ErrorView,
> {
    let known = blocks.insert(block.height, block);
    let confirmed = confirmed_records(records, block.txids);
    let final_height = block.height - depth + 1;
    match finalized_all(
        state.states,
        due_below(known, confirmed, state.address, (final_height + 1) as nat),
    ) {
        Ok(states) => Ok((states, blocks_above(known, final_height), confirmed)),
        Err(e) => Err(e),
    }
}

/// Heights at which no block is stored add nothing to what is due.
proof fn lemma_due_gap(
    blocks: Map<u32, BlockView>,
    records: Map<(Seq<u8>, bool), Seq<Seq<char>>>,
    pool: Seq<char>,
    low: nat,
    high: nat,
)
    requires
        low <= high,
        forall|h: u32| low <= h < high ==> !#[trigger] blocks.contains_key(h),
    ensures
        due_below(blocks, records, pool, low) == due_below(blocks, records, pool, high),
    decreases high,
{
    if low < high {
        lemma_due_gap(blocks, records, pool, low, (high - 1) as nat);
        if high - 1 <= u32::MAX {
            assert(!blocks.contains_key((high - 1) as u32));
        }
    }
}

/// Whether the id is in the list.
fn contains_txid(list: &Vec<Txid>, txid: &Txid) -> (res: bool)
    ensures
        res == txid_views(list@).contains(txid@),
{
    let mut i: usize = 0;
    while i < list.len()
        invariant
            i <= list.len(),
            forall|j: int| 0 <= j < i ==> #[trigger] txid_views(list@)[j] != txid@,
        decreases list.len() - i,
    {
        assert(txid_views(list@)[i as int] == list@[i as int]@);
        if list[i].same(txid) {
            return true;
        }
        i += 1;
    }
    false
}

/// How often `pool` is among the pools.
pub(crate) fn count_listed(pools: &Vec<String>, pool: &String) -> (res: usize)
    ensures
        res == times_listed(string_views(pools@), pool@),
{
    let mut n: usize = 0;
    let mut i: usize = 0;
    let ghost views = string_views(pools@);
    while i < pools.len()
        invariant
            i <= pools.len(),
            n <= i,
            views == string_views(pools@),
            n == times_listed(views.take(i as int), pool@),
        decreases pools.len() - i,
    {
        assert(views.take(i + 1).drop_last() == views.take(i as int));
        assert(views.take(i + 1).last() == pools@[i as int]@);
        if pools[i].eq(pool) {
            n += 1;
        }
        i += 1;
    }
    assert(views.take(i as int) == views);
    n
}

/// How often a transaction is to be finalized for `pool` once `block` is confirmed.
fn count_due(records: &TxRecordStore, block: &NewBlockInfo, pool: &String, txid: &Txid) -> (res:
    usize)
    ensures
        res == times_due(confirmed_records(records@, block@.txids), pool@, txid@),
{
    if contains_txid(&block.confirmed_txids, txid) {
        match records.get(txid, false) {
            Some(record) => {
                return count_listed(&record.pools, pool);
            },
            None => {},
        }
    }
    match records.get(txid, true) {
        Some(record) => count_listed(&record.pools, pool),
        None => 0,
    }
}

/// Adds to `due` the transactions among `txids` that are to be finalized for `pool` once `block`
/// is confirmed.
fn add_due(
    due: &mut Vec<Txid>,
    records: &TxRecordStore,
    block: &NewBlockInfo,
    pool: &String,
    txids: &Vec<Txid>,
)
    ensures
        txid_views(final(due)@) == txid_views(old(due)@) + due_in_block(
            confirmed_records(records@, block@.txids),
            pool@,
            txid_views(txids@),
        ),
{
    let ghost confirmed = confirmed_records(records@, block@.txids);
    let ghost views = txid_views(txids@);
    let ghost before = txid_views(due@);
    let mut i: usize = 0;
    assert(views.take(0).len() == 0);
    assert(before + due_in_block(confirmed, pool@, views.take(0)) =~= before);
    while i < txids.len()
        invariant
            i <= txids.len(),
            views == txid_views(txids@),
            confirmed == confirmed_records(records@, block@.txids),
            txid_views(due@) == before + due_in_block(confirmed, pool@, views.take(i as int)),
        decreases txids.len() - i,
    {
        let n: usize = count_due(records, block, pool, &txids[i]);
        let ghost so_far = txid_views(due@);
        let mut k: usize = 0;
        assert(so_far + repeated(txids@[i as int]@, 0) =~= so_far);
        while k < n
            invariant
                k <= n,
                i < txids.len(),
                txid_views(due@) == so_far + repeated(txids@[i as int]@, k as nat),
            decreases n - k,
        {
            let ghost t = txids@[i as int]@;
            let ghost shorter = txid_views(due@);
            due.push(txids[i]);
            assert(txid_views(due@) =~= shorter.push(t));
            assert((so_far + repeated(t, k as nat)).push(t) =~= so_far + repeated(
                t,
                (k + 1) as nat,
            ));
            k += 1;
        }
        proof {
            assert(views.take(i + 1).drop_last() == views.take(i as int));
            assert(views.take(i + 1).last() == txids@[i as int]@);
            let added = repeated(txids@[i as int]@, n as nat);
            assert(before + due_in_block(confirmed, pool@, views.take(i as int)) + added =~= before
                + (due_in_block(confirmed, pool@, views.take(i as int)) + added));
        }
        i += 1;
    }
    assert(views.take(i as int) == views);
}

/// The transactions that are to be finalized for `pool` once `block` is confirmed, in the listed
/// blocks up to `final_height`.
fn collect_due(
    entries: &Vec<(u32, NewBlockInfo)>,
    records: &TxRecordStore,
    block: &NewBlockInfo,
    pool: &String,
    final_height: u32,
    Ghost(known): Ghost<Map<u32, BlockView>>,
) -> (res: Vec<Txid>)
    requires
        lists_blocks(block_views(entries@), known),
    ensures
        txid_views(res@) == due_below(
            known,
            confirmed_records(records@, block@.txids),
            pool@,
            (final_height + 1) as nat,
        ),
{
    let ghost confirmed = confirmed_records(records@, block@.txids);
    let ghost list = block_views(entries@);
    let mut due: Vec<Txid> = Vec::new();
    let mut i: usize = 0;
    let ghost mut end: nat = 0;
    assert(txid_views(due@) =~= Seq::empty());
    while i < entries.len() && entries[i].0 <= final_height
        invariant
            i <= entries.len(),
            list == block_views(entries@),
            lists_blocks(list, known),
            confirmed == confirmed_records(records@, block@.txids),
            end == (if i == 0 {
                0
            } else {
                list[i - 1].0 + 1
            }),
            end <= final_height + 1,
            txid_views(due@) == due_below(known, confirmed, pool@, end),
        decreases entries.len() - i,
    {
        let ghost height = list[i as int].0;
        proof {
            assert forall|h: u32| end <= h < height implies !#[trigger] known.contains_key(h) by {
                if known.contains_key(h) {
                    let j = choose|j: int| 0 <= j < list.len() && (#[trigger] list[j]).0 == h;
                    if j < i {
                        if j < i - 1 {
                            assert(list[j].0 < list[i - 1].0);
                        }
                    } else if j > i {
                        assert(list[i as int].0 < list[j].0);
                    }
                }
            }
            if i > 0 {
                assert(list[i - 1].0 < list[i as int].0);
            }
            lemma_due_gap(known, confirmed, pool@, end, height as nat);
            assert(known.contains_key(list[i as int].0));
        }
        add_due(&mut due, records, block, pool, &entries[i].1.confirmed_txids);
        proof {
            end = (height + 1) as nat;
        }
        i += 1;
    }
    proof {
        let high = (final_height + 1) as nat;
        assert forall|h: u32| end <= h < high implies !#[trigger] known.contains_key(h) by {
            if known.contains_key(h) {
                let j = choose|j: int| 0 <= j < list.len() && (#[trigger] list[j]).0 == h;
                if j < i {
                    if j < i - 1 {
                        assert(list[j].0 < list[i - 1].0);
                    }
                } else if j > i {
                    assert(list[i as int].0 < list[j].0);
                }
            }
        }
        lemma_due_gap(known, confirmed, pool@, end, high);
    }
    due
}

impl ExchangeState {
    /// Finalizes one transaction after another; leaves all as it was if one of them is not in the
    /// chain of pool states.
    pub fn finalize_all(&mut self, txids: &Vec<Txid>) -> (res: Result<(), ExchangeError>)
        ensures
            match finalized_all(old(self)@.states, txid_views(txids@)) {
                Ok(states) => res is Ok && final(self)@ == (ExchangeView { states, ..old(self)@ }),
                Err(e) => outcome(res) == Err::<(), ErrorView>(e) && final(self)@ == old(self)@,
            },
    {
        let ghost views = txid_views(txids@);
        let backup = copy_states(&self.states);
        let mut i: usize = 0;
        assert(views.skip(0) == views);
        while i < txids.len()
            invariant
                i <= txids.len(),
                views == txid_views(txids@),
                state_views(backup@) == old(self)@.states,
                finalized_all(self@.states, views.skip(i as int)) == finalized_all(
                    old(self)@.states,
                    views,
                ),
                self@ == (ExchangeView { states: self@.states, ..old(self)@ }),
            decreases txids.len() - i,
        {
            assert(views.skip(i as int)[0] == txids@[i as int]@);
            assert(views.skip(i as int).drop_first() == views.skip(i + 1));
            match self.finalize(txids[i]) {
                Ok(()) => {},
                Err(e) => {
                    self.states = backup;
                    return Err(e);
                },
            }
            i += 1;
        }
        Ok(())
    }
}

/// One transaction more in a block is one record more that may be confirmed.
proof fn lemma_confirm_one(
    records: Map<(Seq<u8>, bool), Seq<Seq<char>>>,
    txids: Seq<Seq<u8>>,
    i: int,
)
    requires
        0 <= i < txids.len(),
    ensures
        records.contains_key((txids[i], false)) ==> confirmed_records(records, txids.take(i + 1))
            == confirmed_records(records, txids.take(i)).insert(
            (txids[i], true),
            records[(txids[i], false)],
        ),
        !records.contains_key((txids[i], false)) ==> confirmed_records(records, txids.take(i + 1))
            == confirmed_records(records, txids.take(i)),
{
    let longer = txids.take(i + 1);
    let shorter = txids.take(i);
    assert forall|t: Seq<u8>| longer.contains(t) == (shorter.contains(t) || t == txids[i]) by {
        if longer.contains(t) {
            let j = choose|j: int| 0 <= j < longer.len() && longer[j] == t;
            if j < i {
                assert(shorter[j] == t);
            }
        }
        if shorter.contains(t) {
            let j = choose|j: int| 0 <= j < shorter.len() && shorter[j] == t;
            assert(longer[j] == t);
        }
        assert(longer[i] == txids[i]);
    }
    if records.contains_key((txids[i], false)) {
        assert(confirmed_records(records, longer) =~= confirmed_records(records, shorter).insert(
            (txids[i], true),
            records[(txids[i], false)],
        ));
    } else {
        assert(confirmed_records(records, longer) =~= confirmed_records(records, shorter));
    }
}

/// Gives each transaction that has a record from its execution the same record from its
/// confirmation.
pub fn confirm_all(records: &mut TxRecordStore, txids: &Vec<Txid>)
    ensures
        final(records)@ == confirmed_records(old(records)@, txid_views(txids@)),
{
    let ghost views = txid_views(txids@);
    let mut i: usize = 0;
    assert(confirmed_records(records@, views.take(0)) =~= records@);
    while i < txids.len()
        invariant
            i <= txids.len(),
            views == txid_views(txids@),
            records@ == confirmed_records(old(records)@, views.take(i as int)),
        decreases txids.len() - i,
    {
        proof {
            lemma_confirm_one(old(records)@, views, i as int);
        }
        match records.get(&txids[i], false) {
            Some(record) => {
                records.insert(&txids[i], true, record);
            },
            None => {},
        }
        i += 1;
    }
    assert(views.take(i as int) == views);
}

/// Takes the blocks up to `final_height` out of the store.
fn prune(blocks: &mut BlockStore, entries: &Vec<(u32, NewBlockInfo)>, final_height: u32)
    requires
        lists_blocks(block_views(entries@), old(blocks)@),
    ensures
        final(blocks)@ == blocks_above(old(blocks)@, final_height as int),
{
    let ghost known = blocks@;
    let ghost list = block_views(entries@);
    let mut i: usize = 0;
    while i < entries.len() && entries[i].0 <= final_height
        invariant
            i <= entries.len(),
            list == block_views(entries@),
            known == old(blocks)@,
            lists_blocks(list, known),
            forall|j: int| 0 <= j < i ==> (#[trigger] list[j]).0 <= final_height,
            forall|h: u32| #[trigger]
                blocks@.contains_key(h) <==> known.contains_key(h) && (forall|j: int|
                    0 <= j < i ==> (#[trigger] list[j]).0 != h),
            forall|h: u32| #[trigger] blocks@.contains_key(h) ==> blocks@[h] == known[h],
        decreases entries.len() - i,
    {
        let ghost before = blocks@;
        blocks.remove(entries[i].0);
        proof {
            assert(list[i as int].0 == entries@[i as int].0);
            assert forall|h: u32| #[trigger]
                blocks@.contains_key(h) <==> known.contains_key(h) && (forall|j: int|
                    0 <= j < i + 1 ==> (#[trigger] list[j]).0 != h) by {
                assert(blocks@.contains_key(h) <==> before.contains_key(h) && h
                    != list[i as int].0);
            }
        }
        i += 1;
    }
    proof {
        assert forall|h: u32| #[trigger]
            blocks@.contains_key(h) <==> blocks_above(known, final_height as int).contains_key(
            h,
        ) by {
            if known.contains_key(h) {
                let j = choose|j: int| 0 <= j < list.len() && (#[trigger] list[j]).0 == h;
                if j < i {
                    assert(h <= final_height);
                } else {
                    if j > i {
                        assert(list[i as int].0 < list[j].0);
                    }
                    assert(h > final_height);
                    assert forall|k: int| 0 <= k < i implies (#[trigger] list[k]).0 != h by {
                        assert(list[k].0 < list[j].0);
                    }
                }
            }
        }
        assert(blocks@ =~= blocks_above(known, final_height as int));
    }
}

/// Whether taking a block in has made `after` of the exchange, `kept` of the stored blocks and
/// `confirmed` of the records, with the outcome `res`.
pub open spec fn is_taken_in(
    state: ExchangeView,
    blocks: Map<u32, BlockView>,
    records: Map<(Seq<u8>, bool), Seq<Seq<char>>>,
    block: BlockView,
    depth: u32,
    after: ExchangeView,
    kept: Map<u32, BlockView>,
    confirmed: Map<(Seq<u8>, bool), Seq<Seq<char>>>,
    res: Result<(), ErrorView>,
) -> bool {
    match block_taken_in(state, blocks, records, block, depth) {
        Ok((states, above, noted)) => {
            &&& res is Ok
            &&& after == (ExchangeView { states, ..state })
            &&& kept == above
            &&& confirmed == noted
        },
        Err(e) => {
            &&& res is Err && res->Err_0 == e
            &&& after == state
            &&& kept == blocks
            &&& confirmed == records
        },
    }
}

/// Takes in a block: stores it, confirms its transactions, finalizes those in blocks that are
/// `max_depth` deep, and forgets these blocks. Changes nothing, and gives the error, if a
/// transaction that is to be finalized is not in the chain of pool states.
pub fn try_new_block(
    state: &mut ExchangeState,
    blocks: &mut BlockStore,
    records: &mut TxRecordStore,
    block: &NewBlockInfo,
    max_depth: u32,
) -> (res: Result<(), ExchangeError>)
    requires
        block_fits(block@),
        max_depth <= block.block_height,
        block.block_height - max_depth < u32::MAX,
    ensures
        is_taken_in(
            old(state)@,
            old(blocks)@,
            old(records)@,
            block@,
            max_depth,
            final(state)@,
            final(blocks)@,
            final(records)@,
            outcome(res),
        ),
{
    let final_height: u32 = block.block_height - max_depth + 1;
    let previous = blocks.insert(block.block_height, block);
    let ghost known = blocks@;
    let entries = blocks.entries();
    let due = collect_due(&entries, records, block, &state.address, final_height, Ghost(known));
    match state.finalize_all(&due) {
        Ok(()) => {},
        Err(e) => {
            match previous {
                Some(previous) => {
                    let _ = blocks.insert(block.block_height, &previous);
                },
                None => {
                    blocks.remove(block.block_height);
                },
            }
            assert(blocks@ =~= old(blocks)@);
            return Err(e);
        },
    }
    confirm_all(records, &block.confirmed_txids);
    prune(blocks, &entries, final_height);
    Ok(())
}

/// Takes in a block: stores it, confirms its transactions, finalizes those in blocks that are
/// `max_depth` deep, and forgets these blocks.
pub fn new_block(
    state: &mut ExchangeState,
    blocks: &mut BlockStore,
    records: &mut TxRecordStore,
    block: &NewBlockInfo,
    max_depth: u32,
)
    requires
        block_fits(block@),
        max_depth <= block.block_height,
        block.block_height - max_depth < u32::MAX,
        block_taken_in(old(state)@, old(blocks)@, old(records)@, block@, max_depth) is Ok,
    ensures
        is_taken_in(
            old(state)@,
            old(blocks)@,
            old(records)@,
            block@,
            max_depth,
            final(state)@,
            final(blocks)@,
            final(records)@,
            Ok(()),
        ),
{
    let _ = try_new_block(state, blocks, records, block, max_depth);
}

/// Forgets all blocks.
pub fn reset_blocks(blocks: &mut BlockStore)
    ensures
        final(blocks)@ == Map::<u32, BlockView>::empty(),
{
    blocks.clear();
}

} // verus!
