//! What the exchange keeps in stable memory: its state, the recent blocks, and which pools each
//! transaction touched.
//!
//! Each of the three has a region of its own. What the trusted items below claim of a region holds
//! as long as it was written by this module, no other handle on it is in use, and stable memory
//! does not run out.

use vstd::prelude::*;
use vstd::utf8::encode_utf8;
use ic_stable_structures::memory_manager::{MemoryId, MemoryManager, VirtualMemory};
use ic_stable_structures::{BTreeMap as StableBTreeMap, Cell, DefaultMemoryImpl};
use crate::text::{byte_len, string_views};
use crate::utxo::{txid_views, Txid};
use crate::Address;

verus! {

/// A block that the exchange was told of.
#[derive(Debug, PartialEq, Eq)]
pub struct NewBlockInfo {
    pub block_height: u32,
    pub block_hash: String,
    pub block_timestamp: u64,
    pub confirmed_txids: Vec<Txid>,
}

/// The content of a [`NewBlockInfo`].
pub struct BlockView {
    pub height: u32,
    pub hash: Seq<char>,
    pub timestamp: u64,
    pub txids: Seq<Seq<u8>>,
}

impl View for NewBlockInfo {
    type V = BlockView;

    open spec fn view(&self) -> BlockView {
        BlockView {
            height: self.block_height,
            hash: self.block_hash@,
            timestamp: self.block_timestamp,
            txids: txid_views(self.confirmed_txids@),
        }
    }
}

/// How many bytes a block takes in stable memory: 12 for its height and time, 8 each for the
/// number of ids and the length of the hash, the hash, and for each id its 64 hex digits and their
/// number.
pub open spec fn block_size(block: BlockView) -> nat {
    28 + encode_utf8(block.hash).len() + 72 * block.txids.len()
}

/// Whether a block can be stored: the length of what is stored has 32 bits.
pub open spec fn block_fits(block: BlockView) -> bool {
    block_size(block) <= u32::MAX
}

impl NewBlockInfo {
    /// Whether the block can be stored.
    pub fn fits(&self) -> (res: bool)
        ensures
            res == block_fits(self@),
    {
        28 + byte_len(&self.block_hash) as u128 + 72 * self.confirmed_txids.len() as u128
            <= u32::MAX as u128
    }
}

/// The pools that a transaction touched.
#[derive(Debug, PartialEq, Eq)]
pub struct TxRecord {
    pub pools: Vec<Address>,
}

impl View for TxRecord {
    type V = Seq<Seq<char>>;

    open spec fn view(&self) -> Seq<Seq<char>> {
        string_views(self.pools@)
    }
}

/// How many bytes a record takes in stable memory: 8 for the number of pools, and for each pool
/// its address and 8 for the length of that.
pub open spec fn record_size(pools: Seq<Seq<char>>) -> nat
    decreases pools.len(),
{
    if pools.len() == 0 {
        8
    } else {
        record_size(pools.drop_last()) + 8 + encode_utf8(pools.last()).len()
    }
}

/// Whether a record can be stored: the length of what is stored has 32 bits.
pub open spec fn record_fits(pools: Seq<Seq<char>>) -> bool {
    record_size(pools) <= u32::MAX
}

/// A longer list takes no less room.
proof fn lemma_record_size_grows(pools: Seq<Seq<char>>, i: int)
    requires
        0 <= i <= pools.len(),
    ensures
        record_size(pools.take(i)) <= record_size(pools),
    decreases pools.len(),
{
    if i < pools.len() {
        lemma_record_size_grows(pools.drop_last(), i);
        assert(pools.drop_last().take(i) =~= pools.take(i));
    } else {
        assert(pools.take(i) =~= pools);
    }
}

impl TxRecord {
    /// Whether the record can be stored.
    pub fn fits(&self) -> (res: bool)
        ensures
            res == record_fits(self@),
    {
        let mut size: u128 = 8;
        let mut i: usize = 0;
        assert(self@.take(0) =~= Seq::empty());
        while i < self.pools.len()
            invariant
                i <= self.pools.len(),
                size == record_size(self@.take(i as int)),
                size <= u32::MAX,
            decreases self.pools.len() - i,
        {
            size = size + 8 + byte_len(&self.pools[i]) as u128;
            proof {
                assert(self@.take(i + 1).drop_last() =~= self@.take(i as int));
                assert(self@.take(i + 1).last() == self.pools@[i as int]@);
                lemma_record_size_grows(self@, i + 1);
            }
            if size > u32::MAX as u128 {
                return false;
            }
            i += 1;
        }
        assert(self@.take(i as int) =~= self@);
        true
    }
}

/// The blocks in stable memory, by height.
#[verifier::external_body]
pub struct BlockStore {
    inner: StableBTreeMap<u32, ree_types::NewBlockInfo, VirtualMemory<DefaultMemoryImpl>>,
}

/// The blocks that a store holds, by height.
pub uninterp spec fn stored_blocks(store: BlockStore) -> Map<u32, BlockView>;

impl View for BlockStore {
    type V = Map<u32, BlockView>;

    open spec fn view(&self) -> Map<u32, BlockView> {
        stored_blocks(*self)
    }
}

/// The contents of a list of blocks with their heights.
pub open spec fn block_views(list: Seq<(u32, NewBlockInfo)>) -> Seq<(u32, BlockView)> {
    list.map_values(|e: (u32, NewBlockInfo)| (e.0, e.1@))
}

/// Whether a list holds the entries of a map of blocks, in ascending order of height.
pub open spec fn lists_blocks(list: Seq<(u32, BlockView)>, blocks: Map<u32, BlockView>) -> bool {
    &&& forall|i: int, j: int| 0 <= i < j < list.len() ==> (#[trigger] list[i]).0 < (#[trigger]
        list[j]).0
    &&& forall|i: int| 0 <= i < list.len() ==> blocks.contains_key((#[trigger] list[i]).0)
        && blocks[list[i].0] == list[i].1
    &&& forall|h: u32| #[trigger]
        blocks.contains_key(h) ==> exists|i: int| 0 <= i < list.len() && (#[trigger] list[i]).0 == h
}

impl BlockStore {
    /// Calls `BTreeMap::insert` of `ic-stable-structures`. It claims that the block is then at the
    /// height, that nothing else changes, and that the block that was there is given back. The map
    /// has a length field of 32 bits for what it stores, so that what it gives back fits; it does
    /// not notice what does not fit.
    #[verifier::external_body]
    fn stable_insert(&mut self, height: u32, block: &NewBlockInfo) -> (res: Option<NewBlockInfo>)
        requires
            block_fits(block@),
        ensures
            res matches Some(b) ==> block_fits(b@),
            stored_blocks(*final(self)) == stored_blocks(*old(self)).insert(height, block@),
            match res {
                Some(b) => stored_blocks(*old(self)).contains_key(height) && b@ == stored_blocks(
                    *old(self),
                )[height],
                None => !stored_blocks(*old(self)).contains_key(height),
            },
    {
        let txids = block.confirmed_txids.iter();
        let block = ree_types::NewBlockInfo {
            block_height: block.block_height,
            block_hash: block.block_hash.clone(),
            block_timestamp: block.block_timestamp,
            confirmed_txids: txids.map(|t| ree_types::Txid::from_bytes(&t.0).unwrap()).collect(),
        };
        self.inner.insert(height, block).map(|b| NewBlockInfo {
            block_height: b.block_height,
            block_hash: b.block_hash,
            block_timestamp: b.block_timestamp,
            confirmed_txids: b.confirmed_txids.iter().map(|t| Txid(*t.as_ref())).collect(),
        })
    }

    /// Calls `BTreeMap::iter` of `ic-stable-structures`. It claims that the entries come out each
    /// once, in ascending order of height.
    #[verifier::external_body]
    fn stable_iter(&self) -> (res: Vec<(u32, NewBlockInfo)>)
        ensures
            lists_blocks(block_views(res@), stored_blocks(*self)),
    {
        self.inner
            .iter()
            .map(|e| e.into_pair())
            .map(|(height, b)| (height, NewBlockInfo {
                block_height: b.block_height,
                block_hash: b.block_hash,
                block_timestamp: b.block_timestamp,
                confirmed_txids: b.confirmed_txids.iter().map(|t| Txid(*t.as_ref())).collect(),
            }))
            .collect()
    }

    /// Calls `BTreeMap::remove` of `ic-stable-structures`. It claims that the height is then not in
    /// the map, and that nothing else changes.
    #[verifier::external_body]
    fn stable_remove(&mut self, height: u32)
        ensures
            stored_blocks(*final(self)) == stored_blocks(*old(self)).remove(height),
    {
        self.inner.remove(&height);
    }

    /// Calls `BTreeMap::clear_new` of `ic-stable-structures`. It claims that the map is then empty.
    #[verifier::external_body]
    fn stable_clear(&mut self)
        ensures
            forall|h: u32| !#[trigger] stored_blocks(*final(self)).contains_key(h),
    {
        self.inner.clear_new();
    }
}

impl BlockStore {
    /// Puts the block at the height; gives back the block that was there.
    pub fn insert(&mut self, height: u32, block: &NewBlockInfo) -> (res: Option<NewBlockInfo>)
        requires
            block_fits(block@),
        ensures
            res matches Some(b) ==> block_fits(b@),
            final(self)@ == old(self)@.insert(height, block@),
            match res {
                Some(b) => old(self)@.contains_key(height) && b@ == old(self)@[height],
                None => !old(self)@.contains_key(height),
            },
    {
        self.stable_insert(height, block)
    }

    /// The blocks with their heights, in ascending order of height.
    pub fn entries(&self) -> (res: Vec<(u32, NewBlockInfo)>)
        ensures
            lists_blocks(block_views(res@), self@),
    {
        self.stable_iter()
    }

    /// Takes the block at the height out.
    pub fn remove(&mut self, height: u32)
        ensures
            final(self)@ == old(self)@.remove(height),
    {
        self.stable_remove(height)
    }

    /// Takes all blocks out.
    pub fn clear(&mut self)
        ensures
            final(self)@ == Map::<u32, BlockView>::empty(),
    {
        self.stable_clear();
        assert(self@ =~= Map::<u32, BlockView>::empty());
    }
}

/// The records in stable memory. A transaction has one record from when it was executed, and one
/// more from when it was confirmed.
#[verifier::external_body]
pub struct TxRecordStore {
    inner: StableBTreeMap<
        (ree_types::Txid, bool),
        ree_types::TxRecord,
        VirtualMemory<DefaultMemoryImpl>,
    >,
}

/// The records that a store holds, by transaction id and whether the record is that of the
/// confirmation.
pub uninterp spec fn stored_records(store: TxRecordStore) -> Map<(Seq<u8>, bool), Seq<Seq<char>>>;

impl View for TxRecordStore {
    type V = Map<(Seq<u8>, bool), Seq<Seq<char>>>;

    open spec fn view(&self) -> Map<(Seq<u8>, bool), Seq<Seq<char>>> {
        stored_records(*self)
    }
}

impl TxRecordStore {
    /// Calls `BTreeMap::get` of `ic-stable-structures`. It claims that the record is the one that
    /// the map holds. The map has a length field of 32 bits for what it stores, so that the record
    /// fits.
    #[verifier::external_body]
    fn stable_get(&self, txid: &Txid, confirmed: bool) -> (res: Option<TxRecord>)
        ensures
            res matches Some(r) ==> record_fits(r@),
            match res {
                Some(r) => stored_records(*self).contains_key((txid@, confirmed)) && r@
                    == stored_records(*self)[(txid@, confirmed)],
                None => !stored_records(*self).contains_key((txid@, confirmed)),
            },
    {
        let txid = ree_types::Txid::from_bytes(&txid.0).unwrap();
        self.inner.get(&(txid, confirmed)).map(|r| TxRecord { pools: r.pools })
    }

    /// Calls `BTreeMap::insert` of `ic-stable-structures`. It claims that the record is then in the
    /// map, and that nothing else changes. The map does not notice what does not fit.
    #[verifier::external_body]
    fn stable_insert(&mut self, txid: &Txid, confirmed: bool, record: TxRecord)
        requires
            record_fits(record@),
        ensures
            stored_records(*final(self)) == stored_records(*old(self)).insert(
                (txid@, confirmed),
                record@,
            ),
    {
        let txid = ree_types::Txid::from_bytes(&txid.0).unwrap();
        self.inner.insert((txid, confirmed), ree_types::TxRecord { pools: record.pools });
    }

    /// Calls `BTreeMap::remove` of `ic-stable-structures`. It claims that the record is then not in
    /// the map, and that nothing else changes.
    #[verifier::external_body]
    fn stable_remove(&mut self, txid: &Txid, confirmed: bool)
        ensures
            stored_records(*final(self)) == stored_records(*old(self)).remove((txid@, confirmed)),
    {
        let txid = ree_types::Txid::from_bytes(&txid.0).unwrap();
        self.inner.remove(&(txid, confirmed));
    }

    /// The record of a transaction, from its execution or from its confirmation.
    pub fn get(&self, txid: &Txid, confirmed: bool) -> (res: Option<TxRecord>)
        ensures
            res matches Some(r) ==> record_fits(r@),
            match res {
                Some(r) => self@.contains_key((txid@, confirmed)) && r@ == self@[(txid@, confirmed)],
                None => !self@.contains_key((txid@, confirmed)),
            },
    {
        self.stable_get(txid, confirmed)
    }

    /// Sets the record of a transaction.
    pub fn insert(&mut self, txid: &Txid, confirmed: bool, record: TxRecord)
        requires
            record_fits(record@),
        ensures
            final(self)@ == old(self)@.insert((txid@, confirmed), record@),
    {
        self.stable_insert(txid, confirmed, record)
    }

    /// Takes the record of a transaction out.
    pub fn remove(&mut self, txid: &Txid, confirmed: bool)
        ensures
            final(self)@ == old(self)@.remove((txid@, confirmed)),
    {
        self.stable_remove(txid, confirmed)
    }
}

/// The state of the exchange in stable memory, as bytes.
#[verifier::external_body]
pub struct StateCell {
    inner: Cell<Option<Vec<u8>>, VirtualMemory<DefaultMemoryImpl>>,
}

/// The bytes that a cell holds; `None` before the first were set.
pub uninterp spec fn stored_state(cell: StateCell) -> Option<Seq<u8>>;

impl View for StateCell {
    type V = Option<Seq<u8>>;

    open spec fn view(&self) -> Option<Seq<u8>> {
        stored_state(*self)
    }
}

impl StateCell {
    /// Calls `Cell::get` of `ic-stable-structures`. It claims that the bytes are those in the cell.
    #[verifier::external_body]
    fn stable_get(&self) -> (res: Option<Vec<u8>>)
        ensures
            match res {
                Some(bytes) => stored_state(*self) == Some(bytes@),
                None => stored_state(*self) is None,
            },
    {
        self.inner.get().clone()
    }

    /// Calls `Cell::set` of `ic-stable-structures`. It claims that the bytes are then those in the
    /// cell. The cell has a length field of 32 bits, and one byte more than it is given; `set`
    /// panics on what does not fit.
    #[verifier::external_body]
    fn stable_set(&mut self, bytes: Vec<u8>)
        requires
            bytes@.len() < u32::MAX,
        ensures
            stored_state(*final(self)) == Some(bytes@),
    {
        self.inner.set(Some(bytes));
    }
}

/// All that the exchange keeps in stable memory.
pub struct StableMemory {
    pub state: StateCell,
    pub blocks: BlockStore,
    pub tx_records: TxRecordStore,
}

/// Whether every block of a map can be stored.
pub open spec fn blocks_fit(blocks: Map<u32, BlockView>) -> bool {
    forall|height: u32| #[trigger] blocks.contains_key(height) ==> block_fits(blocks[height])
}

/// Whether every record of a map can be stored.
pub open spec fn records_fit(records: Map<(Seq<u8>, bool), Seq<Seq<char>>>) -> bool {
    forall|key: (Seq<u8>, bool)| #[trigger]
        records.contains_key(key) ==> record_fits(records[key])
}

/// Whether the bytes of a state, if there are any, can be stored: their length and a mark of one
/// byte share a length field of 32 bits.
pub open spec fn state_fits(state: Option<Seq<u8>>) -> bool {
    state matches Some(bytes) ==> bytes.len() < u32::MAX
}

impl StableMemory {
    /// Whether all that is kept can be stored as it is.
    pub open spec fn well_formed(self) -> bool {
        &&& state_fits(self.state@)
        &&& blocks_fit(self.blocks@)
        &&& records_fit(self.tx_records@)
    }
}

/// Calls `MemoryManager::init` and `MemoryManager::get`, and `Cell::init` and `BTreeMap::init` on
/// the regions 0, 1 and 2, of `ic-stable-structures`. It claims that all that the regions hold has
/// a length that fits the fields of 32 bits from which `Cell` and `BTreeMap` read it. What they
/// hold is left unsaid: that depends on what was written to stable memory before.
#[verifier::external_body]
fn open_regions() -> (res: StableMemory)
    ensures
        res.well_formed(),
{
    let manager = MemoryManager::init(DefaultMemoryImpl::default());
    StableMemory {
        state: StateCell { inner: Cell::init(manager.get(MemoryId::new(0)), None) },
        blocks: BlockStore { inner: StableBTreeMap::init(manager.get(MemoryId::new(1))) },
        tx_records: TxRecordStore { inner: StableBTreeMap::init(manager.get(MemoryId::new(2))) },
    }
}

impl StableMemory {
    /// Opens stable memory, with what was written to it before. A canister opens it once. Whatever
    /// it holds can be stored as it is.
    pub fn open() -> (res: StableMemory)
        ensures
            res.well_formed(),
    {
        open_regions()
    }

    /// The bytes of the state, if any were set.
    pub fn get_state(&self) -> (res: Option<Vec<u8>>)
        ensures
            match res {
                Some(bytes) => self.state@ == Some(bytes@),
                None => self.state@ is None,
            },
    {
        self.state.stable_get()
    }

    /// Sets the bytes of the state.
    pub fn set_state(&mut self, bytes: Vec<u8>)
        requires
            bytes@.len() < u32::MAX,
        ensures
            final(self).state@ == Some(bytes@),
            old(self).well_formed() ==> final(self).well_formed(),
            final(self).blocks == old(self).blocks,
            final(self).tx_records == old(self).tx_records,
    {
        self.state.stable_set(bytes)
    }
}

} // verus!
