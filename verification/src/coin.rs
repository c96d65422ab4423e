//! Coins, coin balances, and the coins that an intention moves in and out of a pool.

use vstd::prelude::*;
use ree_types::CoinBalances;
use crate::text::{decimal, list_debug, string_debug};

verus! {

/// The identifier of a rune; BTC has an identifier of its own.
#[derive(Clone, Copy, Debug, PartialEq, Eq, Structural)]
pub struct CoinId {
    pub block: u64,
    pub tx: u32,
}

/// The block in which the rune of the pool was etched.
pub const POOL_RUNE_BLOCK: u64 = 840000;

/// The place of the etching transaction in that block.
pub const POOL_RUNE_TX: u32 = 846;

/// The rune that the pool hands out as cookies.
pub open spec fn pool_rune() -> CoinId {
    CoinId { block: POOL_RUNE_BLOCK, tx: POOL_RUNE_TX }
}

/// How a coin identifier is written: block and place, separated by a colon.
pub open spec fn coin_id_text(id: CoinId) -> Seq<char> {
    decimal(id.block as nat) + seq![':'] + decimal(id.tx as nat)
}

/// Calls the `Display` formatting of `ree_types::CoinId`. It claims that the text is the block
/// and the place in decimal, separated by a colon.
#[verifier::external_body]
fn ree_coin_id_text(block: u64, tx: u32) -> (res: String)
    ensures
        res@ == coin_id_text(CoinId { block, tx }),
{
    ree_types::CoinId::rune(block, tx).to_string()
}

impl CoinId {
    /// The identifier of the rune that was etched at `tx` in `block`.
    pub fn rune(block: u64, tx: u32) -> (res: Self)
        ensures
            res == (CoinId { block, tx }),
    {
        CoinId { block, tx }
    }

    /// The identifier of BTC.
    pub fn btc() -> (res: Self)
        ensures
            res == (CoinId { block: 0, tx: 0 }),
    {
        CoinId { block: 0, tx: 0 }
    }

    /// The identifier of the rune that the pool hands out.
    pub fn cookie() -> (res: Self)
        ensures
            res == pool_rune(),
    {
        CoinId::rune(POOL_RUNE_BLOCK, POOL_RUNE_TX)
    }

    /// The written form of the identifier.
    pub fn text(&self) -> (res: String)
        ensures
            res@ == coin_id_text(*self),
    {
        ree_coin_id_text(self.block, self.tx)
    }
}

/// An amount of one coin.
#[derive(Clone, Copy, Debug, PartialEq, Eq, Structural)]
pub struct CoinBalance {
    pub id: CoinId,
    pub value: u128,
}

/// The list of coin balances of the `ree-types` crate.
#[verifier::external_type_specification]
#[verifier::external_body]
pub struct ExCoinBalances(ree_types::CoinBalances);

/// The balances that a list holds, in the order in which they were added.
pub uninterp spec fn coin_list(coins: CoinBalances) -> Seq<CoinBalance>;

/// Calls `CoinBalances::new` of `ree-types`. It claims that the list is empty.
pub assume_specification[ CoinBalances::new ]() -> (res: CoinBalances)
    ensures
        coin_list(res) == Seq::<CoinBalance>::empty(),
;

/// Calls `CoinBalances::clone` of `ree-types`. It claims that the copy holds the same balances in
/// the same order.
#[verifier::external_body]
pub(crate) fn copy_coins(coins: &CoinBalances) -> (res: CoinBalances)
    ensures
        coin_list(res) == coin_list(*coins),
{
    coins.clone()
}

/// Calls `CoinBalances::iter` of `ree-types` and hands the balances out as a list. It claims that
/// they are those of the list, in its order.
#[verifier::external_body]
pub(crate) fn coins_to_vec(coins: &CoinBalances) -> (res: Vec<CoinBalance>)
    ensures
        res@ == coin_list(*coins),
{
    coins
        .iter()
        .map(|c| CoinBalance { id: CoinId { block: c.id.block, tx: c.id.tx }, value: c.value })
        .collect()
}

/// The value of the first balance of `id`, if there is one.
pub open spec fn first_value(coins: Seq<CoinBalance>, id: CoinId) -> Option<u128>
    decreases coins.len(),
{
    if coins.len() == 0 {
        None
    } else if coins[0].id == id {
        Some(coins[0].value)
    } else {
        first_value(coins.drop_first(), id)
    }
}

/// The value of the first balance of `id` in the list, if there is one.
pub fn find_value(coins: &CoinBalances, id: CoinId) -> (res: Option<u128>)
    ensures
        res == first_value(coin_list(*coins), id),
{
    let entries = coins_to_vec(coins);
    let mut i: usize = 0;
    assert(entries@.skip(0) == entries@);
    while i < entries.len()
        invariant
            i <= entries.len(),
            entries@ == coin_list(*coins),
            first_value(entries@.skip(i as int), id) == first_value(entries@, id),
        decreases entries.len() - i,
    {
        if entries[i].id == id {
            return Some(entries[i].value);
        }
        assert(entries@.skip(i as int).drop_first() == entries@.skip(i + 1));
        i += 1;
    }
    None
}

/// A coin that the transaction takes from `from` into the pool.
#[derive(Debug, PartialEq, Eq)]
pub struct InputCoin {
    pub from: String,
    pub coin: CoinBalance,
}

/// The content of an [`InputCoin`].
pub struct InputCoinView {
    pub from: Seq<char>,
    pub coin: CoinBalance,
}

impl View for InputCoin {
    type V = InputCoinView;

    open spec fn view(&self) -> InputCoinView {
        InputCoinView { from: self.from@, coin: self.coin }
    }
}

/// A coin that the transaction pays out of the pool to `to`.
#[derive(Debug, PartialEq, Eq)]
pub struct OutputCoin {
    pub to: String,
    pub coin: CoinBalance,
}

/// The content of an [`OutputCoin`].
pub struct OutputCoinView {
    pub to: Seq<char>,
    pub coin: CoinBalance,
}

impl View for OutputCoin {
    type V = OutputCoinView;

    open spec fn view(&self) -> OutputCoinView {
        OutputCoinView { to: self.to@, coin: self.coin }
    }
}

/// The contents of a list of input coins.
pub open spec fn input_views(coins: Seq<InputCoin>) -> Seq<InputCoinView> {
    coins.map_values(|c: InputCoin| c@)
}

/// The contents of a list of output coins.
pub open spec fn output_views(coins: Seq<OutputCoin>) -> Seq<OutputCoinView> {
    coins.map_values(|c: OutputCoin| c@)
}

/// The `Debug` form of an amount.
pub open spec fn coin_debug(coin: CoinBalance) -> Seq<char> {
    "CoinBalance { id: CoinId { block: "@ + decimal(coin.id.block as nat) + ", tx: "@ + decimal(
        coin.id.tx as nat,
    ) + " }, value: "@ + decimal(coin.value as nat) + " }"@
}

/// The `Debug` form of a list of balances.
pub open spec fn coins_debug(coins: Seq<CoinBalance>) -> Seq<char> {
    "CoinBalances("@ + list_debug(coins.map_values(|c: CoinBalance| coin_debug(c))) + ")"@
}

/// The `Debug` form of a list of input coins.
pub open spec fn input_coins_debug(coins: Seq<InputCoinView>) -> Seq<char> {
    list_debug(
        coins.map_values(
            |c: InputCoinView|
                "InputCoin { from: "@ + string_debug(c.from) + ", coin: "@ + coin_debug(c.coin)
                    + " }"@,
        ),
    )
}

/// Calls the `Debug` formatting of a list of `ree_types::InputCoin`. It claims that the text is the
/// one that `derive(Debug)` gives: names and fields, the owner as std's `Debug` form of a string.
#[verifier::external_body]
pub(crate) fn input_coins_text(coins: &Vec<InputCoin>) -> (res: String)
    ensures
        res@ == input_coins_debug(input_views(coins@)),
{
    let list: Vec<ree_types::InputCoin> = coins
        .iter()
        .map(|c| ree_types::InputCoin {
            from: c.from.clone(),
            coin: ree_types::CoinBalance {
                id: ree_types::CoinId::rune(c.coin.id.block, c.coin.id.tx),
                value: c.coin.value,
            },
        })
        .collect();
    format!("{:?}", list)
}

/// The `Debug` form of a list of output coins.
pub open spec fn output_coins_debug(coins: Seq<OutputCoinView>) -> Seq<char> {
    list_debug(
        coins.map_values(
            |c: OutputCoinView|
                "OutputCoin { to: "@ + string_debug(c.to) + ", coin: "@ + coin_debug(c.coin)
                    + " }"@,
        ),
    )
}

/// Calls the `Debug` formatting of a list of `ree_types::OutputCoin`. It claims that the text is
/// the one that `derive(Debug)` gives: names and fields, the receiver as std's `Debug` form of a
/// string.
#[verifier::external_body]
pub(crate) fn output_coins_text(coins: &Vec<OutputCoin>) -> (res: String)
    ensures
        res@ == output_coins_debug(output_views(coins@)),
{
    let list: Vec<ree_types::OutputCoin> = coins
        .iter()
        .map(|c| ree_types::OutputCoin {
            to: c.to.clone(),
            coin: ree_types::CoinBalance {
                id: ree_types::CoinId::rune(c.coin.id.block, c.coin.id.tx),
                value: c.coin.value,
            },
        })
        .collect();
    format!("{:?}", list)
}

} // verus!
