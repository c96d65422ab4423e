//! Transaction ids, unspent outputs of the pool, and how an output is named.

use vstd::prelude::*;
use ree_types::CoinBalances;
use crate::coin::{coin_list, coins_debug, copy_coins, CoinBalance};
use crate::text::{decimal, hex_text, list_debug};

verus! {

/// A Bitcoin transaction id: the hash in its internal byte order.
#[derive(Clone, Copy, Debug, PartialEq, Eq)]
pub struct Txid(pub [u8; 32]);

impl View for Txid {
    type V = Seq<u8>;

    open spec fn view(&self) -> Seq<u8> {
        self.0@
    }
}

impl Txid {
    /// Whether two ids are the same.
    pub fn same(&self, other: &Txid) -> (res: bool)
        ensures
            res == (self@ == other@),
    {
        let mut i: usize = 0;
        while i < 32
            invariant
                i <= 32,
                forall|j: int| 0 <= j < i ==> self@[j] == other@[j],
            decreases 32 - i,
        {
            if self.0[i] != other.0[i] {
                assert(self@[i as int] != other@[i as int]);
                return false;
            }
            i += 1;
        }
        assert(self@ =~= other@);
        true
    }
}

/// The views of the ids of a list.
pub open spec fn txid_views(list: Seq<Txid>) -> Seq<Seq<u8>> {
    list.map_values(|t: Txid| t@)
}

/// An unspent output with the runes on it.
#[derive(Debug, PartialEq, Eq)]
pub struct Utxo {
    pub txid: Txid,
    pub vout: u32,
    pub coins: CoinBalances,
    pub sats: u64,
}

/// The content of a [`Utxo`].
pub struct UtxoView {
    pub txid: Seq<u8>,
    pub vout: u32,
    pub coins: Seq<CoinBalance>,
    pub sats: u64,
}

impl View for Utxo {
    type V = UtxoView;

    open spec fn view(&self) -> UtxoView {
        UtxoView {
            txid: self.txid@,
            vout: self.vout,
            coins: coin_list(self.coins),
            sats: self.sats,
        }
    }
}

/// The content of an optional output.
pub open spec fn utxo_opt_view(utxo: Option<Utxo>) -> Option<UtxoView> {
    match utxo {
        Some(u) => Some(u@),
        None => None,
    }
}

impl Clone for Utxo {
    fn clone(&self) -> (res: Self)
        ensures
            res@ == self@,
    {
        Utxo {
            txid: self.txid,
            vout: self.vout,
            coins: copy_coins(&self.coins),
            sats: self.sats,
        }
    }
}

/// How an output is named: the id in hex, in the reverse of its internal byte order, and the
/// index of the output in decimal, separated by a colon.
pub open spec fn outpoint_text(txid: Seq<u8>, vout: u32) -> Seq<char> {
    hex_text(txid.reverse()) + seq![':'] + decimal(vout as nat)
}

/// Calls `Utxo::outpoint` of `ree-types`. It claims that the text is the id in hex, last byte
/// first, and the index in decimal, separated by a colon.
#[verifier::external_body]
fn ree_outpoint(txid: &Txid, vout: u32) -> (res: String)
    ensures
        res@ == outpoint_text(txid@, vout),
{
    let utxo = ree_types::Utxo {
        txid: ree_types::Txid::from_bytes(&txid.0).unwrap(),
        vout,
        coins: CoinBalances::new(),
        sats: 0,
    };
    utxo.outpoint()
}

/// What `ree_types::Utxo::try_from` reads from the name of an output: the id and the index, or
/// its error message.
pub uninterp spec fn outpoint_reading(outpoint: Seq<char>) -> Result<(Seq<u8>, u32), Seq<char>>;

/// Calls `Utxo::try_from` of `ree-types`. It claims that the id and the index, or the error
/// message, are a function of the text; that the coins and the sats are those that were given;
/// and that the name of an output is read back as that output.
#[verifier::external_body]
fn ree_utxo(outpoint: &String, coins: CoinBalances, sats: u64) -> (res: Result<Utxo, String>)
    ensures
        match res {
            Ok(u) => {
                &&& outpoint_reading(outpoint@) == Ok::<(Seq<u8>, u32), Seq<char>>((u.txid@, u.vout))
                &&& coin_list(u.coins) == coin_list(coins)
                &&& u.sats == sats
            },
            Err(e) => outpoint_reading(outpoint@) == Err::<(Seq<u8>, u32), Seq<char>>(e@),
        },
        forall|txid: Seq<u8>, vout: u32|
            txid.len() == 32 && outpoint@ == #[trigger] outpoint_text(txid, vout) ==> res is Ok
                && res->Ok_0.txid@ == txid && res->Ok_0.vout == vout,
{
    let utxo = ree_types::Utxo::try_from(outpoint, coins, sats)?;
    let txid: &[u8; 32] = utxo.txid.as_ref();
    Ok(Utxo { txid: Txid(*txid), vout: utxo.vout, coins: utxo.coins, sats: utxo.sats })
}

/// The output that `ree_utxo` makes of a name, coins and sats.
pub open spec fn utxo_reading(
    outpoint: Seq<char>,
    coins: Seq<CoinBalance>,
    sats: u64,
) -> Result<UtxoView, Seq<char>> {
    match outpoint_reading(outpoint) {
        Ok((txid, vout)) => Ok(UtxoView { txid, vout, coins, sats }),
        Err(e) => Err(e),
    }
}

impl Utxo {
    /// The name of the output.
    pub fn outpoint(&self) -> (res: String)
        ensures
            res@ == outpoint_text(self@.txid, self@.vout),
    {
        ree_outpoint(&self.txid, self.vout)
    }

    /// The output of the given name, with the given coins and sats on it.
    pub fn try_from(outpoint: &String, coins: CoinBalances, sats: u64) -> (res: Result<
        Utxo,
        String,
    >)
        ensures
            match res {
                Ok(u) => utxo_reading(outpoint@, coin_list(coins), sats) == Ok::<
                    UtxoView,
                    Seq<char>,
                >(u@),
                Err(e) => utxo_reading(outpoint@, coin_list(coins), sats) == Err::<
                    UtxoView,
                    Seq<char>,
                >(e@),
            },
            forall|txid: Seq<u8>, vout: u32|
                txid.len() == 32 && outpoint@ == #[trigger] outpoint_text(txid, vout) ==> res is Ok
                    && res->Ok_0@ == (UtxoView { txid, vout, coins: coin_list(coins), sats }),
    {
        ree_utxo(outpoint, coins, sats)
    }
}

/// The `Debug` form of a transaction id.
pub open spec fn id_debug(txid: Seq<u8>) -> Seq<char> {
    "Txid("@ + list_debug(txid.map_values(|b: u8| decimal(b as nat))) + ")"@
}

/// The `Debug` form of an optional output.
pub open spec fn utxo_debug(utxo: Option<UtxoView>) -> Seq<char> {
    match utxo {
        None => "None"@,
        Some(u) => "Some(Utxo { txid: "@ + id_debug(u.txid) + ", vout: "@ + decimal(u.vout as nat)
            + ", coins: "@ + coins_debug(u.coins) + ", sats: "@ + decimal(u.sats as nat) + " })"@,
    }
}

/// Calls the `Debug` formatting of an optional `ree_types::Utxo`. It claims that the text is the one
/// that `derive(Debug)` gives: names and fields, the bytes of the id and the numbers in decimal.
#[verifier::external_body]
pub(crate) fn utxo_debug_text(utxo: &Option<Utxo>) -> (res: String)
    ensures
        res@ == utxo_debug(utxo_opt_view(*utxo)),
{
    let utxo = utxo.as_ref().map(|u| ree_types::Utxo {
        txid: ree_types::Txid::from_bytes(&u.txid.0).unwrap(),
        vout: u.vout,
        coins: u.coins.clone(),
        sats: u.sats,
    });
    format!("{:?}", utxo)
}

/// The `Debug` form of an optional transaction id.
pub open spec fn txid_debug(txid: Option<Seq<u8>>) -> Seq<char> {
    match txid {
        None => "None"@,
        Some(t) => "Some("@ + id_debug(t) + ")"@,
    }
}

/// The content of an optional transaction id.
pub open spec fn txid_opt_view(txid: Option<Txid>) -> Option<Seq<u8>> {
    match txid {
        Some(t) => Some(t@),
        None => None,
    }
}

/// Calls the `Debug` formatting of an optional `ree_types::Txid`. It claims that the text is the one
/// that `derive(Debug)` gives: the name, and the bytes of the id in decimal.
#[verifier::external_body]
pub(crate) fn txid_debug_text(txid: &Option<Txid>) -> (res: String)
    ensures
        res@ == txid_debug(txid_opt_view(*txid)),
{
    let txid = txid.as_ref().map(|t| ree_types::Txid::from_bytes(&t.0).unwrap());
    format!("{:?}", txid)
}

} // verus!
