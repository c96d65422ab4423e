//! An exchange on which a game is played: gamers register with a transaction, claim cookies from
//! time to time, and withdraw them at the end. The exchange keeps the chain of the states that its
//! pool goes through, and follows the blocks in which the transactions become final.

use vstd::prelude::*;

pub mod blocks;
pub mod clock;
pub mod coin;
pub mod errors;
pub mod exchange;
pub mod game;
pub mod keymap;
pub mod laws;
pub mod memory;
pub mod principal;
pub mod reading;
pub mod reorg;
pub mod state;
pub mod text;
pub mod tx;
pub mod utxo;

verus! {

/// A span of time in seconds.
pub type Seconds = u64;

/// A point in time, in seconds since the epoch.
pub type SecondTimestamp = u64;

/// An amount of BTC in its smallest unit.
pub type Satoshi = u64;

/// A Bitcoin address.
pub type Address = String;

} // verus!
