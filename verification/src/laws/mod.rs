//! What holds of the exchange as a whole: of claims and of the game, of what transactions are
//! accepted for, of the chain of pool states, of rollback and finality, of the records of
//! transactions and blocks, and of the written forms by which outputs are told apart.

pub mod chain;
pub mod claims;
pub mod finality;
pub mod game;
pub mod records;
pub mod registration;
pub mod rollback;
pub mod written;
