//! The reasons for which the exchange refuses a request.

use vstd::prelude::*;
use crate::Address;

verus! {

/// Why a request is refused.
#[derive(Debug, PartialEq, Eq)]
pub enum ExchangeError {
    /// A sum or a difference does not fit.
    Overflow,
    /// The state chain does not allow the request.
    InvalidState(String),
    /// The transaction is not what the exchange would sign.
    InvalidSignPsbtArgs(String),
    /// There is no pool state, or it lacks what the request needs.
    LastStateNotFound,
    /// The request was made for another pool state; the nonce is that of the last one.
    PoolStateExpired(u64),
    /// The game is over.
    GameEnd,
    /// The game is not over yet.
    GameNotEnd,
    GamerAlreadyExist(Address),
    GamerNotFound(Address),
    /// The gamer must wait until the given time, in seconds.
    GamerCoolingDown(Address, u64),
    /// The gamer has withdrawn.
    GamerWithdrawRepeatedly(Address),
    /// The cookies that are left are fewer than one claim hands out.
    CookieBalanceInsufficient(u128),
}

/// The content of an [`ExchangeError`].
pub enum ErrorView {
    Overflow,
    InvalidState(Seq<char>),
    InvalidSignPsbtArgs(Seq<char>),
    LastStateNotFound,
    PoolStateExpired(u64),
    GameEnd,
    GameNotEnd,
    GamerAlreadyExist(Seq<char>),
    GamerNotFound(Seq<char>),
    GamerCoolingDown(Seq<char>, u64),
    GamerWithdrawRepeatedly(Seq<char>),
    CookieBalanceInsufficient(u128),
}

impl View for ExchangeError {
    type V = ErrorView;

    open spec fn view(&self) -> ErrorView {
        match self {
            ExchangeError::Overflow => ErrorView::Overflow,
            ExchangeError::InvalidState(s) => ErrorView::InvalidState(s@),
            ExchangeError::InvalidSignPsbtArgs(s) => ErrorView::InvalidSignPsbtArgs(s@),
            ExchangeError::LastStateNotFound => ErrorView::LastStateNotFound,
            ExchangeError::PoolStateExpired(n) => ErrorView::PoolStateExpired(*n),
            ExchangeError::GameEnd => ErrorView::GameEnd,
            ExchangeError::GameNotEnd => ErrorView::GameNotEnd,
            ExchangeError::GamerAlreadyExist(a) => ErrorView::GamerAlreadyExist(a@),
            ExchangeError::GamerNotFound(a) => ErrorView::GamerNotFound(a@),
            ExchangeError::GamerCoolingDown(a, t) => ErrorView::GamerCoolingDown(a@, *t),
            ExchangeError::GamerWithdrawRepeatedly(a) => ErrorView::GamerWithdrawRepeatedly(a@),
            ExchangeError::CookieBalanceInsufficient(n) => ErrorView::CookieBalanceInsufficient(*n),
        }
    }
}

/// A result with the content of its error.
pub open spec fn outcome<T>(res: Result<T, ExchangeError>) -> Result<T, ErrorView> {
    match res {
        Ok(v) => Ok(v),
        Err(e) => Err(e@),
    }
}

} // verus!
