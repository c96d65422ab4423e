//! The state of the exchange: the chain of pool states, and the game that is played on it.

use vstd::prelude::*;
use crate::coin::{
    copy_coins, find_value, first_value, input_coins_debug, input_coins_text, input_views,
    output_coins_debug, output_coins_text, output_views, pool_rune, CoinId, InputCoin,
    InputCoinView, OutputCoin, OutputCoinView,
};
use crate::errors::{outcome, ErrorView, ExchangeError};
use crate::game::{Game, GameView, GamerView};
use crate::keymap::KeyMap;
use crate::principal::Principal;
use crate::text::{
    decimal, decimal_text, string_debug, string_debug_text, string_views, strings_debug,
    strings_debug_text,
};
use crate::utxo::{
    outpoint_text, txid_debug, txid_debug_text, txid_opt_view, utxo_debug, utxo_debug_text,
    utxo_opt_view, Txid, Utxo, UtxoView,
};
use crate::Address;
use ree_types::CoinBalances;

verus! {

/// What a gamer did to bring a pool state about.
#[derive(Debug, PartialEq, Eq)]
pub enum UserAction {
    Init,
    Register(Address),
    Withdraw(Address),
}

/// The content of a [`UserAction`].
pub enum UserActionView {
    Init,
    Register(Seq<char>),
    Withdraw(Seq<char>),
}

impl View for UserAction {
    type V = UserActionView;

    open spec fn view(&self) -> UserActionView {
        match self {
            UserAction::Init => UserActionView::Init,
            UserAction::Register(a) => UserActionView::Register(a@),
            UserAction::Withdraw(a) => UserActionView::Withdraw(a@),
        }
    }
}

impl Clone for UserAction {
    fn clone(&self) -> (res: Self)
        ensures
            res@ == self@,
    {
        match self {
            UserAction::Init => UserAction::Init,
            UserAction::Register(a) => UserAction::Register(a.clone()),
            UserAction::Withdraw(a) => UserAction::Withdraw(a.clone()),
        }
    }
}

/// The `Debug` form of an action.
pub open spec fn user_action_debug(action: UserActionView) -> Seq<char> {
    match action {
        UserActionView::Init => "Init"@,
        UserActionView::Register(a) => "Register("@ + string_debug(a) + ")"@,
        UserActionView::Withdraw(a) => "Withdraw("@ + string_debug(a) + ")"@,
    }
}

impl UserAction {
    /// The `Debug` form of the action.
    fn debug_text(&self) -> (res: String)
        ensures
            res@ == user_action_debug(self@),
    {
        match self {
            UserAction::Init => "Init".to_string(),
            UserAction::Register(a) => "Register(".to_string().concat(
                string_debug_text(a).as_str(),
            ).concat(")"),
            UserAction::Withdraw(a) => "Withdraw(".to_string().concat(
                string_debug_text(a).as_str(),
            ).concat(")"),
        }
    }
}

/// The pool after a transaction.
#[derive(Debug, PartialEq, Eq)]
pub struct PoolState {
    pub id: Option<Txid>,
    pub nonce: u64,
    pub utxo: Option<Utxo>,
    pub user_action: UserAction,
}

/// The content of a [`PoolState`].
pub struct PoolStateView {
    pub id: Option<Seq<u8>>,
    pub nonce: u64,
    pub utxo: Option<UtxoView>,
    pub user_action: UserActionView,
}

impl View for PoolState {
    type V = PoolStateView;

    open spec fn view(&self) -> PoolStateView {
        PoolStateView {
            id: txid_opt_view(self.id),
            nonce: self.nonce,
            utxo: utxo_opt_view(self.utxo),
            user_action: self.user_action@,
        }
    }
}

impl Clone for PoolState {
    fn clone(&self) -> (res: Self)
        ensures
            res@ == self@,
    {
        PoolState {
            id: self.id,
            nonce: self.nonce,
            utxo: match &self.utxo {
                Some(u) => Some(u.clone()),
                None => None,
            },
            user_action: self.user_action.clone(),
        }
    }
}

/// The `Debug` form of a pool state.
pub open spec fn pool_state_debug(state: PoolStateView) -> Seq<char> {
    "PoolState { id: "@ + txid_debug(state.id) + ", nonce: "@ + decimal(state.nonce as nat)
        + ", utxo: "@ + utxo_debug(state.utxo) + ", user_action: "@ + user_action_debug(
        state.user_action,
    ) + " }"@
}

impl PoolState {
    /// The sats in the pool.
    pub fn btc_balance(&self) -> (res: u64)
        ensures
            res == (match self@.utxo {
                Some(u) => u.sats,
                None => 0,
            }),
    {
        match &self.utxo {
            Some(u) => u.sats,
            None => 0,
        }
    }

    /// The `Debug` form of the state.
    fn debug_text(&self) -> (res: String)
        ensures
            res@ == pool_state_debug(self@),
    {
        "PoolState { id: ".to_string()
            .concat(txid_debug_text(&self.id).as_str())
            .concat(", nonce: ")
            .concat(decimal_text(self.nonce).as_str())
            .concat(", utxo: ")
            .concat(utxo_debug_text(&self.utxo).as_str())
            .concat(", user_action: ")
            .concat(self.user_action.debug_text().as_str())
            .concat(" }")
    }
}

/// The contents of a chain of pool states.
pub open spec fn state_views(states: Seq<PoolState>) -> Seq<PoolStateView> {
    states.map_values(|s: PoolState| s@)
}

/// A copy of a chain of pool states.
pub(crate) fn copy_states(states: &Vec<PoolState>) -> (res: Vec<PoolState>)
    ensures
        state_views(res@) == state_views(states@),
{
    let mut res: Vec<PoolState> = Vec::new();
    let mut i: usize = 0;
    while i < states.len()
        invariant
            i <= states.len(),
            res@.len() == i,
            forall|j: int| 0 <= j < i ==> (#[trigger] res@[j])@ == states@[j]@,
        decreases states.len() - i,
    {
        res.push(states[i].clone());
        i += 1;
    }
    assert(state_views(res@) =~= state_views(states@));
    res
}

/// Where the transaction first occurs in a chain of pool states, if it does.
pub open spec fn index_of_tx(states: Seq<PoolStateView>, txid: Seq<u8>) -> Option<int>
    decreases states.len(),
{
    if states.len() == 0 {
        None
    } else if states[0].id == Some(txid) {
        Some(0)
    } else {
        match index_of_tx(states.drop_first(), txid) {
            Some(i) => Some(i + 1),
            None => None,
        }
    }
}

/// How far the game has come.
#[derive(Clone, Copy, Debug, PartialEq, Eq, Structural)]
pub enum GameStatus {
    Init,
    Play,
    Ended,
}

/// A public key: the bytes of its compressed form.
#[derive(Debug, PartialEq, Eq)]
pub struct Pubkey {
    pub bytes: Vec<u8>,
}

impl View for Pubkey {
    type V = Seq<u8>;

    open spec fn view(&self) -> Seq<u8> {
        self.bytes@
    }
}

impl Clone for Pubkey {
    fn clone(&self) -> (res: Self)
        ensures
            res@ == self@,
    {
        let bytes = self.bytes.clone();
        assert(bytes@ =~= self.bytes@);
        Pubkey { bytes }
    }
}

/// The addresses that callers play under.
pub type CallerAddresses = KeyMap<Principal, Address>;

/// All that the exchange keeps between requests, but for its record of blocks and transactions.
#[derive(Debug, PartialEq, Eq)]
pub struct ExchangeState {
    pub states: Vec<PoolState>,
    pub key: Pubkey,
    pub address: String,
    pub ii_canister: Principal,
    pub orchestrator: Principal,
    pub address_principal_map: Option<CallerAddresses>,
    pub game: Game,
    pub game_status: GameStatus,
}

/// The content of an [`ExchangeState`].
pub struct ExchangeView {
    pub states: Seq<PoolStateView>,
    pub key: Seq<u8>,
    pub address: Seq<char>,
    pub ii_canister: Seq<u8>,
    pub orchestrator: Seq<u8>,
    pub address_principal_map: Option<Map<Seq<u8>, Seq<char>>>,
    pub game: GameView,
    pub game_status: GameStatus,
}

impl View for ExchangeState {
    type V = ExchangeView;

    open spec fn view(&self) -> ExchangeView {
        ExchangeView {
            states: state_views(self.states@),
            key: self.key@,
            address: self.address@,
            ii_canister: self.ii_canister@,
            orchestrator: self.orchestrator@,
            address_principal_map: match self.address_principal_map {
                Some(m) => Some(m@.map_values(|a: Address| a@)),
                None => None,
            },
            game: self.game@,
            game_status: self.game_status,
        }
    }
}

/// The message for coins that are not those of the request.
pub open spec fn coins_message(
    inputs: Seq<InputCoinView>,
    outputs: Seq<OutputCoinView>,
) -> Seq<char> {
    "input_coins: "@ + input_coins_debug(inputs) + ", output_coins: "@ + output_coins_debug(outputs)
}

fn coins_message_text(input_coins: &Vec<InputCoin>, output_coins: &Vec<OutputCoin>) -> (res: String)
    ensures
        res@ == coins_message(input_views(input_coins@), output_views(output_coins@)),
{
    "input_coins: ".to_string()
        .concat(input_coins_text(input_coins).as_str())
        .concat(", output_coins: ")
        .concat(output_coins_text(output_coins).as_str())
}

/// The message for a registration that does not spend the output of the pool.
pub open spec fn register_spend_message(spend: Seq<Seq<char>>, utxo: Option<UtxoView>) -> Seq<
    char,
> {
    "pool_utxo_spend: "@ + strings_debug(spend) + ", last_state_utxo: "@ + utxo_debug(utxo)
}

/// The message for a withdrawal that does not spend the output of the pool.
pub open spec fn withdraw_spend_message(spend: Seq<Seq<char>>, state: PoolStateView) -> Seq<char> {
    "Pool Utxo Spend not eq last pool state utxos, pool_utxo_spend: "@ + strings_debug(spend)
        + ", last_state: "@ + pool_state_debug(state)
}

impl ExchangeView {
    /// The last pool state, or the error of a request that needs one where there is none.
    pub open spec fn last_state(self) -> Result<PoolStateView, ErrorView> {
        if self.states.len() == 0 {
            Err(ErrorView::LastStateNotFound)
        } else {
            Ok(self.states.last())
        }
    }

    /// Whether the coins are those of a registration: one amount of BTC above the fee comes in,
    /// and nothing goes out.
    pub open spec fn register_coins_ok(
        self,
        inputs: Seq<InputCoinView>,
        outputs: Seq<OutputCoinView>,
    ) -> bool {
        &&& inputs.len() == 1
        &&& outputs.len() == 0
        &&& inputs[0].coin.id == (CoinId { block: 0, tx: 0 })
        &&& inputs[0].coin.value > self.game.gamer_register_fee
    }

    /// What a registration is answered: the pool state that it would bring about and the output
    /// that it spends, or the first of the rules that it breaks.
    pub open spec fn register(
        self,
        txid: Seq<u8>,
        nonce: u64,
        spend: Seq<Seq<char>>,
        receive: Seq<UtxoView>,
        inputs: Seq<InputCoinView>,
        outputs: Seq<OutputCoinView>,
        address: Seq<char>,
    ) -> Result<(PoolStateView, UtxoView), ErrorView> {
        if self.game_status == GameStatus::Ended {
            Err(ErrorView::GameEnd)
        } else if self.game.gamer_at(address) is Some {
            Err(ErrorView::GamerAlreadyExist(address))
        } else if !self.register_coins_ok(inputs, outputs) {
            Err(ErrorView::InvalidSignPsbtArgs(coins_message(inputs, outputs)))
        } else if self.states.len() == 0 {
            Err(ErrorView::LastStateNotFound)
        } else if self.states.last().nonce != nonce {
            Err(ErrorView::PoolStateExpired(self.states.last().nonce))
        } else {
            match self.states.last().utxo {
                None => Err(ErrorView::LastStateNotFound),
                Some(pool) => if spend.len() == 0 {
                    Err(ErrorView::InvalidSignPsbtArgs("pool_utxo_spend is empty"@))
                } else if spend.last() != outpoint_text(pool.txid, pool.vout) {
                    Err(
                        ErrorView::InvalidSignPsbtArgs(
                            register_spend_message(spend, Some(pool)),
                        ),
                    )
                } else if receive.len() == 0 {
                    Err(ErrorView::InvalidSignPsbtArgs("pool_utxo_receive not found"@))
                } else if pool.sats + self.game.gamer_register_fee > u64::MAX {
                    Err(ErrorView::Overflow)
                } else if nonce == u64::MAX {
                    Err(ErrorView::Overflow)
                } else {
                    Ok(
                        (
                            PoolStateView {
                                id: Some(txid),
                                nonce: (nonce + 1) as u64,
                                utxo: Some(
                                    UtxoView {
                                        txid: receive.last().txid,
                                        vout: receive.last().vout,
                                        coins: pool.coins,
                                        sats: (pool.sats + self.game.gamer_register_fee) as u64,
                                    },
                                ),
                                user_action: UserActionView::Register(address),
                            },
                            pool,
                        ),
                    )
                },
            }
        }
    }
}

/// A pool state and an output with their contents, or the content of the error.
pub open spec fn transition(res: Result<(PoolState, Utxo), ExchangeError>) -> Result<
    (PoolStateView, UtxoView),
    ErrorView,
> {
    match res {
        Ok((s, u)) => Ok((s@, u@)),
        Err(e) => Err(e@),
    }
}

/// The contents of a list of outputs.
pub open spec fn utxo_views(list: Seq<Utxo>) -> Seq<UtxoView> {
    list.map_values(|u: Utxo| u@)
}

impl ExchangeState {
    /// The last pool state.
    pub fn last_state(&self) -> (res: Result<PoolState, ExchangeError>)
        ensures
            match res {
                Ok(s) => self@.last_state() == Ok::<PoolStateView, ErrorView>(s@),
                Err(e) => self@.last_state() == Err::<PoolStateView, ErrorView>(e@),
            },
    {
        if self.states.len() == 0 {
            Err(ExchangeError::LastStateNotFound)
        } else {
            Ok(self.states[self.states.len() - 1].clone())
        }
    }

    /// Judges the transaction with which a gamer registers: gives the pool state that it brings
    /// about and the output of the pool that it spends.
    pub fn validate_register(
        &self,
        txid: Txid,
        nonce: u64,
        pool_utxo_spend: Vec<String>,
        pool_utxo_receive: Vec<Utxo>,
        input_coins: Vec<InputCoin>,
        output_coins: Vec<OutputCoin>,
        address: Address,
    ) -> (res: Result<(PoolState, Utxo), ExchangeError>)
        requires
            self.game_status != GameStatus::Ended ==> self.game.gamer is Some,
        ensures
            transition(res) == self@.register(
                txid@,
                nonce,
                string_views(pool_utxo_spend@),
                utxo_views(pool_utxo_receive@),
                input_views(input_coins@),
                output_views(output_coins@),
                address@,
            ),
    {
        if self.game_status == GameStatus::Ended {
            return Err(ExchangeError::GameEnd);
        }
        if self.game.find_gamer(&address).is_some() {
            return Err(ExchangeError::GamerAlreadyExist(address));
        }
        if !(input_coins.len() == 1 && output_coins.len() == 0 && input_coins[0].coin.id
            == CoinId::btc() && input_coins[0].coin.value > self.game.gamer_register_fee as u128) {
            return Err(
                ExchangeError::InvalidSignPsbtArgs(coins_message_text(&input_coins, &output_coins)),
            );
        }
        if self.states.len() == 0 {
            return Err(ExchangeError::LastStateNotFound);
        }
        let last_state = &self.states[self.states.len() - 1];
        assert(last_state@ == self@.states.last());
        if last_state.nonce != nonce {
            return Err(ExchangeError::PoolStateExpired(last_state.nonce));
        }
        let pool = match &last_state.utxo {
            Some(pool) => pool,
            None => {
                return Err(ExchangeError::LastStateNotFound);
            },
        };
        if pool_utxo_spend.len() == 0 {
            return Err(
                ExchangeError::InvalidSignPsbtArgs("pool_utxo_spend is empty".to_string()),
            );
        }
        if !pool.outpoint().eq(&pool_utxo_spend[pool_utxo_spend.len() - 1]) {
            return Err(
                ExchangeError::InvalidSignPsbtArgs(
                    "pool_utxo_spend: ".to_string()
                        .concat(strings_debug_text(&pool_utxo_spend).as_str())
                        .concat(", last_state_utxo: ")
                        .concat(utxo_debug_text(&last_state.utxo).as_str()),
                ),
            );
        }
        if pool_utxo_receive.len() == 0 {
            return Err(
                ExchangeError::InvalidSignPsbtArgs("pool_utxo_receive not found".to_string()),
            );
        }
        let pool_new_outpoint = pool_utxo_receive[pool_utxo_receive.len() - 1].outpoint();
        let sats: u64 = match pool.sats.checked_add(self.game.gamer_register_fee) {
            Some(sats) => sats,
            None => {
                return Err(ExchangeError::Overflow);
            },
        };
        let pool_new_utxo = match Utxo::try_from(&pool_new_outpoint, copy_coins(&pool.coins), sats) {
            Ok(utxo) => utxo,
            Err(e) => {
                return Err(ExchangeError::InvalidSignPsbtArgs(e));
            },
        };
        let new_nonce: u64 = match last_state.nonce.checked_add(1) {
            Some(n) => n,
            None => {
                return Err(ExchangeError::Overflow);
            },
        };
        Ok(
            (
                PoolState {
                    id: Some(txid),
                    nonce: new_nonce,
                    utxo: Some(pool_new_utxo),
                    user_action: UserAction::Register(address),
                },
                pool.clone(),
            ),
        )
    }
}

impl ExchangeView {
    /// Why a withdrawal is refused before the amounts are looked at, if it is.
    pub open spec fn withdraw_refusal(
        self,
        inputs: Seq<InputCoinView>,
        outputs: Seq<OutputCoinView>,
        initiator: Seq<char>,
    ) -> Option<ErrorView> {
        if self.game_status == GameStatus::Ended {
            Some(ErrorView::GameEnd)
        } else if self.game.gamer_at(initiator) is None {
            Some(ErrorView::GamerNotFound(initiator))
        } else if !(inputs.len() == 0 && outputs.len() == 2) {
            Some(ErrorView::InvalidSignPsbtArgs(coins_message(inputs, outputs)))
        } else {
            None
        }
    }

    /// Whether the only coin that goes out is the gamer's balance of the pool's rune, paid to the
    /// gamer, and nothing comes in.
    pub open spec fn pays_balance(
        self,
        inputs: Seq<InputCoinView>,
        outputs: Seq<OutputCoinView>,
        initiator: Seq<char>,
    ) -> bool {
        &&& outputs.len() == 1
        &&& inputs.len() == 0
        &&& outputs[0].coin.id == pool_rune()
        &&& outputs[0].coin.value == self.game.gamer_at(initiator)->0.cookies
        &&& outputs[0].to == initiator
    }

    /// What a payment of `cookies` out of the pool is answered: the pool state that it would bring
    /// about and the output that it spends, or the first of the rules that it breaks. The new
    /// output of the pool keeps the sats and carries no coins.
    pub open spec fn pay_out(
        self,
        txid: Seq<u8>,
        nonce: u64,
        spend: Seq<Seq<char>>,
        receive: Seq<UtxoView>,
        cookies: u128,
        initiator: Seq<char>,
    ) -> Result<(PoolStateView, UtxoView), ErrorView> {
        let last = self.states.last();
        if self.states.len() == 0 {
            Err(ErrorView::LastStateNotFound)
        } else if last.nonce != nonce {
            Err(ErrorView::PoolStateExpired(last.nonce))
        } else if spend.len() != 1 {
            Err(ErrorView::InvalidSignPsbtArgs(withdraw_spend_message(spend, last)))
        } else {
            match last.utxo {
                None => Err(ErrorView::LastStateNotFound),
                Some(pool) => if spend[0] != outpoint_text(pool.txid, pool.vout) {
                    Err(ErrorView::InvalidSignPsbtArgs(withdraw_spend_message(spend, last)))
                } else if receive.len() == 0 {
                    Err(ErrorView::InvalidSignPsbtArgs("pool_utxo_receive not found"@))
                } else {
                    match first_value(pool.coins, pool_rune()) {
                        None => Err(ErrorView::LastStateNotFound),
                        Some(reserve) => if reserve < cookies {
                            Err(ErrorView::Overflow)
                        } else if nonce == u64::MAX {
                            Err(ErrorView::Overflow)
                        } else {
                            Ok(
                                (
                                    PoolStateView {
                                        id: Some(txid),
                                        nonce: (nonce + 1) as u64,
                                        utxo: Some(
                                            UtxoView {
                                                txid: receive[0].txid,
                                                vout: receive[0].vout,
                                                coins: Seq::empty(),
                                                sats: pool.sats,
                                            },
                                        ),
                                        user_action: UserActionView::Withdraw(initiator),
                                    },
                                    pool,
                                ),
                            )
                        },
                    }
                },
            }
        }
    }
}

impl ExchangeState {
    /// Whether a withdrawal is refused at once or pays the gamer's balance, and nothing else.
    /// [`validate_withdraw`](Self::validate_withdraw) is for such a withdrawal only.
    pub fn withdraw_is_decided(
        &self,
        input_coins: &Vec<InputCoin>,
        output_coins: &Vec<OutputCoin>,
        initiator_address: &Address,
    ) -> (res: bool)
        ensures
            res == (self@.withdraw_refusal(
                input_views(input_coins@),
                output_views(output_coins@),
                initiator_address@,
            ) is None ==> self@.pays_balance(
                input_views(input_coins@),
                output_views(output_coins@),
                initiator_address@,
            )),
    {
        if self.game_status == GameStatus::Ended {
            return true;
        }
        match self.game.find_gamer(initiator_address) {
            None => true,
            Some(gamer) => {
                if !(input_coins.len() == 0 && output_coins.len() == 2) {
                    return true;
                }
                output_coins.len() == 1 && input_coins.len() == 0 && output_coins[0].coin.id
                    == CoinId::cookie() && output_coins[0].coin.value == gamer.cookies
                    && output_coins[0].to.eq(initiator_address)
            },
        }
    }

    /// Judges the transaction with which a gamer withdraws. The amounts that it is held to cannot
    /// be met by the number of coins that it is held to, so none is let through.
    pub fn validate_withdraw(
        &self,
        txid: Txid,
        nonce: u64,
        pool_utxo_spend: Vec<String>,
        pool_utxo_receive: Vec<Utxo>,
        input_coins: Vec<InputCoin>,
        output_coins: Vec<OutputCoin>,
        initiator_address: Address,
    ) -> (res: Result<(PoolState, Utxo), ExchangeError>)
        requires
            self@.withdraw_refusal(
                input_views(input_coins@),
                output_views(output_coins@),
                initiator_address@,
            ) is None ==> self@.pays_balance(
                input_views(input_coins@),
                output_views(output_coins@),
                initiator_address@,
            ),
        ensures
            transition(res) == (match self@.withdraw_refusal(
                input_views(input_coins@),
                output_views(output_coins@),
                initiator_address@,
            ) {
                Some(e) => Err(e),
                None => self@.pay_out(
                    txid@,
                    nonce,
                    string_views(pool_utxo_spend@),
                    utxo_views(pool_utxo_receive@),
                    self@.game.gamer_at(initiator_address@)->0.cookies,
                    initiator_address@,
                ),
            }),
            res is Err,
    {
        if self.game_status == GameStatus::Ended {
            return Err(ExchangeError::GameEnd);
        }
        let cookies: u128 = match self.game.find_gamer(&initiator_address) {
            Some(gamer) => gamer.cookies,
            None => {
                return Err(ExchangeError::GamerNotFound(initiator_address));
            },
        };
        if !(input_coins.len() == 0 && output_coins.len() == 2) {
            return Err(
                ExchangeError::InvalidSignPsbtArgs(coins_message_text(&input_coins, &output_coins)),
            );
        }
        self.validate_pay_out(
            txid,
            nonce,
            &pool_utxo_spend,
            &pool_utxo_receive,
            cookies,
            initiator_address,
        )
    }

    /// Judges a payment of `cookies` out of the pool: gives the pool state that it brings about
    /// and the output of the pool that it spends.
    pub fn validate_pay_out(
        &self,
        txid: Txid,
        nonce: u64,
        pool_utxo_spend: &Vec<String>,
        pool_utxo_receive: &Vec<Utxo>,
        cookies: u128,
        initiator_address: Address,
    ) -> (res: Result<(PoolState, Utxo), ExchangeError>)
        ensures
            transition(res) == self@.pay_out(
                txid@,
                nonce,
                string_views(pool_utxo_spend@),
                utxo_views(pool_utxo_receive@),
                cookies,
                initiator_address@,
            ),
    {
        if self.states.len() == 0 {
            return Err(ExchangeError::LastStateNotFound);
        }
        let last_state = &self.states[self.states.len() - 1];
        assert(last_state@ == self@.states.last());
        if last_state.nonce != nonce {
            return Err(ExchangeError::PoolStateExpired(last_state.nonce));
        }
        let mut spends_pool: bool = pool_utxo_spend.len() == 1;
        if spends_pool {
            match &last_state.utxo {
                Some(pool) => {
                    spends_pool = pool_utxo_spend[0].eq(&pool.outpoint());
                },
                None => {
                    return Err(ExchangeError::LastStateNotFound);
                },
            }
        }
        if !spends_pool {
            return Err(
                ExchangeError::InvalidSignPsbtArgs(
                    "Pool Utxo Spend not eq last pool state utxos, pool_utxo_spend: ".to_string()
                        .concat(strings_debug_text(pool_utxo_spend).as_str())
                        .concat(", last_state: ")
                        .concat(last_state.debug_text().as_str()),
                ),
            );
        }
        if pool_utxo_receive.len() == 0 {
            return Err(
                ExchangeError::InvalidSignPsbtArgs("pool_utxo_receive not found".to_string()),
            );
        }
        let pool_new_outpoint = pool_utxo_receive[0].outpoint();
        let pool = match &last_state.utxo {
            Some(pool) => pool,
            None => {
                return Err(ExchangeError::LastStateNotFound);
            },
        };
        let reserve: u128 = match find_value(&pool.coins, CoinId::cookie()) {
            Some(reserve) => reserve,
            None => {
                return Err(ExchangeError::LastStateNotFound);
            },
        };
        if reserve < cookies {
            return Err(ExchangeError::Overflow);
        }
        let new_utxo = match Utxo::try_from(&pool_new_outpoint, CoinBalances::new(), pool.sats) {
            Ok(utxo) => utxo,
            Err(e) => {
                return Err(ExchangeError::InvalidSignPsbtArgs(e));
            },
        };
        let new_nonce: u64 = match last_state.nonce.checked_add(1) {
            Some(n) => n,
            None => {
                return Err(ExchangeError::Overflow);
            },
        };
        Ok(
            (
                PoolState {
                    id: Some(txid),
                    nonce: new_nonce,
                    utxo: Some(new_utxo),
                    user_action: UserAction::Withdraw(initiator_address),
                },
                pool.clone(),
            ),
        )
    }
}

/// The transaction stands where `index_of_tx` says, and nowhere before; it is in the chain if
/// and only if `index_of_tx` says where.
pub proof fn lemma_index_of_tx(states: Seq<PoolStateView>, txid: Seq<u8>)
    ensures
        match index_of_tx(states, txid) {
            Some(i) => {
                &&& 0 <= i < states.len()
                &&& states[i].id == Some(txid)
                &&& forall|j: int| 0 <= j < i ==> (#[trigger] states[j]).id != Some(txid)
            },
            None => forall|j: int|
                0 <= j < states.len() ==> (#[trigger] states[j]).id != Some(txid),
        },
    decreases states.len(),
{
    if states.len() > 0 && states[0].id != Some(txid) {
        let rest = states.drop_first();
        lemma_index_of_tx(rest, txid);
        match index_of_tx(rest, txid) {
            Some(i) => {
                assert forall|j: int| 0 <= j < i + 1 implies (#[trigger] states[j]).id != Some(
                    txid,
                ) by {
                    if j > 0 {
                        assert(rest[j - 1] == states[j]);
                    }
                }
            },
            None => {
                assert forall|j: int| 0 <= j < states.len() implies (#[trigger] states[j]).id
                    != Some(txid) by {
                    if j > 0 {
                        assert(rest[j - 1] == states[j]);
                    }
                }
            },
        }
    }
}

/// The first place at which the transaction stands is the one that `index_of_tx` gives.
pub proof fn lemma_index_of_tx_is(states: Seq<PoolStateView>, txid: Seq<u8>, i: int)
    requires
        0 <= i < states.len(),
        states[i].id == Some(txid),
        forall|j: int| 0 <= j < i ==> (#[trigger] states[j]).id != Some(txid),
    ensures
        index_of_tx(states, txid) == Some(i),
{
    lemma_index_of_tx(states, txid);
    match index_of_tx(states, txid) {
        Some(k) => {
            if k < i {
                assert(states[k].id != Some(txid));
            } else if i < k {
                assert(states[i].id != Some(txid));
            }
        },
        None => {
            assert(states[i].id != Some(txid));
        },
    }
}

/// What finalizing a transaction makes of a chain of pool states, and what it returns: what came
/// before the transaction is dropped.
pub open spec fn finalized(states: Seq<PoolStateView>, txid: Seq<u8>) -> (
    Seq<PoolStateView>,
    Result<(), ErrorView>,
) {
    match index_of_tx(states, txid) {
        Some(i) => (states.skip(i), Ok(())),
        None => (states, Err(ErrorView::InvalidState("txid not found"@))),
    }
}

/// What undoing pool states, last one first, until `keep` are left makes of the chain and of the
/// game, and what it returns. It stops at the first state that cannot be undone; that state is
/// gone from the chain all the same.
pub open spec fn undone(states: Seq<PoolStateView>, game: GameView, keep: int) -> (
    Seq<PoolStateView>,
    GameView,
    Result<(), ErrorView>,
)
    decreases states.len(),
{
    if states.len() <= keep || states.len() == 0 {
        (states, game, Ok(()))
    } else {
        let rest = states.drop_last();
        match states.last().user_action {
            UserActionView::Init => (
                rest,
                game,
                Err(ErrorView::InvalidState("Should not rollback init action"@)),
            ),
            UserActionView::Register(a) => if game.gamer_at(a) is Some {
                undone(rest, game.without_gamer(a), keep)
            } else {
                (rest, game, Err(ErrorView::GamerNotFound(a)))
            },
            UserActionView::Withdraw(a) => match game.gamer_at(a) {
                Some(g) => undone(
                    rest,
                    game.with_gamer(a, GamerView { is_withdrawn: false, ..g }),
                    keep,
                ),
                None => (rest, game, Err(ErrorView::GamerNotFound(a))),
            },
        }
    }
}

/// What rolling a transaction back makes of the chain of pool states and of the game, and
/// what it returns.
pub open spec fn rolled_back(states: Seq<PoolStateView>, game: GameView, txid: Seq<u8>) -> (
    Seq<PoolStateView>,
    GameView,
    Result<(), ErrorView>,
) {
    match index_of_tx(states, txid) {
        None => (states, game, Err(ErrorView::InvalidState("txid not found"@))),
        Some(i) => if i == 0 {
            (
                states,
                game,
                Err(ErrorView::InvalidState("Should not rollback index 0 state"@)),
            )
        } else {
            undone(states, game, i)
        },
    }
}

impl ExchangeState {
    /// Where the transaction first occurs in the chain of pool states.
    fn find_tx(&self, txid: &Txid) -> (res: Option<usize>)
        ensures
            match res {
                Some(i) => index_of_tx(self@.states, txid@) == Some(i as int) && i
                    < self.states@.len(),
                None => index_of_tx(self@.states, txid@) is None,
            },
    {
        let mut i: usize = 0;
        while i < self.states.len()
            invariant
                i <= self.states.len(),
                forall|j: int| 0 <= j < i ==> (#[trigger] self@.states[j]).id != Some(txid@),
            decreases self.states.len() - i,
        {
            assert(self@.states[i as int] == self.states@[i as int]@);
            match &self.states[i].id {
                Some(id) => {
                    if id.same(txid) {
                        proof {
                            lemma_index_of_tx_is(self@.states, txid@, i as int);
                        }
                        return Some(i);
                    }
                },
                None => {},
            }
            i += 1;
        }
        proof {
            lemma_index_of_tx(self@.states, txid@);
        }
        None
    }

    /// Makes `state` the last pool state.
    pub fn commit(&mut self, state: PoolState)
        ensures
            final(self)@ == (ExchangeView {
                states: old(self)@.states.push(state@),
                ..old(self)@
            }),
    {
        self.states.push(state);
        assert(self@.states =~= old(self)@.states.push(state@));
    }

    /// Drops what came before the transaction, which can no longer be undone.
    pub fn finalize(&mut self, txid: Txid) -> (res: Result<(), ExchangeError>)
        ensures
            (final(self)@.states, outcome(res)) == finalized(old(self)@.states, txid@),
            final(self)@ == (ExchangeView { states: final(self)@.states, ..old(self)@ }),
    {
        match self.find_tx(&txid) {
            None => Err(ExchangeError::InvalidState("txid not found".to_string())),
            Some(idx) => {
                self.states = self.states.split_off(idx);
                assert(self@.states =~= old(self)@.states.skip(idx as int));
                Ok(())
            },
        }
    }

    /// Undoes the transaction and all that came after it: the chain of pool states is shortened,
    /// and what was done to the gamers is undone.
    pub fn rollback(&mut self, txid: Txid) -> (res: Result<(), ExchangeError>)
        ensures
            (final(self)@.states, final(self)@.game, outcome(res)) == rolled_back(
                old(self)@.states,
                old(self)@.game,
                txid@,
            ),
            final(self)@ == (ExchangeView {
                states: final(self)@.states,
                game: final(self)@.game,
                ..old(self)@
            }),
    {
        let idx: usize = match self.find_tx(&txid) {
            None => {
                return Err(ExchangeError::InvalidState("txid not found".to_string()));
            },
            Some(idx) => idx,
        };
        if idx == 0 {
            return Err(ExchangeError::InvalidState("Should not rollback index 0 state".to_string()));
        }
        while self.states.len() > idx
            invariant
                self.states@.len() >= idx,
                idx > 0,
                undone(self@.states, self@.game, idx as int) == undone(
                    old(self)@.states,
                    old(self)@.game,
                    idx as int,
                ),
                index_of_tx(old(self)@.states, txid@) == Some(idx as int),
                self@ == (ExchangeView { states: self@.states, game: self@.game, ..old(self)@ }),
            decreases self.states.len(),
        {
            let ghost before = self@.states;
            let ghost game = self@.game;
            let state = match self.states.pop() {
                Some(state) => state,
                None => {
                    return Err(
                        ExchangeError::InvalidState("Should not rollback index 0 state".to_string()),
                    );
                },
            };
            assert(self@.states =~= before.drop_last());
            assert(state@ == before.last());
            match state.user_action {
                UserAction::Init => {
                    return Err(
                        ExchangeError::InvalidState("Should not rollback init action".to_string()),
                    );
                },
                UserAction::Register(address) => {
                    if !self.game.drop_gamer(&address) {
                        assert(self@.game == game) by {
                            if game.gamer is Some {
                                assert(game.gamer->0.remove(address@) =~= game.gamer->0);
                            }
                        }
                        return Err(ExchangeError::GamerNotFound(address));
                    }
                },
                UserAction::Withdraw(address) => {
                    let mut gamer = match self.game.find_gamer(&address) {
                        Some(gamer) => gamer.clone(),
                        None => {
                            return Err(ExchangeError::GamerNotFound(address));
                        },
                    };
                    gamer.is_withdrawn = false;
                    self.game.put_gamer(address, gamer);
                },
            }
        }
        Ok(())
    }

    /// Whether the game is over.
    pub fn is_ended(&self) -> (res: bool)
        ensures
            res == (self@.game_status == GameStatus::Ended),
    {
        self.game_status == GameStatus::Ended
    }

    /// Ends the game, once.
    pub fn end_game(&mut self) -> (res: Result<(), ExchangeError>)
        ensures
            (final(self)@, outcome(res)) == old(self)@.end_game(),
    {
        if self.is_ended() {
            return Err(ExchangeError::GameEnd);
        }
        self.game_status = GameStatus::Ended;
        self.game.is_end = true;
        Ok(())
    }
}

impl ExchangeView {
    /// What the end of the game makes of the exchange, and what it returns.
    pub open spec fn end_game(self) -> (ExchangeView, Result<(), ErrorView>) {
        if self.game_status == GameStatus::Ended {
            (self, Err(ErrorView::GameEnd))
        } else {
            (
                ExchangeView {
                    game_status: GameStatus::Ended,
                    game: GameView { is_end: true, ..self.game },
                    ..self
                },
                Ok(()),
            )
        }
    }
}

} // verus!
