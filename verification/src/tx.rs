//! The transactions that the exchange signs: what is asked of it, what it decides, and what it
//! keeps of them.

use vstd::prelude::*;
use ree_types::bitcoin::Psbt;
use crate::blocks::{count_listed, times_listed};
use crate::coin::{input_views, output_views, InputCoin, OutputCoin};
use crate::errors::{ErrorView, ExchangeError};
use crate::game::{new_gamer, GameView};
use crate::memory::{record_fits, TxRecord, TxRecordStore};
use crate::state::{
    copy_states, rolled_back, state_views, utxo_views, ExchangeState, ExchangeView,
    GameStatus, PoolState, PoolStateView,
};
use crate::text::{decode_hex, hex_bytes, is_hex_text, string_views};
use crate::utxo::{Txid, Utxo, UtxoView};
use crate::Address;

verus! {

/// The partially signed transaction of the `bitcoin` crate.
#[verifier::external_type_specification]
#[verifier::external_body]
pub struct ExPsbt(ree_types::bitcoin::Psbt);

/// The error type of that crate for partially signed transactions.
#[verifier::external_type_specification]
#[verifier::external_body]
pub struct ExPsbtError(ree_types::bitcoin::psbt::Error);

/// The transaction that `Psbt::deserialize` makes of bytes, if they are one.
pub uninterp spec fn psbt_of(bytes: Seq<u8>) -> Option<Psbt>;

/// Calls `Psbt::deserialize` of `bitcoin`. It claims that the transaction, or that there is none,
/// is a function of the bytes. Which error there is otherwise is left unsaid: no caller tells the
/// errors apart.
#[verifier::external_body]
fn deserialize_psbt(bytes: &Vec<u8>) -> (res: Result<Psbt, ree_types::bitcoin::psbt::Error>)
    ensures
        res is Ok <==> psbt_of(bytes@) is Some,
        res matches Ok(p) ==> psbt_of(bytes@) == Some(p),
{
    Psbt::deserialize(bytes.as_slice())
}

/// The hex form in which a transaction is handed out.
pub uninterp spec fn psbt_hex(psbt: Psbt) -> Seq<char>;

/// Calls `Psbt::serialize_hex` of `bitcoin`. It claims that the text is a function of the
/// transaction.
#[verifier::external_body]
fn serialize_psbt(psbt: &Psbt) -> (res: String)
    ensures
        res@ == psbt_hex(*psbt),
{
    psbt.serialize_hex()
}

/// Why a transaction is not executed.
#[derive(Debug, PartialEq, Eq)]
pub enum TxError {
    /// It is refused for the state of the exchange.
    Refused(ExchangeError),
    /// It is refused for another reason.
    Failed(String),
}

/// The content of a [`TxError`].
pub enum TxErrorView {
    Refused(ErrorView),
    Failed(Seq<char>),
}

impl View for TxError {
    type V = TxErrorView;

    open spec fn view(&self) -> TxErrorView {
        match self {
            TxError::Refused(e) => TxErrorView::Refused(e@),
            TxError::Failed(s) => TxErrorView::Failed(s@),
        }
    }
}

/// The transaction in a hex text, if it is one.
pub open spec fn psbt_in(text: Seq<char>) -> Option<Psbt> {
    if is_hex_text(text) {
        psbt_of(hex_bytes(text))
    } else {
        None
    }
}

/// The transaction in the hex text of a request.
pub fn decode_psbt(text: &String) -> (res: Result<Psbt, TxError>)
    ensures
        match res {
            Ok(p) => psbt_in(text@) == Some(p),
            Err(e) => psbt_in(text@) is None && e@ == TxErrorView::Failed("invalid psbt"@),
        },
{
    match decode_hex(text) {
        Some(bytes) => psbt_from_bytes(&bytes),
        None => Err(TxError::Failed("invalid psbt".to_string())),
    }
}

/// The transaction in the bytes of a request.
fn psbt_from_bytes(bytes: &Vec<u8>) -> (res: Result<Psbt, TxError>)
    ensures
        match res {
            Ok(p) => psbt_of(bytes@) == Some(p),
            Err(e) => psbt_of(bytes@) is None && e@ == TxErrorView::Failed("invalid psbt"@),
        },
{
    match deserialize_psbt(bytes) {
        Ok(psbt) => Ok(psbt),
        Err(_) => Err(TxError::Failed("invalid psbt".to_string())),
    }
}

/// What a gamer intends with a transaction.
#[derive(Debug, PartialEq, Eq)]
pub struct Intention {
    pub action: String,
    pub pool_address: Address,
    pub nonce: u64,
    pub pool_utxo_spent: Vec<String>,
    pub pool_utxo_received: Vec<Utxo>,
    pub input_coins: Vec<InputCoin>,
    pub output_coins: Vec<OutputCoin>,
}

/// What the exchange lets a gamer do with a transaction.
#[derive(Clone, Copy, Debug, PartialEq, Eq, Structural)]
pub enum TxAction {
    Register,
    Withdraw,
}

/// A transaction that the exchange is ready to sign.
#[derive(Debug, PartialEq, Eq)]
pub struct TxPlan {
    pub txid: Txid,
    pub action: TxAction,
    pub initiator: Address,
    pub pool_address: Address,
    pub new_state: PoolState,
    /// The output of the pool that the signature releases.
    pub consumed: Utxo,
}

/// The content of a [`TxPlan`].
pub struct TxPlanView {
    pub txid: Seq<u8>,
    pub action: TxAction,
    pub initiator: Seq<char>,
    pub pool_address: Seq<char>,
    pub new_state: PoolStateView,
    pub consumed: UtxoView,
}

impl View for TxPlan {
    type V = TxPlanView;

    open spec fn view(&self) -> TxPlanView {
        TxPlanView {
            txid: self.txid@,
            action: self.action,
            initiator: self.initiator@,
            pool_address: self.pool_address@,
            new_state: self.new_state@,
            consumed: self.consumed@,
        }
    }
}

/// What the name of an action stands for.
pub open spec fn action_named(name: Seq<char>) -> Option<TxAction> {
    if name == "register"@ {
        Some(TxAction::Register)
    } else if name == "withdraw"@ {
        Some(TxAction::Withdraw)
    } else {
        None
    }
}

/// What the name of an action stands for.
pub fn parse_action(name: &String) -> (res: Option<TxAction>)
    ensures
        res == action_named(name@),
{
    if name.eq(&"register".to_string()) {
        Some(TxAction::Register)
    } else if name.eq(&"withdraw".to_string()) {
        Some(TxAction::Withdraw)
    } else {
        None
    }
}

/// Whether an intention is one that the state can judge: for a registration there are gamers to
/// look among, and a withdrawal is refused at once or pays the gamer's balance.
pub open spec fn can_judge(state: ExchangeView, intention: Intention, initiator: Seq<char>) -> bool {
    match action_named(intention.action@) {
        Some(TxAction::Register) => state.game_status != GameStatus::Ended ==> state.game.gamer
            is Some,
        Some(TxAction::Withdraw) => state.withdraw_refusal(
            input_views(intention.input_coins@),
            output_views(intention.output_coins@),
            initiator,
        ) is None ==> state.pays_balance(
            input_views(intention.input_coins@),
            output_views(intention.output_coins@),
            initiator,
        ),
        None => true,
    }
}

/// What an intention is answered: the transition of the pool that it brings about, or why not.
pub open spec fn judged(
    state: ExchangeView,
    txid: Seq<u8>,
    intention: Intention,
    initiator: Seq<char>,
) -> Result<(PoolStateView, UtxoView), ErrorView> {
    let spend = string_views(intention.pool_utxo_spent@);
    let receive = utxo_views(intention.pool_utxo_received@);
    let inputs = input_views(intention.input_coins@);
    let outputs = output_views(intention.output_coins@);
    if action_named(intention.action@) == Some(TxAction::Register) {
        state.register(txid, intention.nonce, spend, receive, inputs, outputs, initiator)
    } else {
        match state.withdraw_refusal(inputs, outputs, initiator) {
            Some(e) => Err(e),
            None => state.pay_out(
                txid,
                intention.nonce,
                spend,
                receive,
                state.game.gamer_at(initiator)->0.cookies,
                initiator,
            ),
        }
    }
}

/// Whether `res` is the plan for an intention.
pub open spec fn is_plan(
    state: ExchangeView,
    txid: Seq<u8>,
    intention: Intention,
    initiator: Seq<char>,
    res: Result<TxPlan, TxError>,
) -> bool {
    match action_named(intention.action@) {
        None => res is Err && res->Err_0@ == TxErrorView::Failed("Unknown action"@),
        Some(action) => match judged(state, txid, intention, initiator) {
            Err(e) => res is Err && res->Err_0@ == TxErrorView::Refused(e),
            Ok((new_state, consumed)) => res is Ok && res->Ok_0@ == (TxPlanView {
                txid,
                action,
                initiator,
                pool_address: intention.pool_address@,
                new_state,
                consumed,
            }),
        },
    }
}

/// Whether an intention is one that the state can judge. [`plan_tx`] is for such an intention
/// only.
pub fn is_judgeable(state: &ExchangeState, intention: &Intention, initiator: &Address) -> (res: bool)
    ensures
        res == can_judge(state@, *intention, initiator@),
{
    match parse_action(&intention.action) {
        Some(TxAction::Register) => state.is_ended() || state.game.gamer.is_some(),
        Some(TxAction::Withdraw) => state.withdraw_is_decided(
            &intention.input_coins,
            &intention.output_coins,
            initiator,
        ),
        None => true,
    }
}

/// Judges an intention: gives what is to be signed and what is to be done then.
pub fn plan_tx(state: &ExchangeState, txid: Txid, intention: Intention, initiator: Address) -> (res:
    Result<TxPlan, TxError>)
    requires
        can_judge(state@, intention, initiator@),
    ensures
        is_plan(state@, txid@, intention, initiator@, res),
{
    let action = match parse_action(&intention.action) {
        Some(action) => action,
        None => {
            return Err(TxError::Failed("Unknown action".to_string()));
        },
    };
    let judgement = match action {
        TxAction::Register => state.validate_register(
            txid,
            intention.nonce,
            intention.pool_utxo_spent,
            intention.pool_utxo_received,
            intention.input_coins,
            intention.output_coins,
            initiator.clone(),
        ),
        TxAction::Withdraw => state.validate_withdraw(
            txid,
            intention.nonce,
            intention.pool_utxo_spent,
            intention.pool_utxo_received,
            intention.input_coins,
            intention.output_coins,
            initiator.clone(),
        ),
    };
    match judgement {
        Ok((new_state, consumed)) => Ok(
            TxPlan {
                txid,
                action,
                initiator,
                pool_address: intention.pool_address,
                new_state,
                consumed,
            },
        ),
        Err(e) => Err(TxError::Refused(e)),
    }
}

/// Whether `res` is the answer to a request to execute a transaction, before it is signed. The
/// text is looked at first. `None` stands for a request that there is no answer to: one whose
/// index is that of no intention, or whose intention the state cannot judge.
pub open spec fn is_prepared(
    state: ExchangeView,
    psbt_hex: Seq<char>,
    txid: Seq<u8>,
    intentions: Seq<Intention>,
    index: u32,
    initiator: Seq<char>,
    res: Option<Result<(Psbt, TxPlan), TxError>>,
) -> bool {
    match psbt_in(psbt_hex) {
        None => res matches Some(Err(e)) && e@ == TxErrorView::Failed("invalid psbt"@),
        Some(psbt) => if index < intentions.len() && can_judge(
            state,
            intentions[index as int],
            initiator,
        ) {
            match res {
                Some(Ok((p, plan))) => p == psbt && is_plan(
                    state,
                    txid,
                    intentions[index as int],
                    initiator,
                    Ok(plan),
                ),
                Some(Err(e)) => is_plan(
                    state,
                    txid,
                    intentions[index as int],
                    initiator,
                    Err(e),
                ),
                None => false,
            }
        } else {
            res is None
        },
    }
}

/// Judges a request to execute a transaction: gives the transaction that is to be signed and what
/// is to be done then.
pub fn prepare_tx(
    state: &ExchangeState,
    psbt_hex: &String,
    txid: Txid,
    intentions: Vec<Intention>,
    index: u32,
    initiator: Address,
) -> (res: Option<Result<(Psbt, TxPlan), TxError>>)
    ensures
        is_prepared(state@, psbt_hex@, txid@, intentions@, index, initiator@, res),
{
    let psbt = match decode_psbt(psbt_hex) {
        Ok(psbt) => psbt,
        Err(e) => {
            return Some(Err(e));
        },
    };
    if index as usize >= intentions.len() {
        return None;
    }
    let mut intentions = intentions;
    let intention = intentions.swap_remove(index as usize);
    if !is_judgeable(state, &intention, &initiator) {
        return None;
    }
    match plan_tx(state, txid, intention, initiator) {
        Ok(plan) => Some(Ok((psbt, plan))),
        Err(e) => Some(Err(e)),
    }
}

/// What carrying out a signed transaction makes of the exchange, and what it returns.
pub open spec fn carried_out(state: ExchangeView, plan: TxPlanView) -> (
    ExchangeView,
    Result<(), ErrorView>,
) {
    let states = state.states.push(plan.new_state);
    match plan.action {
        TxAction::Register => (
            ExchangeView {
                states,
                game: state.game.with_gamer(plan.initiator, new_gamer(plan.initiator)),
                game_status: GameStatus::Play,
                ..state
            },
            Ok(()),
        ),
        TxAction::Withdraw => {
            let (game, res) = state.game.withdraw(plan.initiator);
            (
                ExchangeView { states, game, ..state },
                match res {
                    Ok(_) => Ok(()),
                    Err(e) => Err(e),
                },
            )
        },
    }
}

/// The records after a transaction on `pool` was executed: the one from its execution lists the
/// pool.
pub open spec fn recorded(
    records: Map<(Seq<u8>, bool), Seq<Seq<char>>>,
    txid: Seq<u8>,
    pool: Seq<char>,
) -> Map<(Seq<u8>, bool), Seq<Seq<char>>> {
    let pools = if records.contains_key((txid, false)) {
        records[(txid, false)]
    } else {
        Seq::empty()
    };
    records.insert(
        (txid, false),
        if pools.contains(pool) {
            pools
        } else {
            pools.push(pool)
        },
    )
}

/// A pool is listed if and only if it is listed at least once.
pub(crate) proof fn lemma_times_listed(pools: Seq<Seq<char>>, pool: Seq<char>)
    ensures
        times_listed(pools, pool) > 0 <==> pools.contains(pool),
    decreases pools.len(),
{
    if pools.len() > 0 {
        let rest = pools.drop_last();
        lemma_times_listed(rest, pool);
        if rest.contains(pool) {
            let j = choose|j: int| 0 <= j < rest.len() && rest[j] == pool;
            assert(pools[j] == pool);
        }
        if pools.contains(pool) && pools.last() != pool {
            let j = choose|j: int| 0 <= j < pools.len() && pools[j] == pool;
            assert(rest[j] == pool);
        }
        if pools.last() == pool {
            assert(pools[pools.len() - 1] == pool);
        }
    }
}

/// Whether there is room to note that a transaction on `pool` was executed: the record that lists
/// the pool can be stored.
pub open spec fn has_room(
    records: Map<(Seq<u8>, bool), Seq<Seq<char>>>,
    txid: Seq<u8>,
    pool: Seq<char>,
) -> bool {
    record_fits(recorded(records, txid, pool)[(txid, false)])
}

/// The record of a transaction from its execution, with `pool` on it.
fn record_with(records: &TxRecordStore, txid: &Txid, pool: &Address) -> (res: TxRecord)
    ensures
        res@ == recorded(records@, txid@, pool@)[(txid@, false)],
{
    let mut record = match records.get(txid, false) {
        Some(record) => record,
        None => TxRecord { pools: Vec::new() },
    };
    let ghost pools = record@;
    assert(!records@.contains_key((txid@, false)) ==> pools =~= Seq::empty());
    proof {
        lemma_times_listed(pools, pool@);
    }
    if count_listed(&record.pools, pool) == 0 {
        record.pools.push(pool.clone());
        assert(record@ =~= pools.push(pool@));
    }
    record
}

/// Whether there is room to note that a transaction on `pool` was executed. [`record_tx`] and
/// [`execute_tx`] are for such a transaction only.
pub fn record_has_room(records: &TxRecordStore, txid: &Txid, pool: &Address) -> (res: bool)
    ensures
        res == has_room(records@, txid@, pool@),
{
    record_with(records, txid, pool).fits()
}

/// Notes that a transaction on `pool` was executed.
pub fn record_tx(records: &mut TxRecordStore, txid: &Txid, pool: &Address)
    requires
        has_room(old(records)@, txid@, pool@),
    ensures
        final(records)@ == recorded(old(records)@, txid@, pool@),
{
    let record = record_with(records, txid, pool);
    records.insert(txid, false, record);
}

/// The content of the answer to a request to execute a transaction.
pub open spec fn tx_answer(res: Result<String, TxError>) -> Result<Seq<char>, TxErrorView> {
    match res {
        Ok(hex) => Ok(hex@),
        Err(e) => Err(e@),
    }
}

/// Whether a plan, for which the signature was asked with the outcome `signed`, has made `after` of
/// the exchange and `noted` of the records, with the answer `res`.
pub open spec fn is_executed(
    state: ExchangeView,
    records: Map<(Seq<u8>, bool), Seq<Seq<char>>>,
    plan: TxPlanView,
    signed: Result<Psbt, String>,
    after: ExchangeView,
    noted: Map<(Seq<u8>, bool), Seq<Seq<char>>>,
    res: Result<Seq<char>, TxErrorView>,
) -> bool {
    match signed {
        Err(e) => {
            &&& res is Err && res->Err_0 == TxErrorView::Failed(e@)
            &&& after == state
            &&& noted == records
        },
        Ok(psbt) => {
            &&& after == carried_out(state, plan).0
            &&& match carried_out(state, plan).1 {
                Ok(_) => {
                    &&& res is Ok && res->Ok_0 == psbt_hex(psbt)
                    &&& noted == recorded(records, plan.txid, plan.pool_address)
                },
                Err(e) => {
                    &&& res is Err && res->Err_0 == TxErrorView::Refused(e)
                    &&& noted == records
                },
            }
        },
    }
}

/// Carries out a transaction for which the pool's signature was asked: `signed` is the signed
/// transaction, or why there is none. Gives the signed transaction in hex.
pub fn execute_tx(
    state: &mut ExchangeState,
    records: &mut TxRecordStore,
    plan: TxPlan,
    signed: Result<Psbt, String>,
) -> (res: Result<String, TxError>)
    requires
        signed is Ok && carried_out(old(state)@, plan@).1 is Ok ==> has_room(
            old(records)@,
            plan@.txid,
            plan@.pool_address,
        ),
    ensures
        is_executed(
            old(state)@,
            old(records)@,
            plan@,
            signed,
            final(state)@,
            final(records)@,
            tx_answer(res),
        ),
{
    let psbt = match signed {
        Ok(psbt) => psbt,
        Err(e) => {
            return Err(TxError::Failed(e));
        },
    };
    match plan.action {
        TxAction::Register => {
            state.game.register_new_gamer(plan.initiator);
            state.game_status = GameStatus::Play;
            state.commit(plan.new_state);
        },
        TxAction::Withdraw => {
            state.commit(plan.new_state);
            match state.game.withdraw(plan.initiator) {
                Ok(_) => {},
                Err(e) => {
                    return Err(TxError::Refused(e));
                },
            }
        },
    }
    record_tx(records, &plan.txid, &plan.pool_address);
    Ok(serialize_psbt(&psbt))
}

/// The pools that the latest record of a transaction lists, if it has one.
pub open spec fn latest_record(
    records: Map<(Seq<u8>, bool), Seq<Seq<char>>>,
    txid: Seq<u8>,
) -> Option<Seq<Seq<char>>> {
    if records.contains_key((txid, true)) {
        Some(records[(txid, true)])
    } else if records.contains_key((txid, false)) {
        Some(records[(txid, false)])
    } else {
        None
    }
}

/// What rolling a transaction back `n` times makes of a chain of pool states and of the game, or
/// the error of the first time that fails.
pub open spec fn rolled_back_times(
    states: Seq<PoolStateView>,
    game: GameView,
    txid: Seq<u8>,
    n: nat,
) -> Result<(Seq<PoolStateView>, GameView), ErrorView>
    decreases n,
{
    if n == 0 {
        Ok((states, game))
    } else {
        match rolled_back(states, game, txid) {
            (left, before, Ok(_)) => rolled_back_times(left, before, txid, (n - 1) as nat),
            (_, _, Err(e)) => Err(e),
        }
    }
}

/// Why a transaction is not rolled back.
#[derive(Debug, PartialEq, Eq)]
pub enum RollbackError {
    /// The transaction has no record.
    NoRecord,
    /// The chain of pool states or the gamers do not allow it.
    Refused(ExchangeError),
}

/// The content of a [`RollbackError`].
pub enum RollbackErrorView {
    NoRecord,
    Refused(ErrorView),
}

impl View for RollbackError {
    type V = RollbackErrorView;

    open spec fn view(&self) -> RollbackErrorView {
        match self {
            RollbackError::NoRecord => RollbackErrorView::NoRecord,
            RollbackError::Refused(e) => RollbackErrorView::Refused(e@),
        }
    }
}

/// What rolling a transaction back makes of the chain of pool states and of the game, or why it is
/// not done. It is done once for each time that the latest record of the transaction lists the
/// pool.
pub open spec fn tx_rolled_back(
    state: ExchangeView,
    records: Map<(Seq<u8>, bool), Seq<Seq<char>>>,
    txid: Seq<u8>,
) -> Result<(Seq<PoolStateView>, GameView), RollbackErrorView> {
    match latest_record(records, txid) {
        None => Err(RollbackErrorView::NoRecord),
        Some(pools) => match rolled_back_times(
            state.states,
            state.game,
            txid,
            times_listed(pools, state.address),
        ) {
            Ok(before) => Ok(before),
            Err(e) => Err(RollbackErrorView::Refused(e)),
        },
    }
}

/// Whether rolling a transaction back has made `after` of the exchange and `left` of the records,
/// with the outcome `res`.
pub open spec fn is_rolled_back(
    state: ExchangeView,
    records: Map<(Seq<u8>, bool), Seq<Seq<char>>>,
    txid: Seq<u8>,
    after: ExchangeView,
    left: Map<(Seq<u8>, bool), Seq<Seq<char>>>,
    res: Result<(), RollbackErrorView>,
) -> bool {
    match tx_rolled_back(state, records, txid) {
        Ok((states, game)) => {
            &&& res is Ok
            &&& after == (ExchangeView { states, game, ..state })
            &&& left == records.remove((txid, false)).remove((txid, true))
        },
        Err(e) => {
            &&& res is Err && res->Err_0 == e
            &&& after == state
            &&& left == records
        },
    }
}

/// The content of the outcome of a rollback.
pub open spec fn rollback_outcome(res: Result<(), RollbackError>) -> Result<
    (),
    RollbackErrorView,
> {
    match res {
        Ok(_) => Ok(()),
        Err(e) => Err(e@),
    }
}

/// Undoes a transaction and all that came after it, and forgets its records: the chain of pool
/// states is shortened, and what was done to the gamers is undone. Changes nothing, and gives the
/// error, if it cannot be done.
pub fn try_rollback_tx(state: &mut ExchangeState, records: &mut TxRecordStore, txid: &Txid) -> (res:
    Result<(), RollbackError>)
    ensures
        is_rolled_back(
            old(state)@,
            old(records)@,
            txid@,
            final(state)@,
            final(records)@,
            rollback_outcome(res),
        ),
{
    let record = match records.get(txid, true) {
        Some(record) => record,
        None => match records.get(txid, false) {
            Some(record) => record,
            None => {
                return Err(RollbackError::NoRecord);
            },
        },
    };
    let n: usize = count_listed(&record.pools, &state.address);
    let states = copy_states(&state.states);
    let game = state.game.clone();
    let mut i: usize = 0;
    while i < n
        invariant
            i <= n,
            state_views(states@) == old(state)@.states,
            game@ == old(state)@.game,
            rolled_back_times(state@.states, state@.game, txid@, (n - i) as nat)
                == rolled_back_times(old(state)@.states, old(state)@.game, txid@, n as nat),
            state@ == (ExchangeView { states: state@.states, game: state@.game, ..old(state)@ }),
            records@ == old(records)@,
            latest_record(old(records)@, txid@) is Some,
            n == times_listed(latest_record(old(records)@, txid@)->0, old(state)@.address),
        decreases n - i,
    {
        match state.rollback(*txid) {
            Ok(()) => {},
            Err(e) => {
                state.states = states;
                state.game = game;
                return Err(RollbackError::Refused(e));
            },
        }
        i += 1;
    }
    records.remove(txid, false);
    records.remove(txid, true);
    Ok(())
}

/// Undoes a transaction and all that came after it, and forgets its records: the chain of pool
/// states is shortened, and what was done to the gamers is undone.
pub fn rollback_tx(state: &mut ExchangeState, records: &mut TxRecordStore, txid: &Txid)
    requires
        tx_rolled_back(old(state)@, old(records)@, txid@) is Ok,
    ensures
        is_rolled_back(
            old(state)@,
            old(records)@,
            txid@,
            final(state)@,
            final(records)@,
            Ok(()),
        ),
{
    let _ = try_rollback_tx(state, records, txid);
}

} // verus!
