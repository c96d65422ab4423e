//! What a transaction is accepted for, and what the exchange tells those who build one.

use vstd::prelude::*;
use vstd::utf8::encode_utf8;
use ree_types::bitcoin::Psbt;
use crate::coin::{
    coin_id_text, first_value, input_views, output_views, pool_rune, CoinBalance, CoinId,
    InputCoinView, OutputCoinView,
};
use crate::errors::ErrorView;
use crate::exchange::{
    byte_views, guards_the_orchestrator, is_game_and_gamer, is_pool_info, is_pool_list,
    is_register_info, new_exchange, pool_key_path, GameAndGamer, PoolBasic, PoolInfo, RegisterInfo,
};
use crate::game::GameView;
use crate::laws::claims::knows;
use crate::laws::records::law_execution_is_recorded;
use crate::state::{
    coins_message, utxo_views, ExchangeView, GameStatus, PoolStateView, UserActionView,
};
use crate::text::{decimal, hex_bytes, is_hex_text, string_views, strings_debug};
use crate::tx::{
    can_judge, carried_out, is_executed, is_plan, is_prepared, judged, psbt_hex, psbt_of, Intention,
    TxAction, TxError, TxErrorView, TxPlan, TxPlanView,
};
use crate::utxo::{outpoint_text, utxo_debug, utxo_opt_view, UtxoView};

verus! {

/// Whether the last pool state is one that a request with this nonce can build on, by spending its
/// output: the last of the outputs that the request names, where `only` is false, and the only one
/// where it is true.
pub open spec fn builds_on_the_tip(
    states: Seq<PoolStateView>,
    nonce: u64,
    spend: Seq<Seq<char>>,
    only: bool,
) -> bool {
    &&& states.len() > 0
    &&& states[states.len() - 1].nonce == nonce
    &&& nonce < u64::MAX
    &&& states[states.len() - 1].utxo is Some
    &&& spend.len() > 0
    &&& only ==> spend.len() == 1
    &&& spend[spend.len() - 1] == outpoint_text(
        states[states.len() - 1].utxo->0.txid,
        states[states.len() - 1].utxo->0.vout,
    )
}

/// A registration is accepted if and only if the game is not over, the address is new, exactly one
/// amount comes in, in BTC and above the register fee, nothing goes out, it builds on the last pool
/// state, and gives an output for the pool; the sums must fit. Nothing else decides. The pool state
/// that it brings about has the transaction's id, the next nonce, and the last of the outputs given
/// for the pool, which carries the coins of the output spent, and its sats and the fee.
pub proof fn law_registration_is_accepted(
    state: ExchangeView,
    txid: Seq<u8>,
    nonce: u64,
    spend: Seq<Seq<char>>,
    receive: Seq<UtxoView>,
    inputs: Seq<InputCoinView>,
    outputs: Seq<OutputCoinView>,
    address: Seq<char>,
)
    ensures
        ({
            let res = state.register(txid, nonce, spend, receive, inputs, outputs, address);
            let tip = state.states[state.states.len() - 1].utxo->0;
            &&& res is Ok <==> {
                &&& state.game_status != GameStatus::Ended
                &&& !knows(state.game, address)
                &&& inputs.len() == 1
                &&& inputs[0].coin.id.block == 0
                &&& inputs[0].coin.id.tx == 0
                &&& inputs[0].coin.value > state.game.gamer_register_fee
                &&& outputs.len() == 0
                &&& builds_on_the_tip(state.states, nonce, spend, false)
                &&& receive.len() > 0
                &&& tip.sats + state.game.gamer_register_fee <= u64::MAX
            }
            &&& res matches Ok((new, consumed)) ==> {
                &&& consumed == tip
                &&& new.id == Some(txid)
                &&& new.nonce == nonce + 1
                &&& new.user_action == UserActionView::Register(address)
                &&& new.utxo is Some
                &&& new.utxo->0.txid == receive[receive.len() - 1].txid
                &&& new.utxo->0.vout == receive[receive.len() - 1].vout
                &&& new.utxo->0.coins == tip.coins
                &&& new.utxo->0.sats == tip.sats + state.game.gamer_register_fee
            }
        }),
{
}

/// A registration is refused for the first of these that holds: the game is over; the address is
/// known; the coins are not those of a registration; there is no pool state; it was made for
/// another nonce than that of the last pool state, which it tells; that state has no output; it
/// names no output that it spends, or last another one than the pool's; it gives no output for the
/// pool; a sum does not fit.
pub proof fn law_registration_is_refused(
    state: ExchangeView,
    txid: Seq<u8>,
    nonce: u64,
    spend: Seq<Seq<char>>,
    receive: Seq<UtxoView>,
    inputs: Seq<InputCoinView>,
    outputs: Seq<OutputCoinView>,
    address: Seq<char>,
)
    ensures
        ({
            let res = state.register(txid, nonce, spend, receive, inputs, outputs, address);
            let over = state.game_status == GameStatus::Ended;
            let known = knows(state.game, address);
            let pays = inputs.len() == 1 && outputs.len() == 0 && inputs[0].coin.id == (CoinId {
                block: 0,
                tx: 0,
            }) && inputs[0].coin.value > state.game.gamer_register_fee;
            let last = state.states[state.states.len() - 1];
            &&& over ==> res is Err && res->Err_0 == ErrorView::GameEnd
            &&& !over && known ==> res is Err && res->Err_0 == ErrorView::GamerAlreadyExist(address)
            &&& !over && !known && !pays ==> res is Err && res->Err_0
                == ErrorView::InvalidSignPsbtArgs(coins_message(inputs, outputs))
            &&& !over && !known && pays && state.states.len() == 0 ==> res is Err && res->Err_0
                == ErrorView::LastStateNotFound
            &&& !over && !known && pays && state.states.len() > 0 && last.nonce != nonce ==> res
                is Err && res->Err_0 == ErrorView::PoolStateExpired(last.nonce)
            &&& !over && !known && pays && state.states.len() > 0 && last.nonce == nonce
                && last.utxo is None ==> res is Err && res->Err_0 == ErrorView::LastStateNotFound
            &&& !over && !known && pays && state.states.len() > 0 && last.nonce == nonce
                && last.utxo is Some && spend.len() == 0 ==> res is Err && res->Err_0
                == ErrorView::InvalidSignPsbtArgs("pool_utxo_spend is empty"@)
            &&& !over && !known && pays && state.states.len() > 0 && last.nonce == nonce
                && last.utxo is Some && spend.len() > 0 && spend[spend.len() - 1] != outpoint_text(
                last.utxo->0.txid,
                last.utxo->0.vout,
            ) ==> res is Err && res->Err_0 == ErrorView::InvalidSignPsbtArgs(
                "pool_utxo_spend: "@ + strings_debug(spend) + ", last_state_utxo: "@ + utxo_debug(
                    last.utxo,
                ),
            )
            &&& !over && !known && pays && builds_on_the_tip(state.states, nonce, spend, false)
                && receive.len() == 0 ==> res is Err && res->Err_0
                == ErrorView::InvalidSignPsbtArgs("pool_utxo_receive not found"@)
            &&& !over && !known && pays && builds_on_the_tip(state.states, nonce, spend, false)
                && receive.len() > 0 && res is Err ==> res->Err_0 == ErrorView::Overflow
        }),
{
}

/// How much a registration pays above the fee, and every rule of the game but the fee, leave the
/// answer as it is: two exchanges that agree on the chain, on the fee, on whether the game is over
/// and on whether the address is known answer two registrations alike that differ in the amounts
/// above the fee alone.
pub proof fn law_registration_goes_by_the_fee(
    one: ExchangeView,
    other: ExchangeView,
    txid: Seq<u8>,
    nonce: u64,
    spend: Seq<Seq<char>>,
    receive: Seq<UtxoView>,
    inputs: Seq<InputCoinView>,
    more: Seq<InputCoinView>,
    outputs: Seq<OutputCoinView>,
    address: Seq<char>,
)
    requires
        one.states == other.states,
        one.game.gamer_register_fee == other.game.gamer_register_fee,
        (one.game_status == GameStatus::Ended) == (other.game_status == GameStatus::Ended),
        knows(one.game, address) == knows(other.game, address),
        inputs.len() == 1,
        more.len() == 1,
        inputs[0].coin.id == more[0].coin.id,
        inputs[0].coin.value > one.game.gamer_register_fee,
        more[0].coin.value > one.game.gamer_register_fee,
    ensures
        ({
            let a = one.register(txid, nonce, spend, receive, inputs, outputs, address);
            let b = other.register(txid, nonce, spend, receive, more, outputs, address);
            &&& a is Ok == b is Ok
            &&& a is Ok ==> a == b
        }),
{
}

/// A withdrawal is refused at once if and only if the game is over, the gamer is not known, or it
/// is not one of two coins going out and none coming in; for the first of these reasons.
pub proof fn law_withdrawal_is_refused(
    state: ExchangeView,
    inputs: Seq<InputCoinView>,
    outputs: Seq<OutputCoinView>,
    initiator: Seq<char>,
)
    ensures
        ({
            let over = state.game_status == GameStatus::Ended;
            let known = knows(state.game, initiator);
            let res = state.withdraw_refusal(inputs, outputs, initiator);
            &&& res is None <==> !over && known && inputs.len() == 0 && outputs.len() == 2
            &&& over ==> res == Some(ErrorView::GameEnd)
            &&& !over && !known ==> res == Some(ErrorView::GamerNotFound(initiator))
            &&& !over && known && res is Some ==> res == Some(
                ErrorView::InvalidSignPsbtArgs(coins_message(inputs, outputs)),
            )
        }),
{
}

/// A payment out of the pool is accepted if and only if it builds on the last pool state, spends
/// its output and no other, gives an output for the pool, and the pool's rune, counted where it
/// first stands in the output spent, covers it. The pool state that it brings about has the
/// transaction's id, the next nonce, and the first of the outputs given for the pool, with the sats
/// of the output spent and no coins.
pub proof fn law_payment_is_accepted(
    state: ExchangeView,
    txid: Seq<u8>,
    nonce: u64,
    spend: Seq<Seq<char>>,
    receive: Seq<UtxoView>,
    cookies: u128,
    initiator: Seq<char>,
    i: int,
)
    requires
        state.states.len() > 0 && state.states.last().utxo is Some ==> first_stands_at(
            state.states.last().utxo->0.coins,
            CoinId { block: 840000, tx: 846 },
            i,
        ),
    ensures
        ({
            let res = state.pay_out(txid, nonce, spend, receive, cookies, initiator);
            let tip = state.states[state.states.len() - 1].utxo->0;
            &&& res is Ok <==> {
                &&& builds_on_the_tip(state.states, nonce, spend, true)
                &&& receive.len() > 0
                &&& i < tip.coins.len()
                &&& cookies <= tip.coins[i].value
            }
            &&& res matches Ok((new, consumed)) ==> {
                &&& consumed == tip
                &&& new.id == Some(txid)
                &&& new.nonce == nonce + 1
                &&& new.user_action == UserActionView::Withdraw(initiator)
                &&& new.utxo is Some
                &&& new.utxo->0.txid == receive[0].txid
                &&& new.utxo->0.vout == receive[0].vout
                &&& new.utxo->0.sats == tip.sats
                &&& new.utxo->0.coins.len() == 0
            }
            &&& state.states.len() == 0 ==> res is Err && res->Err_0 == ErrorView::LastStateNotFound
            &&& state.states.len() > 0 && state.states.last().nonce != nonce ==> res is Err
                && res->Err_0 == ErrorView::PoolStateExpired(state.states.last().nonce)
        }),
{
    if state.states.len() > 0 && state.states.last().utxo is Some {
        law_first_value_is_the_first(
            state.states.last().utxo->0.coins,
            CoinId { block: 840000, tx: 846 },
            i,
        );
    }
}

/// Whether place `i` is the first at which the coin stands in the list, or the list's length where
/// it stands nowhere.
pub open spec fn first_stands_at(coins: Seq<CoinBalance>, id: CoinId, i: int) -> bool {
    &&& 0 <= i <= coins.len()
    &&& i < coins.len() ==> coins[i].id == id
    &&& forall|j: int| 0 <= j < i ==> (#[trigger] coins[j]).id != id
}

/// The balance of a coin is the one at the first place at which the coin stands; a list in which it
/// stands nowhere has none.
pub proof fn law_first_value_is_the_first(coins: Seq<CoinBalance>, id: CoinId, i: int)
    requires
        first_stands_at(coins, id, i),
    ensures
        i < coins.len() ==> first_value(coins, id) == Some(coins[i].value),
        i == coins.len() ==> first_value(coins, id) is None,
    decreases coins.len(),
{
    if coins.len() > 0 && coins[0].id != id {
        let rest = coins.drop_first();
        assert(forall|j: int| 0 <= j < rest.len() ==> rest[j] == coins[j + 1]);
        law_first_value_is_the_first(rest, id, i - 1);
    } else if coins.len() > 0 {
        assert(i == 0);
    }
}

/// Every request can be judged but these: a registration while the game is not over and nobody has
/// ever been let in, and a withdrawal of a known gamer, while the game is not over, of two coins
/// going out and none coming in.
pub proof fn law_requests_are_judged(
    state: ExchangeView,
    intention: Intention,
    initiator: Seq<char>,
)
    ensures
        can_judge(state, intention, initiator) <==> {
            &&& intention.action@ == "register"@ ==> state.game_status == GameStatus::Ended
                || state.game.gamer is Some
            &&& intention.action@ != "register"@ && intention.action@ == "withdraw"@
                ==> state.game_status == GameStatus::Ended || !knows(state.game, initiator)
                || intention.input_coins@.len() != 0 || intention.output_coins@.len() != 2
        },
{
}

/// A plan is for the request that it was made of, and names its transaction, its initiator and its
/// pool. Only a request to register that is accepted has one; it then releases the output of the
/// last pool state, and is what the registration brings about. A request by another name than
/// `register` and `withdraw` is refused as unknown.
pub proof fn law_plan_is_of_the_request(
    state: ExchangeView,
    txid: Seq<u8>,
    intention: Intention,
    initiator: Seq<char>,
    res: Result<TxPlan, TxError>,
)
    requires
        can_judge(state, intention, initiator),
        is_plan(state, txid, intention, initiator, res),
    ensures
        res matches Ok(plan) ==> {
            &&& intention.action@ == "register"@
            &&& plan@.action == TxAction::Register
            &&& plan@.txid == txid
            &&& plan@.initiator == initiator
            &&& plan@.pool_address == intention.pool_address@
            &&& plan@.new_state.id == Some(txid)
            &&& plan@.new_state.nonce == intention.nonce + 1
            &&& plan@.new_state.user_action == UserActionView::Register(initiator)
            &&& state.states[state.states.len() - 1].utxo == Some(plan@.consumed)
        },
        intention.action@ == "register"@ ==> (res is Ok <==> state.register(
            txid,
            intention.nonce,
            string_views(intention.pool_utxo_spent@),
            utxo_views(intention.pool_utxo_received@),
            input_views(intention.input_coins@),
            output_views(intention.output_coins@),
            initiator,
        ) is Ok),
        intention.action@ != "register"@ && intention.action@ != "withdraw"@ ==> res is Err
            && res->Err_0@ == TxErrorView::Failed("Unknown action"@),
{
}

/// A request is answered by the transaction in its text and the intention at its index: a text that
/// holds no transaction is refused as such, whatever else; otherwise there is an answer if and only
/// if the index is that of an intention that can be judged, and a transaction to sign is the one in
/// the text, with a plan for that intention.
pub proof fn law_request_is_prepared(
    state: ExchangeView,
    psbt_hex: Seq<char>,
    txid: Seq<u8>,
    intentions: Seq<Intention>,
    index: u32,
    initiator: Seq<char>,
    res: Option<Result<(Psbt, TxPlan), TxError>>,
)
    requires
        is_prepared(state, psbt_hex, txid, intentions, index, initiator, res),
    ensures
        ({
            let holds = is_hex_text(psbt_hex) && psbt_of(hex_bytes(psbt_hex)) is Some;
            &&& !holds ==> (res matches Some(Err(e)) && e@ == TxErrorView::Failed("invalid psbt"@))
            &&& holds ==> (res is Some <==> index < intentions.len() && can_judge(
                state,
                intentions[index as int],
                initiator,
            ))
            &&& res matches Some(Ok((psbt, plan))) ==> {
                &&& Some(psbt) == psbt_of(hex_bytes(psbt_hex))
                &&& plan@.txid == txid
                &&& plan@.initiator == initiator
                &&& plan@.pool_address == intentions[index as int].pool_address@
                &&& state.states[state.states.len() - 1].utxo == Some(plan@.consumed)
            }
            &&& holds && index < intentions.len() && intentions[index as int].action@
                == "register"@ && can_judge(state, intentions[index as int], initiator) ==> (
            res->0 is Ok <==> judged(state, txid, intentions[index as int], initiator) is Ok)
        }),
{
    match res {
        Some(Ok((psbt, plan))) => {
            law_plan_is_of_the_request(
                state,
                txid,
                intentions[index as int],
                initiator,
                Ok(plan),
            );
        },
        _ => {},
    }
}

/// Carrying out a registration adds its pool state to the chain, lets its initiator in with
/// nothing, and has the game played; carrying out a withdrawal adds its pool state and withdraws for
/// its initiator. Neither changes anything else.
pub proof fn law_plans_are_carried_out(state: ExchangeView, plan: TxPlanView)
    ensures
        ({
            let (after, res) = carried_out(state, plan);
            &&& after.states == state.states.push(plan.new_state)
            &&& after.key == state.key
            &&& after.address == state.address
            &&& after.ii_canister == state.ii_canister
            &&& after.orchestrator == state.orchestrator
            &&& after.address_principal_map == state.address_principal_map
            &&& plan.action == TxAction::Register ==> {
                &&& res is Ok
                &&& after.game_status == GameStatus::Play
                &&& after.game == (GameView { gamer: after.game.gamer, ..state.game })
                &&& knows(after.game, plan.initiator)
                &&& after.game.gamer->0[plan.initiator].address == plan.initiator
                &&& after.game.gamer->0[plan.initiator].cookies == 0
                &&& after.game.gamer->0[plan.initiator].last_click_time == 0
                &&& !after.game.gamer->0[plan.initiator].is_withdrawn
                &&& forall|other: Seq<char>|
                    other != plan.initiator ==> #[trigger] knows(after.game, other) == knows(
                        state.game,
                        other,
                    ) && (knows(state.game, other) ==> after.game.gamer->0[other]
                        == state.game.gamer->0[other])
            }
            &&& plan.action == TxAction::Withdraw ==> {
                &&& after.game_status == state.game_status
                &&& after.game == state.game.withdraw(plan.initiator).0
                &&& res is Ok <==> state.game.withdraw(plan.initiator).1 is Ok
                &&& res is Err ==> res->Err_0 == state.game.withdraw(plan.initiator).1->Err_0
            }
        }),
{
}

/// A plan is carried out with the outcome of its signature: without one nothing changes, and the
/// answer is the reason; a registration that is signed gives the signed transaction in hex, adds its
/// pool state to the chain, lets its initiator in, and puts the pool on its record from the
/// execution, and on no other; a withdrawal that is signed and refused after all leaves the records
/// as they were.
pub proof fn law_execution_goes_by_the_signature(
    state: ExchangeView,
    records: Map<(Seq<u8>, bool), Seq<Seq<char>>>,
    plan: TxPlanView,
    signed: Result<Psbt, String>,
    after: ExchangeView,
    noted: Map<(Seq<u8>, bool), Seq<Seq<char>>>,
    res: Result<Seq<char>, TxErrorView>,
)
    requires
        is_executed(state, records, plan, signed, after, noted, res),
    ensures
        signed matches Err(e) ==> {
            &&& res is Err
            &&& res->Err_0 == TxErrorView::Failed(e@)
            &&& after == state
            &&& noted == records
        },
        signed matches Ok(psbt) ==> {
            &&& after.states == state.states.push(plan.new_state)
            &&& after.key == state.key
            &&& after.address == state.address
            &&& after.ii_canister == state.ii_canister
            &&& after.orchestrator == state.orchestrator
            &&& after.address_principal_map == state.address_principal_map
            &&& plan.action == TxAction::Register ==> res is Ok && knows(
                after.game,
                plan.initiator,
            ) && after.game.gamer->0[plan.initiator].cookies == 0 && after.game_status
                == GameStatus::Play
            &&& plan.action == TxAction::Withdraw ==> {
                let g = state.game.gamer->0[plan.initiator];
                &&& res is Ok <==> knows(state.game, plan.initiator) && state.game.is_end
                    && !g.is_withdrawn
                &&& res is Ok ==> after.game.gamer->0[plan.initiator].is_withdrawn
                &&& res is Err ==> after.game == state.game && (res->Err_0 is Refused)
                &&& after.game_status == state.game_status
            }
            &&& res is Ok ==> {
                &&& res->Ok_0 == psbt_hex(psbt)
                &&& noted.contains_key((plan.txid, false))
                &&& noted[(plan.txid, false)].contains(plan.pool_address)
                &&& records.contains_key((plan.txid, false))
                    ==> records[(plan.txid, false)].is_prefix_of(noted[(plan.txid, false)])
                &&& noted.remove((plan.txid, false)) == records.remove((plan.txid, false))
            }
            &&& res is Err ==> noted == records
        },
{
    if signed is Ok {
        law_execution_is_recorded(records, plan.txid, plan.pool_address);
        if res is Ok && records.contains_key((plan.txid, false)) {
            let before = records[(plan.txid, false)];
            assert(before.is_prefix_of(noted[(plan.txid, false)]));
        }
    }
}

/// Only the orchestrator is let through.
pub proof fn law_only_the_orchestrator_is_let_through(
    res: Result<(), String>,
    state: ExchangeView,
    caller: Seq<u8>,
)
    requires
        guards_the_orchestrator(res, state, caller),
    ensures
        caller == state.orchestrator ==> res is Ok,
        caller != state.orchestrator ==> res is Err && res->Err_0@ == "Access denied"@,
{
}

/// The pool that the exchange lists is the one that it answers about.
pub proof fn law_listed_pool_is_answered(
    list: Seq<PoolBasic>,
    state: ExchangeView,
    info: Option<PoolInfo>,
)
    requires
        is_pool_list(list, state),
        is_pool_info(info, state, list[0].address@),
    ensures
        list.len() == 1,
        list[0].name@ == "REE_COOKIE"@,
        list[0].address@ == state.address,
        info is Some <==> state.states.len() > 0,
{
}

/// What the exchange tells of its pool is what the pool is in its last state; it tells it of its
/// own address, once there is a state, and of no other.
pub proof fn law_pool_info_is_of_the_last_state(
    res: Option<PoolInfo>,
    state: ExchangeView,
    pool_address: Seq<char>,
    i: int,
)
    requires
        is_pool_info(res, state, pool_address),
        state.states.len() > 0 && state.states.last().utxo is Some ==> first_stands_at(
            state.states.last().utxo->0.coins,
            CoinId { block: 840000, tx: 846 },
            i,
        ),
    ensures
        res is Some <==> state.states.len() > 0 && state.address == pool_address,
        res matches Some(info) ==> {
            let last = state.states[state.states.len() - 1];
            &&& info.nonce == last.nonce
            &&& info.key@ == state.key
            &&& info.address@ == pool_address
            &&& info.utxos@.len() == (if last.utxo is Some { 1int } else { 0 })
            &&& last.utxo is Some ==> info.utxos@[0]@ == last.utxo->0 && info.btc_reserved
                == last.utxo->0.sats
            &&& last.utxo is None ==> info.btc_reserved == 0
            &&& info.coin_reserved@.len() == 1
            &&& info.coin_reserved@[0].id == (CoinId { block: 840000, tx: 846 })
            &&& last.utxo is None || i == last.utxo->0.coins.len() ==> info.coin_reserved@[0].value
                == 0
            &&& last.utxo is Some && i < last.utxo->0.coins.len() ==> info.coin_reserved@[0].value
                == last.utxo->0.coins[i].value
            &&& info.name@ == "HOPE\u{2022}YOU\u{2022}GET\u{2022}RICH"@
            &&& info.attributes@ == ""@
            &&& info.key_derivation_path@.len() == 1
            &&& info.key_derivation_path@[0]@ == encode_utf8("840000:846"@)
        },
{
    law_key_path_is_the_rune();
    match res {
        Some(info) => {
            let last = state.states.last();
            if last.utxo is Some {
                law_first_value_is_the_first(
                    last.utxo->0.coins,
                    CoinId { block: 840000, tx: 846 },
                    i,
                );
                assert(utxo_views(info.utxos@)[0] == last.utxo->0);
            }
            assert(utxo_views(info.utxos@).len() == info.utxos@.len());
            let path = info.key_derivation_path@;
            assert(byte_views(path).len() == path.len());
            assert(byte_views(path)[0] == path[0]@);
        },
        None => {},
    }
}

/// The path along which the pool's key is derived is the written form of the pool's rune.
pub proof fn law_key_path_is_the_rune()
    ensures
        pool_key_path() == seq![encode_utf8("840000:846"@)],
{
    reveal_strlit("840000:846");
    reveal_with_fuel(decimal, 7);
    assert(decimal(840000) =~= seq!['8', '4', '0', '0', '0', '0']);
    assert(decimal(846) =~= seq!['8', '4', '6']);
    assert(coin_id_text(pool_rune()) =~= "840000:846"@);
}

/// What the exchange tells one who wants to register is what the registration is then held to: the
/// fee, and the nonce and output of the last pool state. Before the first state it tells of no
/// output, and nonce zero. It agrees with what the exchange tells of its pool.
pub proof fn law_register_info_is_of_the_last_state(
    info: RegisterInfo,
    pool: PoolInfo,
    state: ExchangeView,
)
    requires
        is_register_info(info, state),
    ensures
        info.address@ == state.address,
        info.untweaked_key@ == state.key,
        info.register_fee == state.game.gamer_register_fee,
        state.states.len() == 0 ==> info.nonce == 0 && info.utxo is None,
        state.states.len() > 0 ==> {
            &&& info.nonce == state.states[state.states.len() - 1].nonce
            &&& utxo_opt_view(info.utxo) == state.states[state.states.len() - 1].utxo
        },
        is_pool_info(Some(pool), state, state.address) ==> {
            &&& info.nonce == pool.nonce
            &&& info.utxo is Some <==> pool.utxos@.len() == 1
            &&& info.utxo is Some ==> info.utxo->0@ == pool.utxos@[0]@
            &&& info.address@ == pool.address@
            &&& info.untweaked_key@ == pool.key@
        },
{
    assert(utxo_views(pool.utxos@).len() == pool.utxos@.len());
    if pool.utxos@.len() == 1 {
        assert(utxo_views(pool.utxos@)[0] == pool.utxos@[0]@);
    }
}

/// A registration that is built from what the exchange tells of its pool is accepted: with the nonce
/// and the output in the pool info, one amount of BTC above the fee, and an output for the pool, by
/// a new address in a game that is not over. The sums must fit.
pub proof fn law_registration_from_pool_info_is_accepted(
    info: PoolInfo,
    state: ExchangeView,
    txid: Seq<u8>,
    intention: Intention,
    initiator: Seq<char>,
)
    requires
        is_pool_info(Some(info), state, state.address),
        info.utxos@.len() == 1,
        state.game_status != GameStatus::Ended,
        state.game.gamer is Some,
        !knows(state.game, initiator),
        intention.action@ == "register"@,
        intention.nonce == info.nonce,
        intention.nonce < u64::MAX,
        intention.pool_utxo_spent@.len() == 1,
        intention.pool_utxo_spent@[0]@ == outpoint_text(info.utxos@[0]@.txid, info.utxos@[0]@.vout),
        intention.pool_utxo_received@.len() > 0,
        intention.input_coins@.len() == 1,
        intention.input_coins@[0].coin.id.block == 0,
        intention.input_coins@[0].coin.id.tx == 0,
        intention.input_coins@[0].coin.value > state.game.gamer_register_fee,
        intention.output_coins@.len() == 0,
        info.btc_reserved + state.game.gamer_register_fee <= u64::MAX,
    ensures
        can_judge(state, intention, initiator),
        judged(state, txid, intention, initiator) is Ok,
        judged(state, txid, intention, initiator)->Ok_0.1 == info.utxos@[0]@,
        judged(state, txid, intention, initiator)->Ok_0.0.nonce == info.nonce + 1,
        judged(state, txid, intention, initiator)->Ok_0.0.utxo->0.sats == info.btc_reserved
            + state.game.gamer_register_fee,
{
    assert(utxo_views(info.utxos@).len() == 1);
    assert(utxo_views(info.utxos@)[0] == info.utxos@[0]@);
    assert(utxo_views(intention.pool_utxo_received@).len() > 0);
    assert(string_views(intention.pool_utxo_spent@).len() == 1);
    assert(string_views(intention.pool_utxo_spent@).last() == intention.pool_utxo_spent@[0]@);
    assert(input_views(intention.input_coins@)[0].coin == intention.input_coins@[0].coin);
    assert(input_views(intention.input_coins@).len() == 1);
    assert(output_views(intention.output_coins@).len() == 0);
    law_registration_is_accepted(
        state,
        txid,
        intention.nonce,
        string_views(intention.pool_utxo_spent@),
        utxo_views(intention.pool_utxo_received@),
        input_views(intention.input_coins@),
        output_views(intention.output_coins@),
        initiator,
    );
}

/// What the exchange tells of the game is what the game is, and of a gamer it tells if and only if
/// there is one at the address.
pub proof fn law_game_info_is_of_the_game(info: GameAndGamer, game: GameView, gamer: Seq<char>)
    requires
        is_game_and_gamer(info, game, gamer),
    ensures
        info.game_duration == game.game_duration,
        info.game_start_time == game.game_start_time,
        info.gamer_register_fee == game.gamer_register_fee,
        info.claim_cooling_down == game.claim_cooling_down,
        info.cookie_amount_per_claim == game.cookie_amount_per_claim,
        info.max_cookies == game.max_cookies,
        info.claimed_cookies == game.claimed_cookies,
        info.gamer is Some <==> knows(game, gamer),
        info.gamer is Some ==> info.gamer->0@ == game.gamer->0[gamer],
{
}

/// A new exchange has the rules, the key, the address and the identities that it was set up with,
/// no pool state, and nobody in the game; nothing is claimed and nothing is over.
pub proof fn law_new_exchange_is_as_set_up(
    game_duration: u64,
    game_start_time: u64,
    gamer_register_fee: u64,
    claim_cooling_down: u64,
    cookie_amount_per_claim: u128,
    max_cookies: u128,
    orchestrator: Seq<u8>,
    ii_canister: Seq<u8>,
    key: Seq<u8>,
    address: Seq<char>,
)
    ensures
        ({
            let new = new_exchange(
                game_duration,
                game_start_time,
                gamer_register_fee,
                claim_cooling_down,
                cookie_amount_per_claim,
                max_cookies,
                orchestrator,
                ii_canister,
                key,
                address,
            );
            &&& new.game.game_duration == game_duration
            &&& new.game.game_start_time == game_start_time
            &&& new.game.gamer_register_fee == gamer_register_fee
            &&& new.game.claim_cooling_down == claim_cooling_down
            &&& new.game.cookie_amount_per_claim == cookie_amount_per_claim
            &&& new.game.max_cookies == max_cookies
            &&& new.game.claimed_cookies == 0
            &&& new.game.gamer is None
            &&& !new.game.is_end
            &&& new.orchestrator == orchestrator
            &&& new.ii_canister == ii_canister
            &&& new.key == key
            &&& new.address == address
            &&& new.states.len() == 0
            &&& new.address_principal_map is None
            &&& new.game_status == GameStatus::Init
        }),
{
}

} // verus!
