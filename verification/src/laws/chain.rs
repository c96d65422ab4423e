//! What holds of the chain of pool states and of the transactions that make it.

use vstd::prelude::*;
use crate::blocks::{
    block_taken_in, confirmed_records, due_below, finalized_all, times_listed,
};
use crate::coin::{input_views, output_views};
use crate::errors::ErrorView;
use crate::exchange::new_exchange;
use crate::game::{GameView, GamerView};
use crate::memory::BlockView;
use crate::state::{
    finalized, index_of_tx, lemma_index_of_tx, lemma_index_of_tx_is, rolled_back, undone,
    ExchangeView, GameStatus, PoolStateView, UserActionView,
};
use crate::text::string_views;
use crate::tx::{
    action_named, can_judge, carried_out, is_plan, is_prepared, judged, latest_record, recorded,
    rolled_back_times, tx_rolled_back, Intention, RollbackErrorView,
    TxAction, TxError, TxPlan,
};
use crate::utxo::outpoint_text;
use ree_types::bitcoin::Psbt;

verus! {

/// The gamer whose action brought a pool state about.
pub open spec fn gamer_of(action: UserActionView) -> Option<Seq<char>> {
    match action {
        UserActionView::Init => None,
        UserActionView::Register(a) => Some(a),
        UserActionView::Withdraw(a) => Some(a),
    }
}

/// Whether the chain and the gamers are in step: only the first pool state can be one that no
/// gamer brought about, every gamer who brought one about is in the game, and none did so before
/// the registration.
pub open spec fn in_step(states: Seq<PoolStateView>, game: GameView) -> bool {
    &&& forall|i: int| 0 < i < states.len() ==> (#[trigger] states[i]).user_action !is Init
    &&& forall|i: int|
        0 <= i < states.len() && gamer_of((#[trigger] states[i]).user_action) is Some
            ==> game.gamer_at(gamer_of(states[i].user_action)->0) is Some
    &&& forall|i: int, j: int|
        0 <= i < j < states.len() && (#[trigger] states[j]).user_action is Register ==> gamer_of(
            (#[trigger] states[i]).user_action,
        ) != gamer_of(states[j].user_action)
}

/// Whether the nonces of the chain count up by one.
pub open spec fn counts_up(states: Seq<PoolStateView>) -> bool {
    forall|i: int, j: int|
        0 <= i <= j < states.len() ==> (#[trigger] states[j]).nonce == (#[trigger] states[i]).nonce
            + (j - i)
}

/// Whether no transaction stands in the chain twice.
pub open spec fn distinct_txids(states: Seq<PoolStateView>) -> bool {
    forall|i: int, j: int|
        0 <= i < j < states.len() && (#[trigger] states[i]).id is Some ==> (
        #[trigger] states[j]).id != states[i].id
}

/// Whether the exchange is in order: its chain is in step with the game, its nonces count up by
/// one, and no transaction stands in it twice.
pub open spec fn in_order(state: ExchangeView) -> bool {
    &&& in_step(state.states, state.game)
    &&& counts_up(state.states)
    &&& distinct_txids(state.states)
}

/// A new exchange is in order.
pub proof fn law_new_exchange_is_in_order(
    game_duration: u64,
    game_start_time: u64,
    gamer_register_fee: u64,
    claim_cooling_down: u64,
    cookie_amount_per_claim: u128,
    max_cookies: u128,
    orchestrator: Seq<u8>,
    ii_canister: Seq<u8>,
    key: Seq<u8>,
    address: Seq<char>,
)
    ensures
        in_order(
            new_exchange(
                game_duration,
                game_start_time,
                gamer_register_fee,
                claim_cooling_down,
                cookie_amount_per_claim,
                max_cookies,
                orchestrator,
                ii_canister,
                key,
                address,
            ),
        ),
{
}

/// A transaction that was planned on a state can be carried out on it. It spends the output of the
/// last pool state, and the pool state that it brings about follows that one: it has the next
/// nonce, the same coins, and the fee on top of the sats. A state in order, whose chain the
/// transaction was not in before, is left in order.
pub proof fn law_execution_extends_the_chain(
    state: ExchangeView,
    txid: Seq<u8>,
    intention: Intention,
    initiator: Seq<char>,
    plan: TxPlan,
)
    requires
        can_judge(state, intention, initiator),
        is_plan(state, txid, intention, initiator, Ok(plan)),
    ensures
        state.states.len() > 0,
        state.states.last().utxo == Some(plan@.consumed),
        ({
            let (after, res) = carried_out(state, plan@);
            let new = plan@.new_state;
            &&& res is Ok
            &&& in_order(state) && index_of_tx(state.states, txid) is None ==> in_order(after)
            &&& after.states == state.states.push(new)
            &&& new.id == Some(txid)
            &&& new.nonce == state.states.last().nonce + 1
            &&& new.utxo is Some
            &&& new.utxo->0.coins == plan@.consumed.coins
            &&& new.utxo->0.sats == plan@.consumed.sats + state.game.gamer_register_fee
        }),
{
    lemma_index_of_tx(state.states, txid);
    let after = carried_out(state, plan@).0;
    assert(action_named(intention.action@) == Some(TxAction::Register));
    assert(forall|i: int| 0 <= i < state.states.len() ==> after.states[i] == state.states[i]);
    assert(after.states.last() == plan@.new_state);
}

/// What a gamer claims leaves the chain as it was, and an exchange in order in order.
pub proof fn law_claim_keeps_order(state: ExchangeView, caller: Seq<u8>, checked: u64, noted: u64)
    ensures
        in_order(state) ==> in_order(state.claim(caller, checked, noted).0),
        state.claim(caller, checked, noted).0.states == state.states,
{
}

/// The end of the game leaves the chain as it was, and an exchange in order in order.
pub proof fn law_end_keeps_order(state: ExchangeView)
    ensures
        in_order(state) ==> in_order(state.end_game().0),
        state.end_game().0.states == state.states,
{
    let after = state.end_game().0;
    assert(forall|a: Seq<char>| after.game.gamer_at(a) == state.game.gamer_at(a));
}

/// Part of a chain, without a gap, is in order as the chain is.
proof fn lemma_part_in_order(state: ExchangeView, low: int, high: int)
    requires
        in_order(state),
        0 <= low <= high <= state.states.len(),
    ensures
        in_order(ExchangeView { states: state.states.subrange(low, high), ..state }),
{
    let part = state.states.subrange(low, high);
    assert(forall|i: int| 0 <= i < part.len() ==> part[i] == state.states[low + i]);
}

/// Undoing pool states of a chain that is in step succeeds, and leaves those before, in step with
/// the game that it leaves.
proof fn lemma_undone(states: Seq<PoolStateView>, game: GameView, keep: int)
    requires
        in_step(states, game),
        0 < keep <= states.len(),
    ensures
        undone(states, game, keep).0 == states.take(keep),
        undone(states, game, keep).2 is Ok,
        in_step(states.take(keep), undone(states, game, keep).1),
    decreases states.len(),
{
    if states.len() > keep {
        let rest = states.drop_last();
        let last = states.last();
        assert(last == states[states.len() - 1]);
        assert(forall|i: int| 0 <= i < rest.len() ==> rest[i] == states[i]);
        match last.user_action {
            UserActionView::Init => {},
            UserActionView::Register(a) => {
                let before = game.without_gamer(a);
                assert(in_step(rest, before));
                lemma_undone(rest, before, keep);
            },
            UserActionView::Withdraw(a) => {
                let before = game.with_gamer(
                    a,
                    GamerView { is_withdrawn: false, ..game.gamer_at(a)->0 },
                );
                assert(in_step(rest, before));
                lemma_undone(rest, before, keep);
            },
        }
        assert(rest.take(keep) =~= states.take(keep));
    } else {
        assert(states.take(keep) =~= states);
    }
}

/// In a chain that is in step with the game, any transaction but the first can be rolled back:
/// the chain is then what it was before the transaction, and in step with the game as before.
pub proof fn law_rollback_restores_the_chain(
    states: Seq<PoolStateView>,
    game: GameView,
    txid: Seq<u8>,
    i: int,
)
    requires
        in_step(states, game),
        index_of_tx(states, txid) == Some(i),
        i > 0,
    ensures
        rolled_back(states, game, txid).0 == states.take(i),
        rolled_back(states, game, txid).2 is Ok,
        in_step(states.take(i), rolled_back(states, game, txid).1),
{
    lemma_index_of_tx(states, txid);
    lemma_undone(states, game, i);
}

/// Whether a pool state from place `low` on was brought about by the action.
pub open spec fn acted_from(
    states: Seq<PoolStateView>,
    low: int,
    action: UserActionView,
) -> bool {
    exists|j: int| low <= j < states.len() && (#[trigger] states[j]).user_action == action
}

/// Undoing pool states, where it succeeds, takes out the gamers whom they registered, lets those
/// withdraw again whose withdrawals they were, and leaves all else of the game as it was.
proof fn lemma_undone_gamers(
    states: Seq<PoolStateView>,
    game: GameView,
    keep: int,
    id: Seq<char>,
)
    requires
        undone(states, game, keep).2 is Ok,
        0 <= keep <= states.len(),
    ensures
        ({
            let after = undone(states, game, keep).1;
            let registered = acted_from(states, keep, UserActionView::Register(id));
            let withdrew = acted_from(states, keep, UserActionView::Withdraw(id));
            &&& registered ==> after.gamer_at(id) is None
            &&& !registered && withdrew ==> game.gamer_at(id) is Some && after.gamer_at(id)
                == Some(GamerView { is_withdrawn: false, ..game.gamer_at(id)->0 })
            &&& !registered && !withdrew ==> after.gamer_at(id) == game.gamer_at(id)
            &&& after == (GameView { gamer: after.gamer, ..game })
        }),
    decreases states.len(),
{
    let register = UserActionView::Register(id);
    let withdraw = UserActionView::Withdraw(id);
    if states.len() > keep {
        let rest = states.drop_last();
        let end = states.len() - 1;
        let last = states.last();
        assert(last == states[end]);
        assert(forall|i: int| 0 <= i < rest.len() ==> rest[i] == states[i]);
        let before = match last.user_action {
            UserActionView::Init => game,
            UserActionView::Register(a) => game.without_gamer(a),
            UserActionView::Withdraw(a) => game.with_gamer(
                a,
                GamerView { is_withdrawn: false, ..game.gamer_at(a)->0 },
            ),
        };
        lemma_undone_gamers(rest, before, keep, id);
        assert forall|action: UserActionView|
            acted_from(states, keep, action) == (acted_from(rest, keep, action)
                || last.user_action == action) by {
            if acted_from(states, keep, action) {
                let j = choose|j: int|
                    keep <= j < states.len() && (#[trigger] states[j]).user_action == action;
                if j < end {
                    assert(rest[j].user_action == action);
                }
            }
            if acted_from(rest, keep, action) {
                let j = choose|j: int|
                    keep <= j < rest.len() && (#[trigger] rest[j]).user_action == action;
                assert(states[j].user_action == action);
            }
        }
        if last.user_action == register {
            assert(before.gamer_at(id) is None);
        }
        assert(before == (GameView { gamer: before.gamer, ..game }));
    } else {
        assert(!acted_from(states, keep, register) && !acted_from(states, keep, withdraw));
    }
}

/// Rolling a transaction back, where it succeeds, takes out the gamers who registered by it or
/// after it, and lets those withdraw again who withdrew by it or after it. Every other gamer, and
/// the rest of the game, stay as they were.
pub proof fn law_rollback_restores_the_gamers(
    states: Seq<PoolStateView>,
    game: GameView,
    txid: Seq<u8>,
    id: Seq<char>,
)
    requires
        rolled_back(states, game, txid).2 is Ok,
    ensures
        index_of_tx(states, txid) is Some,
        ({
            let after = rolled_back(states, game, txid).1;
            let i = index_of_tx(states, txid)->0;
            let registered = acted_from(states, i, UserActionView::Register(id));
            let withdrew = acted_from(states, i, UserActionView::Withdraw(id));
            &&& registered ==> after.gamer_at(id) is None
            &&& !registered && withdrew ==> game.gamer_at(id) is Some && after.gamer_at(id)
                == Some(GamerView { is_withdrawn: false, ..game.gamer_at(id)->0 })
            &&& !registered && !withdrew ==> after.gamer_at(id) == game.gamer_at(id)
            &&& after == (GameView { gamer: after.gamer, ..game })
        }),
{
    lemma_index_of_tx(states, txid);
    lemma_undone_gamers(states, game, index_of_tx(states, txid)->0, id);
}

/// What undoing leaves is the beginning of the chain, at least as long as asked for.
proof fn lemma_undone_prefix(states: Seq<PoolStateView>, game: GameView, keep: int)
    requires
        0 <= keep <= states.len(),
    ensures
        keep <= undone(states, game, keep).0.len() <= states.len(),
        undone(states, game, keep).0 == states.take(undone(states, game, keep).0.len() as int),
        undone(states, game, keep).2 is Ok ==> undone(states, game, keep).0.len() == keep,
    decreases states.len(),
{
    if states.len() > keep {
        let rest = states.drop_last();
        match states.last().user_action {
            UserActionView::Init => {},
            UserActionView::Register(a) => {
                lemma_undone_prefix(rest, game.without_gamer(a), keep);
            },
            UserActionView::Withdraw(a) => {
                lemma_undone_prefix(
                    rest,
                    game.with_gamer(a, GamerView { is_withdrawn: false, ..game.gamer_at(a)->0 }),
                    keep,
                );
            },
        }
        let left = undone(states, game, keep).0;
        assert(left =~= states.take(left.len() as int));
    } else {
        assert(states.take(keep) =~= states);
    }
}

/// Whatever the chain, rolling a transaction back leaves a beginning of it, with the first pool
/// state: an exchange that has a pool state never loses its last one. Where it succeeds, what is
/// left is what stood before the transaction.
pub proof fn law_rollback_keeps_the_beginning(
    states: Seq<PoolStateView>,
    game: GameView,
    txid: Seq<u8>,
)
    requires
        states.len() > 0,
    ensures
        ({
            let (left, _, res) = rolled_back(states, game, txid);
            &&& 0 < left.len() <= states.len()
            &&& left == states.take(left.len() as int)
            &&& res is Ok ==> index_of_tx(states, txid) == Some(left.len() as int)
        }),
{
    lemma_index_of_tx(states, txid);
    match index_of_tx(states, txid) {
        Some(i) => {
            if i > 0 {
                lemma_undone_prefix(states, game, i);
            }
        },
        None => {},
    }
    assert(states.take(states.len() as int) =~= states);
}

/// Rolling back by the records keeps the exchange in order.
pub proof fn law_rollback_keeps_order(
    state: ExchangeView,
    records: Map<(Seq<u8>, bool), Seq<Seq<char>>>,
    txid: Seq<u8>,
)
    requires
        in_order(state),
    ensures
        tx_rolled_back(state, records, txid) matches Ok((states, game)) ==> in_order(
            ExchangeView { states, game, ..state },
        ),
{
    match latest_record(records, txid) {
        Some(pools) => {
            lemma_rolled_back_times(state, txid, times_listed(pools, state.address));
        },
        None => {},
    }
}

/// Rolling back any number of times keeps the exchange in order.
proof fn lemma_rolled_back_times(state: ExchangeView, txid: Seq<u8>, n: nat)
    requires
        in_order(state),
    ensures
        rolled_back_times(state.states, state.game, txid, n) matches Ok((states, game)) ==> in_order(
            ExchangeView { states, game, ..state },
        ),
    decreases n,
{
    if n > 0 {
        let (left, game, res) = rolled_back(state.states, state.game, txid);
        if res is Ok {
            lemma_index_of_tx(state.states, txid);
            let i = index_of_tx(state.states, txid)->0;
            law_rollback_restores_the_chain(state.states, state.game, txid, i);
            lemma_part_in_order(state, 0, i);
            assert(state.states.subrange(0, i) =~= left);
            lemma_rolled_back_times(
                ExchangeView { states: left, game, ..state },
                txid,
                (n - 1) as nat,
            );
        }
    } else {
        assert(ExchangeView { states: state.states, game: state.game, ..state } == state);
    }
}

/// A transaction that was executed on the pool, and then rolled back, leaves the chain, the game
/// with its gamers, and the records as they were before it; and the same request is then judged as
/// it was. It is for a transaction that was neither in the chain nor in the records.
pub proof fn law_rollback_undoes_execution(
    state: ExchangeView,
    records: Map<(Seq<u8>, bool), Seq<Seq<char>>>,
    txid: Seq<u8>,
    intention: Intention,
    initiator: Seq<char>,
    plan: TxPlan,
)
    requires
        can_judge(state, intention, initiator),
        is_plan(state, txid, intention, initiator, Ok(plan)),
        index_of_tx(state.states, txid) is None,
        latest_record(records, txid) is None,
        intention.pool_address@ == state.address,
    ensures
        ({
            let after = carried_out(state, plan@).0;
            let noted = recorded(records, txid, intention.pool_address@);
            let back = ExchangeView { states: state.states, game: state.game, ..after };
            &&& carried_out(state, plan@).1 is Ok
            &&& tx_rolled_back(after, noted, txid) == Ok::<
                (Seq<PoolStateView>, GameView),
                RollbackErrorView,
            >((state.states, state.game))
            &&& noted.remove((txid, false)).remove((txid, true)) == records
            &&& back == (ExchangeView { game_status: GameStatus::Play, ..state })
            &&& judged(back, txid, intention, initiator) == judged(
                state,
                txid,
                intention,
                initiator,
            )
        }),
{
    assert(action_named(intention.action@) == Some(TxAction::Register));
    let after = carried_out(state, plan@).0;
    let noted = recorded(records, txid, state.address);
    let i = state.states.len() as int;
    lemma_index_of_tx(state.states, txid);
    assert(forall|j: int| 0 <= j < i ==> after.states[j] == state.states[j]);
    assert(after.states[i] == plan@.new_state);
    lemma_index_of_tx_is(after.states, txid, i);
    assert(after.states.drop_last() =~= state.states);
    let gamers = state.game.gamer->0;
    assert(after.game.gamer->0.remove(initiator) =~= gamers);
    assert(after.game.without_gamer(initiator) == state.game);
    assert(undone(state.states, state.game, i) == (state.states, state.game, Ok::<(), ErrorView>(())));
    assert(rolled_back(after.states, after.game, txid) == (
        state.states,
        state.game,
        Ok::<(), ErrorView>(()),
    ));
    let none: Seq<Seq<char>> = Seq::empty();
    let one = none.push(state.address);
    assert(noted[(txid, false)] == one);
    assert(one.drop_last() =~= none);
    assert(times_listed(none, state.address) == 0);
    assert(times_listed(one, state.address) == 1);
    let before = Ok::<(Seq<PoolStateView>, GameView), ErrorView>((state.states, state.game));
    assert(rolled_back_times(state.states, state.game, txid, 0) == before);
    assert(rolled_back_times(after.states, after.game, txid, 1) == before);
    assert(noted.remove((txid, false)).remove((txid, true)) =~= records);
}

/// Finalizing a transaction keeps the chain from it on, with the last pool state. Done again it
/// changes nothing. After it the transaction can no longer be rolled back.
pub proof fn law_finalize_keeps_the_tip(
    states: Seq<PoolStateView>,
    txid: Seq<u8>,
    game: GameView,
)
    requires
        finalized(states, txid).1 is Ok,
    ensures
        ({
            let left = finalized(states, txid).0;
            &&& 0 < left.len() <= states.len()
            &&& left == states.skip(states.len() - left.len())
            &&& left.last() == states.last()
            &&& left[0].id == Some(txid)
            &&& finalized(left, txid) == (left, Ok::<(), ErrorView>(()))
            &&& rolled_back(left, game, txid) == (
                left,
                game,
                Err::<(), ErrorView>(
                    ErrorView::InvalidState("Should not rollback index 0 state"@),
                ),
            )
        }),
{
    lemma_index_of_tx(states, txid);
    let left = finalized(states, txid).0;
    lemma_index_of_tx_is(left, txid, 0);
    assert(left.skip(0) =~= left);
}

/// Finalizing one transaction after another keeps the end of the chain, with the last pool state,
/// and an exchange in order in order.
proof fn lemma_finalized_all(state: ExchangeView, txids: Seq<Seq<u8>>)
    ensures
        finalized_all(state.states, txids) matches Ok(states) ==> {
            &&& in_order(state) ==> in_order(ExchangeView { states, ..state })
            &&& states.len() <= state.states.len()
            &&& states == state.states.skip(state.states.len() - states.len())
            &&& state.states.len() > 0 ==> states.len() > 0
        },
    decreases txids.len(),
{
    if txids.len() > 0 {
        let (left, res) = finalized(state.states, txids[0]);
        if res is Ok {
            lemma_index_of_tx(state.states, txids[0]);
            let i = index_of_tx(state.states, txids[0])->0;
            if in_order(state) {
                lemma_part_in_order(state, i, state.states.len() as int);
                assert(state.states.subrange(i, state.states.len() as int) =~= left);
            }
            lemma_finalized_all(ExchangeView { states: left, ..state }, txids.drop_first());
            if finalized_all(state.states, txids) is Ok {
                let states = finalized_all(state.states, txids)->Ok_0;
                assert(states =~= state.states.skip(state.states.len() - states.len()));
            }
        }
    } else {
        assert(state.states.skip(0) =~= state.states);
        assert(ExchangeView { states: state.states, ..state } == state);
    }
}

/// A transaction that is among those finalized stands first in the chain, or no longer in it.
proof fn lemma_finalized_all_is_final(state: ExchangeView, txids: Seq<Seq<u8>>, txid: Seq<u8>)
    requires
        distinct_txids(state.states),
        finalized_all(state.states, txids) is Ok,
        txids.contains(txid),
    ensures
        ({
            let left = finalized_all(state.states, txids)->Ok_0;
            index_of_tx(left, txid) is None || index_of_tx(left, txid) == Some(0int)
        }),
    decreases txids.len(),
{
    let rest = txids.drop_first();
    let (left, _) = finalized(state.states, txids[0]);
    lemma_index_of_tx(state.states, txids[0]);
    let i = index_of_tx(state.states, txids[0])->0;
    assert(forall|j: int| 0 <= j < left.len() ==> left[j] == state.states[i + j]);
    let after = ExchangeView { states: left, ..state };
    if txid == txids[0] {
        lemma_finalized_all(after, rest);
        let end = finalized_all(left, rest)->Ok_0;
        let d = left.len() - end.len();
        lemma_index_of_tx(end, txid);
        match index_of_tx(end, txid) {
            Some(j) => {
                assert(end[j] == left[d + j]);
                assert(left[0].id == Some(txid));
            },
            None => {},
        }
    } else {
        let j = choose|j: int| 0 <= j < txids.len() && txids[j] == txid;
        assert(rest[j - 1] == txid);
        lemma_finalized_all_is_final(after, rest, txid);
    }
}

/// Once a transaction was finalized, by itself or among others, it cannot be rolled back any more.
/// It is for a chain in which no transaction stands twice.
pub proof fn law_final_is_final(
    state: ExchangeView,
    txids: Seq<Seq<u8>>,
    txid: Seq<u8>,
    game: GameView,
)
    requires
        distinct_txids(state.states),
        finalized_all(state.states, txids) is Ok,
        txids.contains(txid),
    ensures
        ({
            let left = finalized_all(state.states, txids)->Ok_0;
            &&& rolled_back(left, game, txid).0 == left
            &&& rolled_back(left, game, txid).2 is Err
        }),
{
    lemma_finalized_all_is_final(state, txids, txid);
}

/// A block leaves the last pool state as it was: it only shortens the chain from the front. An
/// exchange in order is left in order.
pub proof fn law_block_keeps_the_tip(
    state: ExchangeView,
    blocks: Map<u32, BlockView>,
    records: Map<(Seq<u8>, bool), Seq<Seq<char>>>,
    block: BlockView,
    depth: u32,
)
    ensures
        block_taken_in(state, blocks, records, block, depth) matches Ok((states, _, _)) ==> {
            &&& in_order(state) ==> in_order(ExchangeView { states, ..state })
            &&& states.len() <= state.states.len()
            &&& states == state.states.skip(state.states.len() - states.len())
            &&& state.last_state() == (ExchangeView { states, ..state }).last_state()
        },
{
    let known = blocks.insert(block.height, block);
    let confirmed = confirmed_records(records, block.txids);
    let final_height = block.height - depth + 1;
    let due = due_below(known, confirmed, state.address, (final_height + 1) as nat);
    lemma_finalized_all(state, due);
}

/// After the end of the game every registration and every withdrawal is refused for that reason,
/// and the game is not ended again.
pub proof fn law_nothing_after_the_end(
    state: ExchangeView,
    txid: Seq<u8>,
    intention: Intention,
    initiator: Seq<char>,
)
    requires
        action_named(intention.action@) is Some,
    ensures
        ({
            let after = state.end_game().0;
            &&& can_judge(after, intention, initiator)
            &&& judged(after, txid, intention, initiator) is Err
            &&& judged(after, txid, intention, initiator)->Err_0 == ErrorView::GameEnd
            &&& after.end_game() == (after, Err::<(), ErrorView>(ErrorView::GameEnd))
        }),
{
}

/// A gamer registers once: after a registration was carried out, every other one for the same
/// address is refused.
pub proof fn law_registers_once(
    state: ExchangeView,
    plan: TxPlan,
    txid: Seq<u8>,
    again: Intention,
)
    requires
        plan.action == TxAction::Register,
        action_named(again.action@) == Some(TxAction::Register),
    ensures
        ({
            let after = carried_out(state, plan@).0;
            &&& can_judge(after, again, plan@.initiator)
            &&& judged(after, txid, again, plan@.initiator) is Err
            &&& judged(after, txid, again, plan@.initiator)->Err_0 == ErrorView::GamerAlreadyExist(
                plan@.initiator,
            )
        }),
{
}

/// One who registers with what the exchange says about itself succeeds: with the nonce and the
/// output of the last pool state, one amount of BTC above the fee, and an output for the pool,
/// while the game is not over and the address is new. The sums must fit.
pub proof fn law_current_registration_succeeds(
    state: ExchangeView,
    txid: Seq<u8>,
    intention: Intention,
    initiator: Seq<char>,
)
    requires
        action_named(intention.action@) == Some(TxAction::Register),
        state.game_status != GameStatus::Ended,
        state.game.gamer_at(initiator) is None,
        state.register_coins_ok(
            input_views(intention.input_coins@),
            output_views(intention.output_coins@),
        ),
        state.states.len() > 0,
        state.states.last().utxo is Some,
        intention.nonce == state.states.last().nonce,
        intention.nonce < u64::MAX,
        intention.pool_utxo_spent@.len() > 0,
        string_views(intention.pool_utxo_spent@).last() == outpoint_text(
            state.states.last().utxo->0.txid,
            state.states.last().utxo->0.vout,
        ),
        intention.pool_utxo_received@.len() > 0,
        state.states.last().utxo->0.sats + state.game.gamer_register_fee <= u64::MAX,
    ensures
        judged(state, txid, intention, initiator) is Ok,
        judged(state, txid, intention, initiator)->Ok_0.1 == state.states.last().utxo->0,
{
}

/// A transaction that was planned for an earlier pool state is refused once another one has been
/// carried out.
pub proof fn law_stale_nonce_is_refused(
    state: ExchangeView,
    txid: Seq<u8>,
    intention: Intention,
    initiator: Seq<char>,
)
    requires
        action_named(intention.action@) is Some,
        can_judge(state, intention, initiator),
        state.states.len() > 0,
        intention.nonce != state.states.last().nonce,
    ensures
        judged(state, txid, intention, initiator) is Err,
{
}

/// The pool that an intention names changes neither the answer nor what is done: for two
/// intentions that differ in it alone, the same requests can be judged, they are judged alike and
/// refused for the same reasons, and carrying out the one leaves the exchange as carrying out the
/// other does, with the same outcome. Only the record of the transaction from its execution can
/// differ.
pub proof fn law_named_pool_changes_only_the_record(
    state: ExchangeView,
    records: Map<(Seq<u8>, bool), Seq<Seq<char>>>,
    txid: Seq<u8>,
    one: Intention,
    other: Intention,
    initiator: Seq<char>,
)
    requires
        other == (Intention { pool_address: other.pool_address, ..one }),
    ensures
        can_judge(state, one, initiator) == can_judge(state, other, initiator),
        judged(state, txid, one, initiator) == judged(state, txid, other, initiator),
        forall|e: TxError| #[trigger]
            is_plan(state, txid, one, initiator, Err(e)) == is_plan(
                state,
                txid,
                other,
                initiator,
                Err(e),
            ),
        forall|p: TxPlan, q: TxPlan| #[trigger]
            is_plan(state, txid, one, initiator, Ok(p)) && #[trigger] is_plan(
                state,
                txid,
                other,
                initiator,
                Ok(q),
            ) ==> p@.consumed == q@.consumed && carried_out(state, p@) == carried_out(state, q@),
        recorded(records, txid, one.pool_address@).remove((txid, false)) == recorded(
            records,
            txid,
            other.pool_address@,
        ).remove((txid, false)),
{
    assert(recorded(records, txid, one.pool_address@).remove((txid, false)) =~= recorded(
        records,
        txid,
        other.pool_address@,
    ).remove((txid, false)));
}

/// The pool that the chosen intention of a request names changes nothing of how the request is
/// prepared: of two requests that differ in it alone, both have no answer, or both are refused for
/// the same reasons, or both give the same transaction to sign, over the same output of the pool,
/// and plans that leave the same exchange with the same outcome.
pub proof fn law_named_pool_changes_no_answer(
    state: ExchangeView,
    psbt_hex: Seq<char>,
    txid: Seq<u8>,
    one: Seq<Intention>,
    other: Seq<Intention>,
    index: u32,
    initiator: Seq<char>,
)
    requires
        one.len() == other.len(),
        index < one.len() ==> other[index as int] == (Intention {
            pool_address: other[index as int].pool_address,
            ..one[index as int]
        }),
    ensures
        is_prepared(state, psbt_hex, txid, one, index, initiator, None) == is_prepared(
            state,
            psbt_hex,
            txid,
            other,
            index,
            initiator,
            None,
        ),
        forall|e: TxError| #[trigger]
            is_prepared(state, psbt_hex, txid, one, index, initiator, Some(Err(e))) == is_prepared(
                state,
                psbt_hex,
                txid,
                other,
                index,
                initiator,
                Some(Err(e)),
            ),
        forall|s: Psbt, p: TxPlan, t: Psbt, q: TxPlan| #[trigger]
            is_prepared(state, psbt_hex, txid, one, index, initiator, Some(Ok((s, p))))
                && #[trigger] is_prepared(
                state,
                psbt_hex,
                txid,
                other,
                index,
                initiator,
                Some(Ok((t, q))),
            ) ==> s == t && p@.consumed == q@.consumed && carried_out(state, p@) == carried_out(
                state,
                q@,
            ),
{
    if index < one.len() {
        law_named_pool_changes_only_the_record(
            state,
            Map::empty(),
            txid,
            one[index as int],
            other[index as int],
            initiator,
        );
    }
}

/// No withdrawal is planned: the number of coins that it is held to rules out the payment that it
/// is held to.
pub proof fn law_no_withdrawal_is_planned(
    state: ExchangeView,
    txid: Seq<u8>,
    intention: Intention,
    initiator: Seq<char>,
    res: Result<TxPlan, TxError>,
)
    requires
        action_named(intention.action@) == Some(TxAction::Withdraw),
        can_judge(state, intention, initiator),
        is_plan(state, txid, intention, initiator, res),
    ensures
        res is Err,
{
}

} // verus!
