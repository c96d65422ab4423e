//! What rolling a transaction back by its records gives.

use vstd::prelude::*;
use crate::blocks::{block_taken_in, times_listed};
use crate::errors::ErrorView;
use crate::game::GameView;
use crate::laws::chain::{
    acted_from, in_order, law_rollback_restores_the_chain, law_rollback_restores_the_gamers,
    law_rollback_undoes_execution,
};
use crate::laws::claims::knows;
use crate::memory::BlockView;
use crate::state::{
    lemma_index_of_tx, lemma_index_of_tx_is, rolled_back, ExchangeView, PoolStateView,
    UserActionView,
};
use crate::tx::{
    can_judge, carried_out, is_plan, is_rolled_back, lemma_times_listed, recorded, rolled_back_times,
    tx_rolled_back, Intention, RollbackErrorView, TxPlan,
};

verus! {

/// The pools that count when a transaction is rolled back: those of the record from its
/// confirmation where there is one, and of the record from its execution otherwise.
pub open spec fn counted_pools(
    records: Map<(Seq<u8>, bool), Seq<Seq<char>>>,
    txid: Seq<u8>,
) -> Seq<Seq<char>> {
    if records.contains_key((txid, true)) {
        records[(txid, true)]
    } else {
        records[(txid, false)]
    }
}

/// Whether a pool stands in a list once.
pub open spec fn listed_once(pools: Seq<Seq<char>>, pool: Seq<char>) -> bool {
    &&& pools.contains(pool)
    &&& forall|a: int, b: int|
        0 <= a < b < pools.len() && #[trigger] pools[a] == pool ==> #[trigger] pools[b] != pool
}

/// A pool that is listed once counts once.
proof fn lemma_listed_once(pools: Seq<Seq<char>>, pool: Seq<char>)
    requires
        listed_once(pools, pool),
    ensures
        times_listed(pools, pool) == 1,
    decreases pools.len(),
{
    let rest = pools.drop_last();
    assert(forall|a: int| 0 <= a < rest.len() ==> rest[a] == pools[a]);
    lemma_times_listed(rest, pool);
    if pools.last() == pool {
        assert(pools.last() == pools[pools.len() - 1]);
        assert(!rest.contains(pool));
    } else {
        let a = choose|a: int| 0 <= a < pools.len() && pools[a] == pool;
        assert(rest[a] == pool);
        lemma_listed_once(rest, pool);
    }
}

/// A transaction that is not final can be rolled back, confirmed or not: in an exchange in order,
/// one whose record lists the pool once and that stands in the chain, but not first. The chain is
/// then what stood before it. The gamers who registered by it or after it are out of the game, those
/// who withdrew by it or after it can withdraw again, and all others are as they were, as is the
/// rest of the game.
pub proof fn law_recoverable_transaction_is_rolled_back(
    state: ExchangeView,
    records: Map<(Seq<u8>, bool), Seq<Seq<char>>>,
    txid: Seq<u8>,
    i: int,
    id: Seq<char>,
)
    requires
        in_order(state),
        records.contains_key((txid, true)) || records.contains_key((txid, false)),
        listed_once(counted_pools(records, txid), state.address),
        0 < i < state.states.len(),
        state.states[i].id == Some(txid),
    ensures
        tx_rolled_back(state, records, txid) matches Ok((states, game)) && {
            let registered = acted_from(state.states, i, UserActionView::Register(id));
            let withdrew = acted_from(state.states, i, UserActionView::Withdraw(id));
            &&& states == state.states.take(i)
            &&& game == (GameView { gamer: game.gamer, ..state.game })
            &&& knows(game, id) <==> knows(state.game, id) && !registered
            &&& knows(game, id) ==> {
                let g = state.game.gamer->0[id];
                &&& game.gamer->0[id].address == g.address
                &&& game.gamer->0[id].cookies == g.cookies
                &&& game.gamer->0[id].last_click_time == g.last_click_time
                &&& game.gamer->0[id].is_withdrawn == (g.is_withdrawn && !withdrew)
            }
        },
{
    let states = state.states;
    lemma_index_of_tx(states, txid);
    assert forall|j: int| 0 <= j < i implies (#[trigger] states[j]).id != Some(txid) by {
        if states[j].id == Some(txid) {
            assert(states[i].id != states[j].id);
        }
    }
    lemma_index_of_tx_is(states, txid, i);
    lemma_listed_once(counted_pools(records, txid), state.address);
    law_rollback_restores_the_chain(states, state.game, txid, i);
    law_rollback_restores_the_gamers(states, state.game, txid, id);
    let (left, game, _) = rolled_back(states, state.game, txid);
    let one = Ok::<(Seq<PoolStateView>, GameView), ErrorView>((left, game));
    assert(rolled_back_times(left, game, txid, 0) == one);
    assert(rolled_back_times(states, state.game, txid, 1) == one);
    assert(knows(game, id) == (game.gamer_at(id) is Some));
    assert(knows(state.game, id) == (state.game.gamer_at(id) is Some));
}

/// A transaction that is rolled back has no record any more, all other records stay, and nothing
/// else of the exchange changes but the chain and the game; one that is refused leaves everything as
/// it was.
pub proof fn law_rollback_changes_all_or_nothing(
    state: ExchangeView,
    records: Map<(Seq<u8>, bool), Seq<Seq<char>>>,
    txid: Seq<u8>,
    after: ExchangeView,
    left: Map<(Seq<u8>, bool), Seq<Seq<char>>>,
    res: Result<(), RollbackErrorView>,
    key: (Seq<u8>, bool),
)
    requires
        is_rolled_back(state, records, txid, after, left, res),
    ensures
        res is Ok <==> tx_rolled_back(state, records, txid) is Ok,
        res is Err ==> after == state && left == records && res->Err_0 == tx_rolled_back(
            state,
            records,
            txid,
        )->Err_0,
        res is Ok ==> {
            &&& (after.states, after.game) == tx_rolled_back(state, records, txid)->Ok_0
            &&& after.key == state.key
            &&& after.address == state.address
            &&& after.ii_canister == state.ii_canister
            &&& after.orchestrator == state.orchestrator
            &&& after.address_principal_map == state.address_principal_map
            &&& after.game_status == state.game_status
            &&& key.0 == txid ==> !left.contains_key(key)
            &&& key.0 != txid ==> left.contains_key(key) == records.contains_key(key)
            &&& key.0 != txid && records.contains_key(key) ==> left[key] == records[key]
        },
{
    if key.1 {
        assert(key == (key.0, true));
    } else {
        assert(key == (key.0, false));
    }
}

/// What is not rolled back is refused for its reason, and nothing is undone on a pool that the
/// record does not list: without a record there is nothing to go by; with the pool listed, a
/// transaction that is not in the chain is not found, and the first of the chain stays.
pub proof fn law_rollback_is_refused(
    state: ExchangeView,
    records: Map<(Seq<u8>, bool), Seq<Seq<char>>>,
    txid: Seq<u8>,
)
    ensures
        ({
            let res = tx_rolled_back(state, records, txid);
            let recorded = records.contains_key((txid, true)) || records.contains_key(
                (txid, false),
            );
            let listed = counted_pools(records, txid).contains(state.address);
            &&& !recorded ==> res is Err && res->Err_0 == RollbackErrorView::NoRecord
            &&& recorded && !listed ==> res is Ok && res->Ok_0 == (state.states, state.game)
            &&& recorded && listed && (forall|j: int|
                0 <= j < state.states.len() ==> (#[trigger] state.states[j]).id != Some(txid))
                ==> res is Err && res->Err_0 == RollbackErrorView::Refused(
                ErrorView::InvalidState("txid not found"@),
            )
            &&& recorded && listed && state.states.len() > 0 && state.states[0].id == Some(txid)
                ==> res is Err && res->Err_0 == RollbackErrorView::Refused(
                ErrorView::InvalidState("Should not rollback index 0 state"@),
            )
        }),
{
    let pools = counted_pools(records, txid);
    lemma_times_listed(pools, state.address);
    lemma_index_of_tx(state.states, txid);
    if state.states.len() > 0 && state.states[0].id == Some(txid) {
        lemma_index_of_tx_is(state.states, txid, 0);
    }
}

/// A transaction that was executed on the pool, then confirmed by a block that is taken in and
/// finalizes nothing, and then rolled back, leaves the chain and the game with its gamers as they
/// were before it. It is for a transaction that was neither in the chain nor in the records.
pub proof fn law_rollback_undoes_confirmed_execution(
    state: ExchangeView,
    blocks: Map<u32, BlockView>,
    records: Map<(Seq<u8>, bool), Seq<Seq<char>>>,
    txid: Seq<u8>,
    intention: Intention,
    initiator: Seq<char>,
    plan: TxPlan,
    block: BlockView,
    depth: u32,
)
    requires
        can_judge(state, intention, initiator),
        is_plan(state, txid, intention, initiator, Ok(plan)),
        forall|j: int|
            0 <= j < state.states.len() ==> (#[trigger] state.states[j]).id != Some(txid),
        !records.contains_key((txid, true)),
        !records.contains_key((txid, false)),
        intention.pool_address@ == state.address,
    ensures
        ({
            let after = carried_out(state, plan@).0;
            let noted = recorded(records, txid, intention.pool_address@);
            block_taken_in(after, blocks, noted, block, depth) matches Ok((states, _, confirmed))
                ==> states == after.states ==> tx_rolled_back(
                ExchangeView { states, ..after },
                confirmed,
                txid,
            ) == Ok::<(Seq<PoolStateView>, GameView), RollbackErrorView>(
                (state.states, state.game),
            )
        }),
{
    lemma_index_of_tx(state.states, txid);
    law_rollback_undoes_execution(state, records, txid, intention, initiator, plan);
}

/// To note that a transaction on a pool was executed adds the pool to the record from its
/// execution, at the end, unless the record lists it; what the record listed stays, in its order.
/// Every other record is as before.
pub proof fn law_record_lists_the_pool(
    records: Map<(Seq<u8>, bool), Seq<Seq<char>>>,
    txid: Seq<u8>,
    pool: Seq<char>,
    other: (Seq<u8>, bool),
)
    ensures
        ({
            let after = recorded(records, txid, pool);
            let had = records.contains_key((txid, false));
            let before = records[(txid, false)];
            &&& after.contains_key((txid, false))
            &&& after[(txid, false)].contains(pool)
            &&& !had ==> after[(txid, false)].len() == 1
            &&& had && before.contains(pool) ==> after[(txid, false)] == before
            &&& had && !before.contains(pool) ==> after[(txid, false)] == before.push(pool)
            &&& (!had || listed_once(before, pool) || !before.contains(pool)) ==> listed_once(
                after[(txid, false)],
                pool,
            )
            &&& other != (txid, false) ==> after.contains_key(other) == records.contains_key(other)
            &&& other != (txid, false) && records.contains_key(other) ==> after[other]
                == records[other]
        }),
{
    let after = recorded(records, txid, pool);
    let pools = if records.contains_key((txid, false)) {
        records[(txid, false)]
    } else {
        Seq::empty()
    };
    assert(pools.push(pool)[pools.len() as int] == pool);
    if !pools.contains(pool) {
        assert forall|a: int, b: int|
            0 <= a < b < pools.push(pool).len() && #[trigger] pools.push(pool)[a]
                == pool implies #[trigger] pools.push(pool)[b] != pool by {
            assert(pools[a] == pool);
            assert(pools.contains(pool));
        }
    }
}

} // verus!
