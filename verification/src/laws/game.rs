//! What holds of the game.

use vstd::prelude::*;
use crate::blocks::times_listed;
use crate::clock::{is_clock_time, NANOS_PER_SECOND};
use crate::errors::ErrorView;
use crate::exchange::new_exchange;
use crate::game::{gamers_view, new_gamer, Game, GameView, GamerView};
use crate::keymap::lemma_keys_are_finite;
use crate::state::{
    index_of_tx, rolled_back, undone, ExchangeView, PoolStateView, UserActionView,
};
use crate::tx::{carried_out, latest_record, rolled_back_times, tx_rolled_back, TxPlanView};

verus! {

/// The cookies of all gamers together.
pub open spec fn total_cookies(gamers: Map<Seq<char>, GamerView>) -> nat
    decreases gamers.dom().len(),
    when gamers.dom().finite()
{
    if gamers.dom().len() == 0 {
        0
    } else {
        let id = gamers.dom().choose();
        (gamers[id].cookies + total_cookies(gamers.remove(id))) as nat
    }
}

/// Whether the game has handed out no more cookies than it has counted as claimed, and counted no
/// more than there are.
pub open spec fn within_supply(game: GameView) -> bool {
    &&& game.claimed_cookies <= game.max_cookies
    &&& game.gamer matches Some(gamers) ==> gamers.dom().finite() && total_cookies(gamers)
        <= game.claimed_cookies
}

/// Any gamer can be taken out of the sum first.
proof fn lemma_total_remove(gamers: Map<Seq<char>, GamerView>, id: Seq<char>)
    requires
        gamers.dom().finite(),
        gamers.contains_key(id),
    ensures
        total_cookies(gamers) == gamers[id].cookies + total_cookies(gamers.remove(id)),
    decreases gamers.dom().len(),
{
    let first = gamers.dom().choose();
    assert(gamers.dom().contains(id));
    assert(gamers.dom().len() > 0);
    if first != id {
        lemma_total_remove(gamers.remove(first), id);
        lemma_total_remove(gamers.remove(id), first);
        assert(gamers.remove(first).remove(id) =~= gamers.remove(id).remove(first));
    }
}

/// One gamer more, or another one in its place.
proof fn lemma_total_insert(gamers: Map<Seq<char>, GamerView>, id: Seq<char>, gamer: GamerView)
    requires
        gamers.dom().finite(),
    ensures
        gamers.insert(id, gamer).dom().finite(),
        total_cookies(gamers.insert(id, gamer)) == gamer.cookies + total_cookies(gamers) - (
        if gamers.contains_key(id) {
            gamers[id].cookies as int
        } else {
            0
        }),
{
    let after = gamers.insert(id, gamer);
    lemma_total_remove(after, id);
    assert(after.remove(id) =~= gamers.remove(id));
    if gamers.contains_key(id) {
        lemma_total_remove(gamers, id);
    } else {
        assert(gamers.remove(id) =~= gamers);
    }
}

/// A gamer has no more cookies than all together.
proof fn lemma_total_bounds(gamers: Map<Seq<char>, GamerView>, id: Seq<char>)
    requires
        gamers.dom().finite(),
        gamers.contains_key(id),
    ensures
        gamers[id].cookies <= total_cookies(gamers),
{
    lemma_total_remove(gamers, id);
}

/// A game has finitely many gamers.
pub proof fn law_gamers_are_finite(game: Game)
    ensures
        game@.gamer matches Some(gamers) ==> gamers.dom().finite(),
{
    match game.gamer {
        Some(gamers) => {
            lemma_keys_are_finite(gamers);
            assert(gamers_view(gamers@).dom() =~= gamers@.dom());
        },
        None => {},
    }
}

/// A new exchange is within its supply.
pub proof fn law_new_game_is_within_supply(
    game_duration: u64,
    game_start_time: u64,
    gamer_register_fee: u64,
    claim_cooling_down: u64,
    cookie_amount_per_claim: u128,
    max_cookies: u128,
    orchestrator: Seq<u8>,
    ii_canister: Seq<u8>,
    key: Seq<u8>,
    address: Seq<char>,
)
    ensures
        within_supply(
            new_exchange(
                game_duration,
                game_start_time,
                gamer_register_fee,
                claim_cooling_down,
                cookie_amount_per_claim,
                max_cookies,
                orchestrator,
                ii_canister,
                key,
                address,
            ).game,
        ),
{
}

/// A registration keeps the game within its supply.
pub proof fn law_register_keeps_supply(game: GameView, id: Seq<char>)
    requires
        within_supply(game),
    ensures
        within_supply(game.with_gamer(id, new_gamer(id))),
{
    match game.gamer {
        Some(gamers) => {
            lemma_total_insert(gamers, id, new_gamer(id));
        },
        None => {
            lemma_total_insert(Map::empty(), id, new_gamer(id));
        },
    }
}

/// A claim keeps the game within its supply. One that is allowed is never refused for a balance
/// that is too large: the gamer gets the cookies, and the same number is counted as claimed.
pub proof fn law_claim_keeps_supply(game: GameView, id: Seq<char>, checked: u64, noted: u64)
    requires
        within_supply(game),
    ensures
        within_supply(game.claim(id, checked, noted).0),
        game.able_claim(id, checked) is Ok ==> {
            let (after, res) = game.claim(id, checked, noted);
            &&& res matches Ok(balance) && balance == game.gamer_at(id)->0.cookies
                + game.cookie_amount_per_claim
            &&& after.claimed_cookies == game.claimed_cookies + game.cookie_amount_per_claim
            &&& total_cookies(after.gamer->0) == total_cookies(game.gamer->0)
                + game.cookie_amount_per_claim
        },
{
    if game.able_claim(id, checked) is Ok {
        let gamers = game.gamer->0;
        lemma_total_bounds(gamers, id);
        lemma_total_insert(gamers, id, game.claim(id, checked, noted).0.gamer_at(id)->0);
    }
}

/// A withdrawal keeps the game within its supply, and changes no balance.
pub proof fn law_withdraw_keeps_supply(game: GameView, id: Seq<char>)
    requires
        game.gamer matches Some(gamers) ==> gamers.dom().finite(),
    ensures
        within_supply(game) ==> within_supply(game.withdraw(id).0),
        game.gamer is Some ==> total_cookies(game.withdraw(id).0.gamer->0) == total_cookies(
            game.gamer->0,
        ),
{
    if game.withdraw(id).1 is Ok {
        let gamers = game.gamer->0;
        lemma_total_insert(gamers, id, GamerView { is_withdrawn: true, ..gamers[id] });
    }
}

/// What is done to the exchange keeps its game within its supply: carrying out a transaction, a
/// claim, and the end of the game.
pub proof fn law_exchange_keeps_supply(
    state: ExchangeView,
    plan: TxPlanView,
    caller: Seq<u8>,
    checked: u64,
    noted: u64,
)
    requires
        within_supply(state.game),
    ensures
        within_supply(carried_out(state, plan).0.game),
        within_supply(state.claim(caller, checked, noted).0.game),
        within_supply(state.end_game().0.game),
{
    law_register_keeps_supply(state.game, plan.initiator);
    law_withdraw_keeps_supply(state.game, plan.initiator);
    match state.address_of(caller) {
        Some(address) => {
            law_claim_keeps_supply(state.game, address, checked, noted);
        },
        None => {},
    }
}

/// Undoing pool states keeps the game within its supply, and its claims those of the clock.
proof fn lemma_undone_keeps_supply(states: Seq<PoolStateView>, game: GameView, keep: int)
    ensures
        within_supply(game) ==> within_supply(undone(states, game, keep).1),
        undone(states, game, keep).1 == (GameView {
            gamer: undone(states, game, keep).1.gamer,
            ..game
        }),
        clicked_by_the_clock(game) ==> clicked_by_the_clock(undone(states, game, keep).1),
    decreases states.len(),
{
    if !(states.len() <= keep || states.len() == 0) {
        let rest = states.drop_last();
        match states.last().user_action {
            UserActionView::Init => {},
            UserActionView::Register(a) => {
                if game.gamer_at(a) is Some {
                    let before = game.without_gamer(a);
                    if within_supply(game) {
                        lemma_total_remove(game.gamer->0, a);
                    }
                    assert(forall|id: Seq<char>| #[trigger]
                        before.gamer_at(id) is Some ==> before.gamer_at(id) == game.gamer_at(id));
                    lemma_undone_keeps_supply(rest, before, keep);
                }
            },
            UserActionView::Withdraw(a) => {
                if game.gamer_at(a) is Some {
                    let gamer = GamerView { is_withdrawn: false, ..game.gamer_at(a)->0 };
                    let before = game.with_gamer(a, gamer);
                    if within_supply(game) {
                        lemma_total_insert(game.gamer->0, a, gamer);
                    }
                    assert(forall|id: Seq<char>| #[trigger]
                        before.gamer_at(id) is Some && id != a ==> before.gamer_at(id)
                            == game.gamer_at(id));
                    assert(clicked_by_the_clock(game) ==> gamer.last_click_time <= u64::MAX
                        / NANOS_PER_SECOND);
                    lemma_undone_keeps_supply(rest, before, keep);
                }
            },
        }
    }
}

/// Rolling back any number of times keeps the game within its supply, and its claims those of the
/// clock.
proof fn lemma_rolled_back_keeps_supply(
    states: Seq<PoolStateView>,
    game: GameView,
    txid: Seq<u8>,
    n: nat,
)
    ensures
        rolled_back_times(states, game, txid, n) matches Ok((_, after)) ==> (within_supply(game)
            ==> within_supply(after)) && after == (GameView { gamer: after.gamer, ..game }) && (clicked_by_the_clock(game)
            ==> clicked_by_the_clock(after)),
    decreases n,
{
    if n > 0 {
        let (left, before, res) = rolled_back(states, game, txid);
        match index_of_tx(states, txid) {
            Some(i) => {
                if i != 0 {
                    lemma_undone_keeps_supply(states, game, i);
                }
            },
            None => {},
        }
        if res is Ok {
            lemma_rolled_back_keeps_supply(left, before, txid, (n - 1) as nat);
        }
    }
}

/// Rolling a transaction back keeps the game within its supply, and its claims those of the clock.
/// The cookies of a gamer whose registration is undone stay counted as claimed.
pub proof fn law_rollback_keeps_supply(
    state: ExchangeView,
    records: Map<(Seq<u8>, bool), Seq<Seq<char>>>,
    txid: Seq<u8>,
)
    ensures
        tx_rolled_back(state, records, txid) matches Ok((_, game)) ==> {
            &&& within_supply(state.game) ==> within_supply(game)
            &&& game == (GameView { gamer: game.gamer, ..state.game })
            &&& clicked_by_the_clock(state.game) ==> clicked_by_the_clock(game)
        },
{
    match latest_record(records, txid) {
        Some(pools) => {
            lemma_rolled_back_keeps_supply(
                state.states,
                state.game,
                txid,
                times_listed(pools, state.address),
            );
        },
        None => {},
    }
}

/// Whether no gamer claimed last at a time that is later than the clock can show.
pub open spec fn clicked_by_the_clock(game: GameView) -> bool {
    forall|id: Seq<char>| #[trigger]
        game.gamer_at(id) matches Some(g) ==> g.last_click_time <= u64::MAX / NANOS_PER_SECOND
}

/// In a game within its supply, whose claims were noted by the clock, every claim can be decided,
/// unless the cool-down is so long that its end may lie beyond what can be counted. Registrations,
/// claims that are noted by the clock, and withdrawals keep it so.
pub proof fn law_claims_can_be_decided(
    game: GameView,
    id: Seq<char>,
    checked: u64,
    noted: u64,
)
    requires
        clicked_by_the_clock(game),
    ensures
        within_supply(game) && game.claim_cooling_down <= u64::MAX - u64::MAX / NANOS_PER_SECOND
            ==> game.claim_fits(id),
        clicked_by_the_clock(game.with_gamer(id, new_gamer(id))),
        is_clock_time(noted) ==> clicked_by_the_clock(game.claim(id, checked, noted).0),
        clicked_by_the_clock(game.withdraw(id).0),
{
    let registered = game.with_gamer(id, new_gamer(id));
    assert forall|a: Seq<char>| #[trigger] registered.gamer_at(a) matches Some(
        g,
    ) implies registered.gamer_at(a)->0.last_click_time <= u64::MAX / NANOS_PER_SECOND by {
        assert(a != id ==> registered.gamer_at(a) == game.gamer_at(a));
    }
    let claimed = game.claim(id, checked, noted).0;
    assert forall|a: Seq<char>|
        is_clock_time(noted) && (#[trigger] claimed.gamer_at(a)) is Some implies claimed.gamer_at(
        a,
    )->0.last_click_time <= u64::MAX / NANOS_PER_SECOND by {
        assert(a != id ==> claimed.gamer_at(a) == game.gamer_at(a));
        assert(game.gamer_at(id) is Some || claimed.gamer_at(a) == game.gamer_at(a));
    }
    let withdrawn = game.withdraw(id).0;
    assert forall|a: Seq<char>| #[trigger] withdrawn.gamer_at(a) matches Some(
        g,
    ) implies withdrawn.gamer_at(a)->0.last_click_time <= u64::MAX / NANOS_PER_SECOND by {
        assert(a != id ==> withdrawn.gamer_at(a) == game.gamer_at(a));
        assert(game.gamer_at(id) is Some || withdrawn.gamer_at(a) == game.gamer_at(a));
    }
}

/// After a claim the gamer has to wait: until the cool-down is over no further claim succeeds, and
/// each is refused with the time at which it is over unless the cookies have run out. The cool-down
/// counts from the time at which the claim was noted.
pub proof fn law_claims_are_spaced(
    game: GameView,
    id: Seq<char>,
    checked: u64,
    noted: u64,
    later: u64,
    later_noted: u64,
)
    requires
        game.claim(id, checked, noted).1 is Ok,
        later < noted + game.claim_cooling_down <= u64::MAX,
    ensures
        ({
            let after = game.claim(id, checked, noted).0;
            let (unchanged, res) = after.claim(id, later, later_noted);
            &&& unchanged == after
            &&& res is Err
            &&& after.max_cookies - after.claimed_cookies >= after.cookie_amount_per_claim ==> res
                == Err::<u128, ErrorView>(
                ErrorView::GamerCoolingDown(id, (noted + game.claim_cooling_down) as u64),
            )
        }),
{
}

/// What one gamer does, by a registration, a claim or a withdrawal, leaves the others as they were.
pub proof fn law_gamers_are_apart(
    game: GameView,
    id: Seq<char>,
    other: Seq<char>,
    checked: u64,
    noted: u64,
)
    requires
        id != other,
    ensures
        game.with_gamer(id, new_gamer(id)).gamer_at(other) == game.gamer_at(other),
        game.claim(id, checked, noted).0.gamer_at(other) == game.gamer_at(other),
        game.withdraw(id).0.gamer_at(other) == game.gamer_at(other),
{
}

/// A gamer withdraws at most once: after it succeeded, a second withdrawal is refused and nothing
/// changes, and no claim succeeds.
pub proof fn law_withdraws_once(game: GameView, id: Seq<char>, checked: u64, noted: u64)
    requires
        game.withdraw(id).1 is Ok,
    ensures
        ({
            let after = game.withdraw(id).0;
            &&& game.withdraw(id).1 == Ok::<u128, ErrorView>(game.gamer_at(id)->0.cookies)
            &&& after.withdraw(id) == (
                after,
                Err::<u128, ErrorView>(ErrorView::GamerWithdrawRepeatedly(id)),
            )
            &&& after.claim(id, checked, noted).0 == after
            &&& after.claim(id, checked, noted).1 is Err
        }),
{
}

/// Nothing is withdrawn before the end of the game.
pub proof fn law_no_withdrawal_before_the_end(game: GameView, id: Seq<char>)
    requires
        !game.is_end,
    ensures
        game.withdraw(id).0 == game,
        game.withdraw(id).1 is Err,
{
}

/// Whether two games have the same rules, and both are over or neither is.
pub open spec fn same_rules(a: GameView, b: GameView) -> bool {
    a == (GameView { gamer: a.gamer, claimed_cookies: a.claimed_cookies, ..b })
}

/// The rules of the game stay as they were set up, whatever the gamers do; and the game is over
/// after it if and only if it was before.
pub proof fn law_rules_are_fixed(game: GameView, id: Seq<char>, checked: u64, noted: u64)
    ensures
        same_rules(game.with_gamer(id, new_gamer(id)), game),
        same_rules(game.claim(id, checked, noted).0, game),
        same_rules(game.withdraw(id).0, game),
{
}

} // verus!
