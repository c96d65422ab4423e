//! What a claim, a withdrawal and the end of the game are decided by, and what they change.

use vstd::prelude::*;
use crate::clock::is_clock_time;
use crate::errors::ErrorView;
use crate::game::{gamer_claim, gamer_claims_now, new_gamer, GameView, GamerView};
use crate::state::{ExchangeView, GameStatus};

verus! {

/// Whether the game knows a gamer by this address.
pub open spec fn knows(game: GameView, id: Seq<char>) -> bool {
    game.gamer is Some && game.gamer->0.contains_key(id)
}

/// A claim succeeds if and only if one claim's worth of cookies is left, the gamer is known and has
/// not withdrawn, the cool-down since the last claim is over at the time of the check, and the
/// balance fits. It then adds that amount to the balance of this gamer and to what is counted as
/// claimed, notes the time, and changes nothing else.
pub proof fn law_claim_succeeds(game: GameView, id: Seq<char>, checked: u64, noted: u64)
    ensures
        ({
            let (after, res) = game.claim(id, checked, noted);
            let amount = game.cookie_amount_per_claim;
            let g = game.gamer->0[id];
            &&& res is Ok <==> {
                &&& game.claimed_cookies + amount <= game.max_cookies
                &&& knows(game, id)
                &&& !g.is_withdrawn
                &&& g.last_click_time + game.claim_cooling_down <= checked
                &&& g.cookies + amount <= u128::MAX
            }
            &&& res matches Ok(balance) ==> {
                &&& balance == g.cookies + amount
                &&& after.claimed_cookies == game.claimed_cookies + amount
                &&& knows(after, id)
                &&& after.gamer->0[id].address == g.address
                &&& after.gamer->0[id].cookies == balance
                &&& after.gamer->0[id].last_click_time == noted
                &&& !after.gamer->0[id].is_withdrawn
                &&& after.gamer->0.remove(id) == game.gamer->0.remove(id)
                &&& after.game_duration == game.game_duration
                &&& after.game_start_time == game.game_start_time
                &&& after.gamer_register_fee == game.gamer_register_fee
                &&& after.claim_cooling_down == game.claim_cooling_down
                &&& after.cookie_amount_per_claim == game.cookie_amount_per_claim
                &&& after.max_cookies == game.max_cookies
                &&& after.is_end == game.is_end
            }
        }),
{
    if game.claim(id, checked, noted).1 is Ok {
        assert(game.claim(id, checked, noted).0.gamer->0.remove(id) =~= game.gamer->0.remove(id));
    }
}

/// A claim is refused for the first of these reasons that holds: the cookies that are left, which
/// it tells, are fewer than one claim hands out; the gamer is not known; the gamer has withdrawn;
/// the cool-down, whose end it tells, is not over; the balance would not fit. Only in the last case
/// does anything change: the cookies are counted as claimed all the same. It is for a claim that
/// can be decided: no more cookies are claimed than there are, and the end of the cool-down fits.
pub proof fn law_claim_is_refused(game: GameView, id: Seq<char>, checked: u64, noted: u64)
    requires
        game.claimed_cookies <= game.max_cookies,
        knows(game, id) ==> game.gamer->0[id].last_click_time + game.claim_cooling_down <= u64::MAX,
    ensures
        ({
            let (after, res) = game.claim(id, checked, noted);
            let amount = game.cookie_amount_per_claim;
            let left = game.max_cookies - game.claimed_cookies;
            let g = game.gamer->0[id];
            &&& left < amount ==> res is Err && (res->Err_0 matches
                ErrorView::CookieBalanceInsufficient(n) && n == left)
            &&& left >= amount && !knows(game, id) ==> res is Err && res->Err_0
                == ErrorView::GamerNotFound(id)
            &&& left >= amount && knows(game, id) && g.is_withdrawn ==> res is Err && res->Err_0
                == ErrorView::GamerWithdrawRepeatedly(id)
            &&& left >= amount && knows(game, id) && !g.is_withdrawn && g.last_click_time
                + game.claim_cooling_down > checked ==> res is Err && (res->Err_0 matches
                ErrorView::GamerCoolingDown(a, t) && a == id && t == g.last_click_time
                + game.claim_cooling_down)
            &&& res is Err && res->Err_0 != ErrorView::Overflow ==> after == game
            &&& res is Err && res->Err_0 == ErrorView::Overflow ==> {
                &&& g.cookies + amount > u128::MAX
                &&& after.claimed_cookies == game.claimed_cookies + amount
                &&& after.gamer == game.gamer
            }
        }),
{
    let (after, res) = game.claim(id, checked, noted);
    if res is Err && res->Err_0 == ErrorView::Overflow {
        assert(after.gamer->0 =~= game.gamer->0);
    }
}

/// A claim can be decided but where more is claimed than there is, or where it would come down to a
/// cool-down whose end does not fit. The claim of a caller who is not known can always be decided.
pub proof fn law_claims_are_decided(
    state: ExchangeView,
    caller: Seq<u8>,
    game: GameView,
    id: Seq<char>,
)
    ensures
        game.claim_fits(id) <==> {
            &&& game.claimed_cookies <= game.max_cookies
            &&& game.claimed_cookies + game.cookie_amount_per_claim <= game.max_cookies && knows(
                game,
                id,
            ) && !game.gamer->0[id].is_withdrawn ==> game.gamer->0[id].last_click_time
                + game.claim_cooling_down <= u64::MAX
        },
        state.claim_fits(caller) <==> !(state.address_principal_map is Some
            && state.address_principal_map->0.contains_key(caller)) || state.game.claim_fits(
            state.address_principal_map->0[caller],
        ),
{
}

/// Whether a claim would be allowed is decided as the claim itself is, but for the balance.
pub proof fn law_able_claim_tells_of_claims(game: GameView, id: Seq<char>, now: u64, noted: u64)
    ensures
        game.able_claim(id, now) is Err ==> game.claim(id, now, noted) == (
            game,
            Err::<u128, ErrorView>(game.able_claim(id, now)->Err_0),
        ),
        game.able_claim(id, now) is Ok <==> {
            &&& game.claimed_cookies + game.cookie_amount_per_claim <= game.max_cookies
            &&& knows(game, id)
            &&& !game.gamer->0[id].is_withdrawn
            &&& game.gamer->0[id].last_click_time + game.claim_cooling_down <= now
        },
{
}

/// A gamer's own claim adds the amount and notes the time, unless the sum does not fit, which
/// changes nothing.
pub proof fn law_gamer_claim(gamer: GamerView, amount: u128, now: u64)
    ensures
        ({
            let (after, res) = gamer_claim(gamer, amount, now);
            &&& after.address == gamer.address
            &&& after.is_withdrawn == gamer.is_withdrawn
            &&& res is Ok <==> gamer.cookies + amount <= u128::MAX
            &&& res is Ok ==> res->Ok_0 == after.cookies && after.cookies == gamer.cookies + amount
                && after.last_click_time == now
            &&& res is Err ==> res->Err_0 == ErrorView::Overflow && after == gamer
        }),
{
}

/// What a gamer's own claim notes is what the clock showed.
pub proof fn law_gamer_claims_by_the_clock(
    before: GamerView,
    amount: u128,
    after: GamerView,
    res: Result<u128, ErrorView>,
)
    requires
        gamer_claims_now(before, amount, after, res),
        res is Ok,
    ensures
        is_clock_time(after.last_click_time),
{
}

/// A claim goes by the clock: one that succeeds is noted at a time that the clock showed, and at
/// that time the cool-down since the claim before it was over. So the times of any two claims of a
/// gamer, of which one follows the other, lie apart by the cool-down at least.
pub proof fn law_claims_go_by_the_clock(
    game: GameView,
    id: Seq<char>,
    after: GameView,
    res: Result<u128, ErrorView>,
    later: GameView,
    later_res: Result<u128, ErrorView>,
)
    requires
        game.claims_now(id, after, res),
        after.claims_now(id, later, later_res),
    ensures
        res is Ok ==> {
            &&& is_clock_time(after.gamer->0[id].last_click_time)
            &&& game.gamer->0[id].last_click_time + game.claim_cooling_down
                <= after.gamer->0[id].last_click_time
        },
        res is Ok && later_res is Ok ==> later.gamer->0[id].last_click_time
            >= after.gamer->0[id].last_click_time + game.claim_cooling_down,
{
}

/// A caller claims for the gamer at the address that the caller plays under, by the clock, and
/// changes nothing but the game. A caller who is not known changes nothing, whatever the time. The
/// times of any two claims of which one follows the other lie apart by the cool-down at least, and
/// the first of them was noted at a time that the clock showed.
pub proof fn law_callers_claim_by_the_clock(
    state: ExchangeView,
    caller: Seq<u8>,
    after: ExchangeView,
    res: Result<u128, ErrorView>,
    later: ExchangeView,
    later_res: Result<u128, ErrorView>,
)
    requires
        state.claims_now(caller, after, res),
        after.claims_now(caller, later, later_res),
    ensures
        ({
            let known = state.address_principal_map is Some
                && state.address_principal_map->0.contains_key(caller);
            let id = state.address_principal_map->0[caller];
            &&& after.states == state.states
            &&& after.key == state.key
            &&& after.address == state.address
            &&& after.ii_canister == state.ii_canister
            &&& after.orchestrator == state.orchestrator
            &&& after.address_principal_map == state.address_principal_map
            &&& after.game_status == state.game_status
            &&& !known ==> after.game == state.game && (res matches Err(
                ErrorView::GamerNotFound(_),
            ))
            &&& known ==> state.game.claims_now(id, after.game, res)
            &&& res matches Ok(balance) ==> {
                &&& known
                &&& knows(state.game, id)
                &&& balance == state.game.gamer->0[id].cookies + state.game.cookie_amount_per_claim
                &&& after.game.gamer->0[id].cookies == balance
                &&& is_clock_time(after.game.gamer->0[id].last_click_time)
                &&& state.game.gamer->0[id].last_click_time + state.game.claim_cooling_down
                    <= after.game.gamer->0[id].last_click_time
                &&& later_res is Ok ==> later.game.gamer->0[id].last_click_time
                    >= after.game.gamer->0[id].last_click_time + state.game.claim_cooling_down
            }
        }),
{
    let known = state.address_principal_map is Some
        && state.address_principal_map->0.contains_key(caller);
    let id = state.address_principal_map->0[caller];
    let now = choose|now: u64|
        is_clock_time(now) && (after, res) == #[trigger] state.claim(caller, now, now);
    let then = choose|now: u64|
        is_clock_time(now) && (later, later_res) == #[trigger] after.claim(caller, now, now);
    if known {
        assert((after.game, res) == state.game.claim(id, now, now));
        assert((later.game, later_res) == after.game.claim(id, then, then));
        law_claims_go_by_the_clock(state.game, id, after.game, res, later.game, later_res);
        law_claim_succeeds(state.game, id, now, now);
    }
}

/// A withdrawal succeeds if and only if the gamer is known, the game is over, and the gamer has not
/// withdrawn before; it gives the balance, marks this gamer as withdrawn, and changes nothing else.
/// Otherwise it changes nothing and is refused for the first of these that fails.
pub proof fn law_withdrawal_succeeds(game: GameView, id: Seq<char>)
    ensures
        ({
            let (after, res) = game.withdraw(id);
            let g = game.gamer->0[id];
            &&& res is Ok <==> knows(game, id) && game.is_end && !g.is_withdrawn
            &&& res is Ok ==> {
                &&& res->Ok_0 == g.cookies
                &&& after == (GameView { gamer: after.gamer, ..game })
                &&& knows(after, id)
                &&& after.gamer->0[id].is_withdrawn
                &&& after.gamer->0[id].address == g.address
                &&& after.gamer->0[id].cookies == g.cookies
                &&& after.gamer->0[id].last_click_time == g.last_click_time
                &&& after.gamer->0.remove(id) == game.gamer->0.remove(id)
            }
            &&& res is Err ==> after == game && res->Err_0 == (if !knows(game, id) {
                ErrorView::GamerNotFound(id)
            } else if !game.is_end {
                ErrorView::GameNotEnd
            } else {
                ErrorView::GamerWithdrawRepeatedly(id)
            })
        }),
{
    if game.withdraw(id).1 is Ok {
        assert(game.withdraw(id).0.gamer->0.remove(id) =~= game.gamer->0.remove(id));
    }
}

/// One who registers starts with nothing, and every other gamer stays as before.
pub proof fn law_registration_starts_with_nothing(game: GameView, id: Seq<char>)
    ensures
        ({
            let after = game.with_gamer(id, new_gamer(id));
            &&& after == (GameView { gamer: after.gamer, ..game })
            &&& knows(after, id)
            &&& after.gamer->0[id].address == id
            &&& after.gamer->0[id].cookies == 0
            &&& after.gamer->0[id].last_click_time == 0
            &&& !after.gamer->0[id].is_withdrawn
            &&& forall|other: Seq<char>|
                other != id ==> #[trigger] knows(after, other) == knows(game, other) && (knows(
                    game,
                    other,
                ) ==> after.gamer->0[other] == game.gamer->0[other])
        }),
{
}

/// The game is ended if and only if it was not over; it is then over, and nothing else changed.
pub proof fn law_game_ends(state: ExchangeView)
    ensures
        ({
            let (after, res) = state.end_game();
            &&& res is Ok <==> state.game_status != GameStatus::Ended
            &&& after.game_status == GameStatus::Ended
            &&& res is Ok ==> after.game.is_end
            &&& res is Err ==> after == state && res->Err_0 == ErrorView::GameEnd
            &&& after == (ExchangeView {
                game_status: after.game_status,
                game: after.game,
                ..state
            })
            &&& after.game == (GameView { is_end: after.game.is_end, ..state.game })
        }),
{
}

} // verus!
