//! The game: registrations, claims and withdrawals.

use ree_cookie::errors::ExchangeError;
use ree_cookie::game::{Game, Gamer};

fn new_game() -> Game {
    Game {
        game_duration: 3600,
        game_start_time: 100,
        gamer_register_fee: 1000,
        claim_cooling_down: 60,
        cookie_amount_per_claim: 10,
        max_cookies: 35,
        claimed_cookies: 0,
        gamer: None,
        is_end: false,
    }
}

fn name(s: &str) -> String {
    s.to_string()
}

fn gamer(game: &Game, id: &str) -> Gamer {
    game.find_gamer(&name(id)).unwrap().clone()
}

#[test]
fn new_gamer_starts_with_nothing() {
    let g = Gamer::new(name("alice"));
    assert_eq!(
        g,
        Gamer { address: name("alice"), cookies: 0, last_click_time: 0, is_withdrawn: false }
    );
}

#[test]
fn gamer_claim_adds_and_stamps() {
    let mut g = Gamer::new(name("alice"));
    assert_eq!(g.claim_at(7, 42), Ok(7));
    assert_eq!(g.claim_at(5, 43), Ok(12));
    assert_eq!(g.cookies, 12);
    assert_eq!(g.last_click_time, 43);
}

#[test]
fn gamer_claim_overflow_changes_nothing() {
    let mut g = Gamer::new(name("alice"));
    g.cookies = u128::MAX;
    assert_eq!(g.claim_at(1, 42), Err(ExchangeError::Overflow));
    assert_eq!(g.cookies, u128::MAX);
    assert_eq!(g.last_click_time, 0);
    assert_eq!(g.claim_at(0, 42), Ok(u128::MAX));
}

#[test]
fn registration_adds_a_gamer() {
    let mut game = new_game();
    assert!(game.find_gamer(&name("alice")).is_none());
    game.register_new_gamer(name("alice"));
    assert_eq!(gamer(&game, "alice"), Gamer::new(name("alice")));
    assert!(game.find_gamer(&name("bob")).is_none());
}

#[test]
fn registration_of_the_same_address_starts_anew() {
    let mut game = new_game();
    game.register_new_gamer(name("alice"));
    assert_eq!(game.claim_at(name("alice"), 60, 60), Ok(10));
    game.register_new_gamer(name("alice"));
    assert_eq!(gamer(&game, "alice").cookies, 0);
    assert_eq!(game.claimed_cookies, 10);
}

#[test]
fn claim_hands_out_and_counts() {
    let mut game = new_game();
    game.register_new_gamer(name("alice"));
    game.register_new_gamer(name("bob"));
    assert_eq!(game.claim_at(name("alice"), 1000, 1001), Ok(10));
    assert_eq!(game.claimed_cookies, 10);
    assert_eq!(gamer(&game, "alice").cookies, 10);
    assert_eq!(gamer(&game, "alice").last_click_time, 1001);
    assert_eq!(gamer(&game, "bob"), Gamer::new(name("bob")));
    assert_eq!(game.claim_at(name("alice"), 1061, 1061), Ok(20));
    assert_eq!(game.claimed_cookies, 20);
}

#[test]
fn first_claim_waits_for_the_cool_down_after_the_epoch() {
    let mut game = new_game();
    game.register_new_gamer(name("alice"));
    assert_eq!(
        game.claim_at(name("alice"), 59, 59),
        Err(ExchangeError::GamerCoolingDown(name("alice"), 60))
    );
    assert_eq!(game.claim_at(name("alice"), 60, 60), Ok(10));
}

#[test]
fn claims_are_spaced_by_the_cool_down() {
    let mut game = new_game();
    game.register_new_gamer(name("alice"));
    assert_eq!(game.claim_at(name("alice"), 1000, 1000), Ok(10));
    let before = game.clone();
    assert_eq!(
        game.claim_at(name("alice"), 1059, 1059),
        Err(ExchangeError::GamerCoolingDown(name("alice"), 1060))
    );
    assert_eq!(game, before);
    assert_eq!(
        game.able_claim_at(&name("alice"), 1059),
        Err(ExchangeError::GamerCoolingDown(name("alice"), 1060))
    );
    assert_eq!(game.able_claim_at(&name("alice"), 1060), Ok(()));
    assert_eq!(game.claim_at(name("alice"), 1060, 1060), Ok(20));
}

#[test]
fn claims_stop_when_the_cookies_run_out() {
    let mut game = new_game();
    game.register_new_gamer(name("alice"));
    assert_eq!(game.claim_at(name("alice"), 100, 100), Ok(10));
    assert_eq!(game.claim_at(name("alice"), 200, 200), Ok(20));
    assert_eq!(game.claim_at(name("alice"), 300, 300), Ok(30));
    assert_eq!(
        game.claim_at(name("alice"), 400, 400),
        Err(ExchangeError::CookieBalanceInsufficient(5))
    );
    assert_eq!(game.claimed_cookies, 30);
    // The supply is looked at before the gamer is.
    assert_eq!(
        game.claim_at(name("nobody"), 400, 400),
        Err(ExchangeError::CookieBalanceInsufficient(5))
    );
}

#[test]
fn claim_of_a_stranger_is_refused() {
    let mut game = new_game();
    assert_eq!(
        game.claim_at(name("nobody"), 1000, 1000),
        Err(ExchangeError::GamerNotFound(name("nobody")))
    );
    game.register_new_gamer(name("alice"));
    assert_eq!(
        game.able_claim_at(&name("nobody"), 1000),
        Err(ExchangeError::GamerNotFound(name("nobody")))
    );
}

#[test]
fn balance_overflow_is_counted_all_the_same() {
    let mut game = new_game();
    game.max_cookies = u128::MAX;
    game.register_new_gamer(name("alice"));
    let mut rich = gamer(&game, "alice");
    rich.cookies = u128::MAX - 3;
    let mut gamers = ree_cookie::game::Gamers::new();
    gamers.insert(name("alice"), rich);
    game.gamer = Some(gamers);
    assert_eq!(game.claim_at(name("alice"), 1000, 1000), Err(ExchangeError::Overflow));
    assert_eq!(game.claimed_cookies, 10);
    assert_eq!(gamer(&game, "alice").cookies, u128::MAX - 3);
    assert_eq!(gamer(&game, "alice").last_click_time, 0);
}

#[test]
fn claim_fits_tells_what_can_be_decided() {
    let mut game = new_game();
    game.register_new_gamer(name("alice"));
    assert!(game.claim_fits(&name("alice")));
    game.claim_cooling_down = u64::MAX;
    assert!(game.claim_fits(&name("alice")));
    assert_eq!(
        game.claim_at(name("alice"), 5, 5),
        Err(ExchangeError::GamerCoolingDown(name("alice"), u64::MAX))
    );
    let mut late = gamer(&game, "alice");
    late.last_click_time = 1;
    let mut gamers = ree_cookie::game::Gamers::new();
    gamers.insert(name("alice"), late);
    game.gamer = Some(gamers);
    assert!(!game.claim_fits(&name("alice")));
    assert!(game.claim_fits(&name("bob")));
    game.claimed_cookies = 36;
    assert!(!game.claim_fits(&name("bob")));
    game.claimed_cookies = 30;
    assert!(game.claim_fits(&name("alice")));
}

#[test]
fn withdrawal_waits_for_the_end() {
    let mut game = new_game();
    game.register_new_gamer(name("alice"));
    assert_eq!(game.withdraw(name("alice")), Err(ExchangeError::GameNotEnd));
    assert!(!gamer(&game, "alice").is_withdrawn);
    assert_eq!(game.withdraw(name("bob")), Err(ExchangeError::GamerNotFound(name("bob"))));
}

#[test]
fn withdrawal_is_made_once() {
    let mut game = new_game();
    game.register_new_gamer(name("alice"));
    assert_eq!(game.claim_at(name("alice"), 100, 100), Ok(10));
    game.is_end = true;
    assert_eq!(game.withdraw(name("alice")), Ok(10));
    assert!(gamer(&game, "alice").is_withdrawn);
    assert_eq!(gamer(&game, "alice").cookies, 10);
    let after = game.clone();
    assert_eq!(
        game.withdraw(name("alice")),
        Err(ExchangeError::GamerWithdrawRepeatedly(name("alice")))
    );
    assert_eq!(
        game.claim_at(name("alice"), 1000, 1000),
        Err(ExchangeError::GamerWithdrawRepeatedly(name("alice")))
    );
    assert_eq!(game, after);
}

#[test]
fn balances_stay_within_the_supply() {
    let mut game = new_game();
    for id in ["alice", "bob", "carol"] {
        game.register_new_gamer(name(id));
    }
    for round in 1..6u64 {
        for id in ["alice", "bob", "carol"] {
            let _ = game.claim_at(name(id), round * 100, round * 100);
            let total: u128 = ["alice", "bob", "carol"].iter().map(|i| gamer(&game, i).cookies).sum();
            assert_eq!(total, game.claimed_cookies);
            assert!(total <= game.max_cookies);
        }
    }
    assert_eq!(game.claimed_cookies, 30);
}

#[test]
fn rules_stay_as_they_were_set_up() {
    let mut game = new_game();
    game.register_new_gamer(name("alice"));
    let _ = game.claim_at(name("alice"), 100, 100);
    game.is_end = true;
    let _ = game.withdraw(name("alice"));
    assert_eq!(game.game_duration, 3600);
    assert_eq!(game.game_start_time, 100);
    assert_eq!(game.gamer_register_fee, 1000);
    assert_eq!(game.claim_cooling_down, 60);
    assert_eq!(game.cookie_amount_per_claim, 10);
    assert_eq!(game.max_cookies, 35);
    assert!(game.is_end);
}
