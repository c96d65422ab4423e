//! What the exchange answers.

use ree_cookie::coin::{CoinBalance, CoinId};
use ree_cookie::errors::ExchangeError;
use ree_cookie::exchange::{
    claim_at, ensure_orchestrator, get_game_and_gamer_infos, get_pool_info, get_pool_list,
    get_register_info, grant, init, key_derivation_path,
};
use ree_cookie::game::Gamer;
use ree_cookie::keymap::KeyMap;
use ree_cookie::principal::Principal;
use ree_cookie::reorg::{judge_block, BlockStep, ReorgError};
use ree_cookie::state::{ExchangeState, GameStatus, PoolState, Pubkey, UserAction};
use ree_cookie::utxo::{Txid, Utxo};
use ree_types::CoinBalances;

fn principal(n: u8) -> Principal {
    Principal::try_from_bytes(vec![n]).unwrap()
}

fn exchange() -> ExchangeState {
    init(
        3600,
        100,
        1000,
        60,
        10,
        1000,
        principal(1),
        principal(2),
        Pubkey { bytes: vec![3; 33] },
        "pool".to_string(),
    )
}

fn pool_state(coins: CoinBalances) -> PoolState {
    PoolState {
        id: None,
        nonce: 5,
        utxo: Some(Utxo { txid: Txid([7; 32]), vout: 1, coins, sats: 777 }),
        user_action: UserAction::Init,
    }
}

#[test]
fn new_exchange_has_the_given_rules() {
    let state = exchange();
    assert_eq!(state.states, vec![]);
    assert_eq!(state.key, Pubkey { bytes: vec![3; 33] });
    assert_eq!(state.address, "pool");
    assert_eq!(state.orchestrator, principal(1));
    assert_eq!(state.ii_canister, principal(2));
    assert_eq!(state.address_principal_map, None);
    assert_eq!(state.game_status, GameStatus::Init);
    assert_eq!(state.game.game_duration, 3600);
    assert_eq!(state.game.game_start_time, 100);
    assert_eq!(state.game.gamer_register_fee, 1000);
    assert_eq!(state.game.claim_cooling_down, 60);
    assert_eq!(state.game.cookie_amount_per_claim, 10);
    assert_eq!(state.game.max_cookies, 1000);
    assert_eq!(state.game.claimed_cookies, 0);
    assert_eq!(state.game.gamer, None);
    assert!(!state.game.is_end);
}

#[test]
fn game_infos_tell_of_the_gamer() {
    let mut state = exchange();
    assert_eq!(get_game_and_gamer_infos(&state, &"alice".to_string()).gamer, None);
    state.game.register_new_gamer("alice".to_string());
    let infos = get_game_and_gamer_infos(&state, &"alice".to_string());
    assert_eq!(infos.game_duration, 3600);
    assert_eq!(infos.game_start_time, 100);
    assert_eq!(infos.gamer_register_fee, 1000);
    assert_eq!(infos.claim_cooling_down, 60);
    assert_eq!(infos.cookie_amount_per_claim, 10);
    assert_eq!(infos.max_cookies, 1000);
    assert_eq!(infos.claimed_cookies, 0);
    assert_eq!(infos.gamer, Some(Gamer::new("alice".to_string())));
    assert_eq!(get_game_and_gamer_infos(&state, &"bob".to_string()).gamer, None);
}

#[test]
fn register_info_is_that_of_the_last_state() {
    let mut state = exchange();
    let info = get_register_info(&state);
    assert_eq!(info.utxo, None);
    assert_eq!(info.nonce, 0);
    assert_eq!(info.untweaked_key, Pubkey { bytes: vec![3; 33] });
    assert_eq!(info.address, "pool");
    assert_eq!(info.register_fee, 1000);
    state.commit(pool_state(CoinBalances::new()));
    let info = get_register_info(&state);
    assert_eq!(info.utxo.unwrap().sats, 777);
    assert_eq!(info.nonce, 5);
}

#[test]
fn there_is_one_pool() {
    let list = get_pool_list(&exchange());
    assert_eq!(list.len(), 1);
    assert_eq!(list[0].name, "REE_COOKIE");
    assert_eq!(list[0].address, "pool");
}

#[test]
fn key_path_is_the_rune() {
    assert_eq!(key_derivation_path(), vec![b"840000:846".to_vec()]);
}

#[test]
fn pool_info_needs_a_state_and_the_address() {
    let mut state = exchange();
    assert_eq!(get_pool_info(&state, &"pool".to_string()), None);
    state.commit(pool_state(CoinBalances::new()));
    assert_eq!(get_pool_info(&state, &"other".to_string()), None);
    assert!(get_pool_info(&state, &"pool".to_string()).is_some());
}

#[test]
fn pool_info_tells_what_the_pool_holds() {
    let mut state = exchange();
    let mut coins = CoinBalances::new();
    coins.add_coin(&ree_types::CoinBalance { id: ree_types::CoinId::rune(1, 1), value: 4 });
    coins.add_coin(&ree_types::CoinBalance { id: ree_types::CoinId::rune(840000, 846), value: 55 });
    state.commit(pool_state(coins));
    let info = get_pool_info(&state, &"pool".to_string()).unwrap();
    assert_eq!(info.key, Pubkey { bytes: vec![3; 33] });
    assert_eq!(info.key_derivation_path, vec![b"840000:846".to_vec()]);
    assert_eq!(info.name, "HOPE\u{2022}YOU\u{2022}GET\u{2022}RICH");
    assert_eq!(info.address, "pool");
    assert_eq!(info.nonce, 5);
    assert_eq!(info.coin_reserved, vec![CoinBalance { id: CoinId::cookie(), value: 55 }]);
    assert_eq!(info.btc_reserved, 777);
    assert_eq!(info.utxos.len(), 1);
    assert_eq!(info.utxos[0].vout, 1);
    assert_eq!(info.attributes, "");
}

#[test]
fn pool_info_without_an_output_is_empty() {
    let mut state = exchange();
    let mut last = pool_state(CoinBalances::new());
    state.commit(last.clone());
    let info = get_pool_info(&state, &"pool".to_string()).unwrap();
    assert_eq!(info.coin_reserved, vec![CoinBalance { id: CoinId::cookie(), value: 0 }]);
    last.utxo = None;
    state.commit(last);
    let info = get_pool_info(&state, &"pool".to_string()).unwrap();
    assert_eq!(info.coin_reserved, vec![CoinBalance { id: CoinId::cookie(), value: 0 }]);
    assert_eq!(info.btc_reserved, 0);
    assert_eq!(info.utxos.len(), 0);
}

#[test]
fn claims_are_made_under_the_address_of_the_caller() {
    let mut state = exchange();
    state.game.register_new_gamer("alice".to_string());
    assert!(state.claim_fits(&principal(9)));
    assert_eq!(
        claim_at(&mut state, &principal(9), 500, 500),
        Err(ExchangeError::GamerNotFound(principal(9).to_text()))
    );
    let mut map: KeyMap<Principal, String> = KeyMap::new();
    map.insert(principal(8), "alice".to_string());
    map.insert(principal(7), "bob".to_string());
    state.address_principal_map = Some(map);
    assert_eq!(state.find_address(&principal(8)), Some("alice".to_string()));
    assert_eq!(state.find_address(&principal(9)), None);
    assert_eq!(
        claim_at(&mut state, &principal(9), 500, 500),
        Err(ExchangeError::GamerNotFound(principal(9).to_text()))
    );
    assert_eq!(
        claim_at(&mut state, &principal(7), 500, 500),
        Err(ExchangeError::GamerNotFound("bob".to_string()))
    );
    assert_eq!(claim_at(&mut state, &principal(8), 500, 501), Ok(10));
    assert_eq!(
        claim_at(&mut state, &principal(8), 560, 560),
        Err(ExchangeError::GamerCoolingDown("alice".to_string(), 561))
    );
    assert_eq!(state.game.claimed_cookies, 10);
    state.game.claimed_cookies = 1001;
    assert!(!state.claim_fits(&principal(8)));
    assert!(state.claim_fits(&principal(9)));
}

#[test]
fn only_the_orchestrator_is_let_through() {
    let state = exchange();
    assert_eq!(ensure_orchestrator(&state, &principal(1)), Ok(()));
    assert_eq!(ensure_orchestrator(&state, &principal(2)), Err("Access denied".to_string()));
    assert_eq!(grant(true), Ok(()));
    assert_eq!(grant(false), Err("Access denied".to_string()));
}

#[test]
fn blocks_are_judged_by_how_they_fit() {
    assert_eq!(judge_block(&Ok(())), BlockStep::Accept);
    assert_eq!(
        judge_block(&Err(ReorgError::DuplicateBlock { height: 5, hash: "h".to_string() })),
        BlockStep::Accept
    );
    assert_eq!(
        judge_block(&Err(ReorgError::Unrecoverable)),
        BlockStep::Refuse("Unrecoverable reorg detected".to_string())
    );
    assert_eq!(
        judge_block(&Err(ReorgError::BlockNotFoundInState { height: 120 })),
        BlockStep::Refuse("Block not found in state at height 120".to_string())
    );
    assert_eq!(
        judge_block(&Err(ReorgError::Recoverable { height: 9, depth: 2 })),
        BlockStep::HandleReorg { height: 9, depth: 2 }
    );
}
