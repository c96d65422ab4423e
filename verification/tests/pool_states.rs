//! The chain of pool states: what is signed, what is final, what is undone.

use ree_cookie::coin::{CoinBalance, CoinId, InputCoin, OutputCoin};
use ree_cookie::errors::ExchangeError;
use ree_cookie::exchange::init;
use ree_cookie::game::Gamers;
use ree_cookie::principal::Principal;
use ree_cookie::state::{ExchangeState, GameStatus, PoolState, Pubkey, UserAction};
use ree_cookie::utxo::{Txid, Utxo};
use ree_types::CoinBalances;

const FEE: u64 = 1000;

fn txid(n: u8) -> Txid {
    let mut bytes = [0u8; 32];
    bytes[0] = n;
    Txid(bytes)
}

fn coins(value: u128) -> CoinBalances {
    let mut coins = CoinBalances::new();
    coins.add_coin(&ree_types::CoinBalance { id: ree_types::CoinId::rune(840000, 846), value });
    coins
}

fn utxo(n: u8, vout: u32, sats: u64) -> Utxo {
    Utxo { txid: txid(n), vout, coins: coins(500), sats }
}

fn pool_state(n: u8, nonce: u64, user_action: UserAction) -> PoolState {
    PoolState { id: Some(txid(n)), nonce, utxo: Some(utxo(n, 0, 10_000)), user_action }
}

fn registered(n: u8, nonce: u64, id: &str) -> PoolState {
    pool_state(n, nonce, UserAction::Register(id.to_string()))
}

fn bare_exchange() -> ExchangeState {
    init(
        3600,
        100,
        FEE,
        60,
        10,
        1000,
        Principal::try_from_bytes(vec![1]).unwrap(),
        Principal::try_from_bytes(vec![2]).unwrap(),
        Pubkey { bytes: vec![2; 33] },
        "pool".to_string(),
    )
}

/// An exchange with one pool state, that of transaction 1, and nobody registered.
fn exchange() -> ExchangeState {
    let mut state = bare_exchange();
    state.game.gamer = Some(Gamers::new());
    state.commit(pool_state(1, 7, UserAction::Init));
    state
}

fn btc(value: u128) -> InputCoin {
    InputCoin { from: "alice".to_string(), coin: CoinBalance { id: CoinId::btc(), value } }
}

fn rune_to(to: &str, value: u128) -> OutputCoin {
    OutputCoin { to: to.to_string(), coin: CoinBalance { id: CoinId::cookie(), value } }
}

fn register(
    state: &ExchangeState,
    nonce: u64,
    spend: Vec<String>,
) -> Result<(PoolState, Utxo), ExchangeError> {
    state.validate_register(
        txid(9),
        nonce,
        spend,
        vec![utxo(8, 3, 0), utxo(9, 2, 123)],
        vec![btc(1001)],
        vec![],
        "alice".to_string(),
    )
}

fn tip(state: &ExchangeState) -> String {
    state.states.last().unwrap().utxo.as_ref().unwrap().outpoint()
}

#[test]
fn registration_is_let_through() {
    let state = exchange();
    let (new_state, consumed) = register(&state, 7, vec!["x:1".to_string(), tip(&state)]).unwrap();
    assert_eq!(
        new_state,
        PoolState {
            id: Some(txid(9)),
            nonce: 8,
            utxo: Some(Utxo { txid: txid(9), vout: 2, coins: coins(500), sats: 10_000 + FEE }),
            user_action: UserAction::Register("alice".to_string()),
        }
    );
    assert_eq!(consumed, utxo(1, 0, 10_000));
}

#[test]
fn registration_after_the_end_is_refused() {
    let mut state = exchange();
    assert_eq!(state.end_game(), Ok(()));
    assert_eq!(register(&state, 7, vec![tip(&state)]), Err(ExchangeError::GameEnd));
}

#[test]
fn registration_of_a_gamer_is_refused() {
    let mut state = exchange();
    state.game.register_new_gamer("alice".to_string());
    assert_eq!(
        register(&state, 7, vec![tip(&state)]),
        Err(ExchangeError::GamerAlreadyExist("alice".to_string()))
    );
}

#[test]
fn registration_is_held_to_its_coins() {
    let state = exchange();
    let rune = InputCoin {
        from: "al\"ice".to_string(),
        coin: CoinBalance { id: CoinId::cookie(), value: 5000 },
    };
    let cases: Vec<(Vec<InputCoin>, Vec<OutputCoin>)> = vec![
        (vec![], vec![]),
        (vec![btc(1000)], vec![]),
        (vec![rune], vec![]),
        (vec![btc(5000), btc(5000)], vec![]),
        (vec![btc(5000)], vec![rune_to("alice", 1)]),
    ];
    for (inputs, outputs) in cases {
        let ree_inputs: Vec<ree_types::InputCoin> = inputs
            .iter()
            .map(|c| ree_types::InputCoin {
                from: c.from.clone(),
                coin: ree_types::CoinBalance {
                    id: ree_types::CoinId::rune(c.coin.id.block, c.coin.id.tx),
                    value: c.coin.value,
                },
            })
            .collect();
        let ree_outputs: Vec<ree_types::OutputCoin> = outputs
            .iter()
            .map(|c| ree_types::OutputCoin {
                to: c.to.clone(),
                coin: ree_types::CoinBalance {
                    id: ree_types::CoinId::rune(c.coin.id.block, c.coin.id.tx),
                    value: c.coin.value,
                },
            })
            .collect();
        let message = format!("input_coins: {:?}, output_coins: {:?}", ree_inputs, ree_outputs);
        let res = state.validate_register(
            txid(9),
            7,
            vec![tip(&state)],
            vec![utxo(9, 2, 123)],
            inputs,
            outputs,
            "alice".to_string(),
        );
        assert_eq!(res, Err(ExchangeError::InvalidSignPsbtArgs(message)));
    }
}

#[test]
fn registration_without_a_pool_state_is_refused() {
    let mut state = exchange();
    state.states = vec![];
    assert_eq!(
        register(&state, 0, vec!["x:1".to_string()]),
        Err(ExchangeError::LastStateNotFound)
    );
    let mut empty = exchange();
    empty.states[0].utxo = None;
    assert_eq!(
        register(&empty, 7, vec!["x:1".to_string()]),
        Err(ExchangeError::LastStateNotFound)
    );
}

#[test]
fn registration_for_another_nonce_is_refused() {
    let state = exchange();
    assert_eq!(register(&state, 6, vec![tip(&state)]), Err(ExchangeError::PoolStateExpired(7)));
}

#[test]
fn registration_must_spend_the_tip() {
    let state = exchange();
    assert_eq!(
        register(&state, 7, vec![]),
        Err(ExchangeError::InvalidSignPsbtArgs("pool_utxo_spend is empty".to_string()))
    );
    let spend = vec![tip(&state), "other:\"0\"".to_string()];
    let last = ree_types::Utxo {
        txid: ree_types::Txid::from_bytes(&txid(1).0).unwrap(),
        vout: 0,
        coins: coins(500),
        sats: 10_000,
    };
    let message = format!("pool_utxo_spend: {:?}, last_state_utxo: {:?}", spend, Some(last));
    assert_eq!(register(&state, 7, spend), Err(ExchangeError::InvalidSignPsbtArgs(message)));
}

#[test]
fn registration_must_pay_to_the_pool() {
    let state = exchange();
    let res = state.validate_register(
        txid(9),
        7,
        vec![tip(&state)],
        vec![],
        vec![btc(1001)],
        vec![],
        "alice".to_string(),
    );
    assert_eq!(
        res,
        Err(ExchangeError::InvalidSignPsbtArgs("pool_utxo_receive not found".to_string()))
    );
}

#[test]
fn registration_sums_must_fit() {
    let mut state = exchange();
    state.states[0].utxo = Some(utxo(1, 0, u64::MAX - FEE + 1));
    assert_eq!(register(&state, 7, vec![tip(&state)]), Err(ExchangeError::Overflow));
    let mut late = exchange();
    late.states[0].nonce = u64::MAX;
    assert_eq!(register(&late, u64::MAX, vec![tip(&late)]), Err(ExchangeError::Overflow));
}

fn withdraw(
    state: &ExchangeState,
    inputs: Vec<InputCoin>,
    outputs: Vec<OutputCoin>,
) -> Result<(PoolState, Utxo), ExchangeError> {
    assert!(state.withdraw_is_decided(&inputs, &outputs, &"alice".to_string()));
    state.validate_withdraw(
        txid(9),
        7,
        vec![tip(state)],
        vec![utxo(9, 2, 123)],
        inputs,
        outputs,
        "alice".to_string(),
    )
}

#[test]
fn withdrawal_is_never_let_through() {
    let mut state = exchange();
    assert_eq!(
        withdraw(&state, vec![], vec![rune_to("alice", 0)]),
        Err(ExchangeError::GamerNotFound("alice".to_string()))
    );
    state.game.register_new_gamer("alice".to_string());
    let output = ree_types::OutputCoin {
        to: "alice".to_string(),
        coin: ree_types::CoinBalance { id: ree_types::CoinId::rune(840000, 846), value: 0 },
    };
    let inputs: Vec<ree_types::InputCoin> = vec![];
    assert_eq!(
        withdraw(&state, vec![], vec![rune_to("alice", 0)]),
        Err(ExchangeError::InvalidSignPsbtArgs(format!(
            "input_coins: {:?}, output_coins: {:?}",
            inputs,
            vec![output]
        )))
    );
    assert!(!state.withdraw_is_decided(
        &vec![],
        &vec![rune_to("alice", 0), rune_to("alice", 0)],
        &"alice".to_string()
    ));
    assert_eq!(state.end_game(), Ok(()));
    assert_eq!(
        withdraw(&state, vec![], vec![rune_to("alice", 0)]),
        Err(ExchangeError::GameEnd)
    );
}

fn pay(
    state: &ExchangeState,
    nonce: u64,
    spend: Vec<String>,
    receive: Vec<Utxo>,
    cookies: u128,
) -> Result<(PoolState, Utxo), ExchangeError> {
    state.validate_pay_out(txid(9), nonce, &spend, &receive, cookies, "alice".to_string())
}

#[test]
fn payment_moves_the_pool_on() {
    let state = exchange();
    let (new_state, consumed) =
        pay(&state, 7, vec![tip(&state)], vec![utxo(9, 2, 123), utxo(8, 1, 5)], 500).unwrap();
    assert_eq!(
        new_state,
        PoolState {
            id: Some(txid(9)),
            nonce: 8,
            utxo: Some(Utxo { txid: txid(9), vout: 2, coins: CoinBalances::new(), sats: 10_000 }),
            user_action: UserAction::Withdraw("alice".to_string()),
        }
    );
    assert_eq!(consumed, utxo(1, 0, 10_000));
}

#[test]
fn payment_is_held_to_the_rules() {
    let mut state = exchange();
    let receive = || vec![utxo(9, 2, 123)];
    assert_eq!(
        pay(&state, 8, vec![tip(&state)], receive(), 1),
        Err(ExchangeError::PoolStateExpired(7))
    );
    assert_eq!(
        pay(&state, 7, vec![tip(&state)], vec![], 1),
        Err(ExchangeError::InvalidSignPsbtArgs("pool_utxo_receive not found".to_string()))
    );
    assert_eq!(pay(&state, 7, vec![tip(&state)], receive(), 501), Err(ExchangeError::Overflow));
    let id = ree_types::Txid::from_bytes(&txid(1).0).unwrap();
    let last = ree_types::Utxo { txid: id, vout: 0, coins: coins(500), sats: 10_000 };
    for spend in [vec![], vec!["x:0".to_string()], vec![tip(&state), tip(&state)]] {
        let message = format!(
            "Pool Utxo Spend not eq last pool state utxos, pool_utxo_spend: {:?}, last_state: PoolState {{ id: {:?}, nonce: 7, utxo: {:?}, user_action: Init }}",
            spend,
            Some(id),
            Some(last.clone()),
        );
        assert_eq!(
            pay(&state, 7, spend, receive(), 1),
            Err(ExchangeError::InvalidSignPsbtArgs(message))
        );
    }
    state.states[0].utxo.as_mut().unwrap().coins = CoinBalances::new();
    assert_eq!(
        pay(&state, 7, vec![tip(&state)], receive(), 0),
        Err(ExchangeError::LastStateNotFound)
    );
    state.states[0].utxo = None;
    assert_eq!(
        pay(&state, 7, vec!["x:0".to_string()], receive(), 0),
        Err(ExchangeError::LastStateNotFound)
    );
    let mut late = exchange();
    late.states[0].nonce = u64::MAX;
    assert_eq!(pay(&late, u64::MAX, vec![tip(&late)], receive(), 1), Err(ExchangeError::Overflow));
    late.states = vec![];
    assert_eq!(pay(&late, 0, vec![], receive(), 1), Err(ExchangeError::LastStateNotFound));
}

#[test]
fn payment_message_quotes_the_gamer() {
    let mut state = exchange();
    state.states[0].user_action = UserAction::Register("a\"b".to_string());
    let id = ree_types::Txid::from_bytes(&txid(1).0).unwrap();
    let last = ree_types::Utxo { txid: id, vout: 0, coins: coins(500), sats: 10_000 };
    let spend: Vec<String> = vec![];
    let message = format!(
        "Pool Utxo Spend not eq last pool state utxos, pool_utxo_spend: {:?}, last_state: PoolState {{ id: {:?}, nonce: 7, utxo: {:?}, user_action: Register({:?}) }}",
        spend,
        Some(id),
        Some(last),
        "a\"b",
    );
    assert_eq!(
        pay(&state, 7, spend, vec![utxo(9, 2, 123)], 1),
        Err(ExchangeError::InvalidSignPsbtArgs(message))
    );
}

#[test]
fn messages_are_written_out() {
    let state = exchange();
    let id = format!("Txid([1{}])", ", 0".repeat(31));
    let output = format!(
        "Utxo {{ txid: {}, vout: 0, coins: CoinBalances([CoinBalance {{ id: CoinId {{ block: 840000, tx: 846 }}, value: 500 }}]), sats: 10000 }}",
        id
    );
    assert_eq!(
        register(&state, 7, vec!["a\n".to_string(), "b".to_string()]),
        Err(ExchangeError::InvalidSignPsbtArgs(format!(
            "pool_utxo_spend: [\"a\\n\", \"b\"], last_state_utxo: Some({})",
            output
        )))
    );
    let mut bare = exchange();
    bare.states[0].id = None;
    assert_eq!(
        pay(&bare, 7, vec![], vec![], 1),
        Err(ExchangeError::InvalidSignPsbtArgs(format!(
            "Pool Utxo Spend not eq last pool state utxos, pool_utxo_spend: [], last_state: PoolState {{ id: None, nonce: 7, utxo: Some({}), user_action: Init }}",
            output
        )))
    );
    assert_eq!(
        state.validate_register(
            txid(9),
            7,
            vec![tip(&state)],
            vec![utxo(9, 2, 123)],
            vec![btc(1), btc(2)],
            vec![rune_to("bob", 3)],
            "alice".to_string(),
        ),
        Err(ExchangeError::InvalidSignPsbtArgs(
            "input_coins: [InputCoin { from: \"alice\", coin: CoinBalance { id: CoinId { block: 0, tx: 0 }, value: 1 } }, InputCoin { from: \"alice\", coin: CoinBalance { id: CoinId { block: 0, tx: 0 }, value: 2 } }], output_coins: [OutputCoin { to: \"bob\", coin: CoinBalance { id: CoinId { block: 840000, tx: 846 }, value: 3 } }]".to_string()
        ))
    );
}

#[test]
fn last_state_is_the_last() {
    assert_eq!(bare_exchange().last_state(), Err(ExchangeError::LastStateNotFound));
    let mut state = exchange();
    state.commit(registered(2, 8, "alice"));
    assert_eq!(state.last_state(), Ok(registered(2, 8, "alice")));
    assert_eq!(state.states.len(), 2);
}

#[test]
fn btc_balance_is_that_of_the_output() {
    let mut state = registered(1, 0, "alice");
    assert_eq!(state.btc_balance(), 10_000);
    state.utxo = None;
    assert_eq!(state.btc_balance(), 0);
}

fn ids(state: &ExchangeState) -> Vec<u8> {
    state.states.iter().map(|s| s.id.unwrap().0[0]).collect()
}

/// An exchange with the transactions 1 to 4, of which 2 to 4 registered gamers.
fn long_exchange() -> ExchangeState {
    let mut state = exchange();
    for (n, id) in [(2u8, "alice"), (3, "bob"), (4, "carol")] {
        state.commit(registered(n, 6 + n as u64, id));
        state.game.register_new_gamer(id.to_string());
    }
    state
}

#[test]
fn finalizing_drops_what_came_before() {
    let mut state = long_exchange();
    let last = state.last_state();
    assert_eq!(state.finalize(txid(3)), Ok(()));
    assert_eq!(ids(&state), vec![3, 4]);
    assert_eq!(state.last_state(), last);
    assert_eq!(state.finalize(txid(3)), Ok(()));
    assert_eq!(ids(&state), vec![3, 4]);
}

#[test]
fn finalizing_a_stranger_is_refused() {
    let mut state = long_exchange();
    assert_eq!(
        state.finalize(txid(77)),
        Err(ExchangeError::InvalidState("txid not found".to_string()))
    );
    assert_eq!(ids(&state), vec![1, 2, 3, 4]);
}

#[test]
fn what_is_final_is_not_undone() {
    let mut state = long_exchange();
    assert_eq!(state.finalize(txid(3)), Ok(()));
    let before = state.game.clone();
    assert_eq!(
        state.rollback(txid(3)),
        Err(ExchangeError::InvalidState("Should not rollback index 0 state".to_string()))
    );
    assert_eq!(
        state.rollback(txid(2)),
        Err(ExchangeError::InvalidState("txid not found".to_string()))
    );
    assert_eq!(ids(&state), vec![3, 4]);
    assert_eq!(state.game, before);
}

#[test]
fn rollback_restores_the_chain() {
    let mut state = long_exchange();
    assert_eq!(state.rollback(txid(3)), Ok(()));
    assert_eq!(ids(&state), vec![1, 2]);
    assert!(state.game.find_gamer(&"alice".to_string()).is_some());
    assert!(state.game.find_gamer(&"bob".to_string()).is_none());
    assert!(state.game.find_gamer(&"carol".to_string()).is_none());
}

#[test]
fn rollback_of_a_withdrawal_lets_the_gamer_withdraw_again() {
    let mut state = long_exchange();
    state.commit(pool_state(5, 11, UserAction::Withdraw("alice".to_string())));
    state.game.is_end = true;
    assert_eq!(state.game.withdraw("alice".to_string()), Ok(0));
    assert_eq!(state.rollback(txid(5)), Ok(()));
    assert_eq!(ids(&state), vec![1, 2, 3, 4]);
    assert!(!state.game.find_gamer(&"alice".to_string()).unwrap().is_withdrawn);
    assert_eq!(state.game.withdraw("alice".to_string()), Ok(0));
}

#[test]
fn rollback_stops_at_what_cannot_be_undone() {
    let mut state = long_exchange();
    state.commit(registered(5, 11, "nobody"));
    assert_eq!(
        state.rollback(txid(3)),
        Err(ExchangeError::GamerNotFound("nobody".to_string()))
    );
    assert_eq!(ids(&state), vec![1, 2, 3, 4]);

    let mut state = long_exchange();
    state.commit(pool_state(5, 11, UserAction::Withdraw("nobody".to_string())));
    assert_eq!(
        state.rollback(txid(5)),
        Err(ExchangeError::GamerNotFound("nobody".to_string()))
    );

    let mut state = long_exchange();
    state.commit(pool_state(5, 11, UserAction::Init));
    assert_eq!(
        state.rollback(txid(4)),
        Err(ExchangeError::InvalidState("Should not rollback init action".to_string()))
    );
    assert_eq!(ids(&state), vec![1, 2, 3, 4]);
}

#[test]
fn game_ends_once() {
    let mut state = exchange();
    state.game_status = GameStatus::Play;
    assert!(!state.is_ended());
    assert_eq!(state.end_game(), Ok(()));
    assert!(state.is_ended());
    assert!(state.game.is_end);
    assert_eq!(state.end_game(), Err(ExchangeError::GameEnd));
}
