//! Transactions and blocks: what is planned, executed, confirmed, final and rolled back.

use ree_cookie::blocks::{confirm_all, new_block, reset_blocks, try_new_block};
use ree_cookie::coin::{CoinBalance, CoinId, InputCoin, OutputCoin};
use ree_cookie::errors::ExchangeError;
use ree_cookie::exchange::init;
use ree_cookie::game::Gamers;
use ree_cookie::memory::{NewBlockInfo, StableMemory, TxRecord};
use ree_cookie::principal::Principal;
use ree_cookie::state::{ExchangeState, GameStatus, PoolState, Pubkey, UserAction};
use ree_cookie::tx::{
    decode_psbt, execute_tx, is_judgeable, parse_action, plan_tx, prepare_tx, record_tx,
    record_has_room, rollback_tx, try_rollback_tx, Intention, RollbackError, TxAction, TxError, TxPlan,
};
use ree_cookie::utxo::{Txid, Utxo};
use ree_types::bitcoin::absolute::LockTime;
use ree_types::bitcoin::transaction::Version;
use ree_types::bitcoin::{Psbt, Transaction};
use ree_types::CoinBalances;

const POOL: &str = "pool";

fn txid(n: u8) -> Txid {
    let mut bytes = [0u8; 32];
    bytes[0] = n;
    Txid(bytes)
}

fn utxo(n: u8) -> Utxo {
    Utxo { txid: txid(n), vout: 0, coins: CoinBalances::new(), sats: 10_000 }
}

fn exchange() -> ExchangeState {
    let mut state = init(
        3600,
        100,
        1000,
        60,
        10,
        1000,
        Principal::try_from_bytes(vec![1]).unwrap(),
        Principal::try_from_bytes(vec![2]).unwrap(),
        Pubkey { bytes: vec![2; 33] },
        POOL.to_string(),
    );
    state.game.gamer = Some(Gamers::new());
    state.commit(PoolState {
        id: Some(txid(1)),
        nonce: 0,
        utxo: Some(utxo(1)),
        user_action: UserAction::Init,
    });
    state
}

fn intention(state: &ExchangeState, action: &str, receive: u8) -> Intention {
    let last = state.states.last().unwrap();
    Intention {
        action: action.to_string(),
        pool_address: POOL.to_string(),
        nonce: last.nonce,
        pool_utxo_spent: vec![last.utxo.as_ref().unwrap().outpoint()],
        pool_utxo_received: vec![utxo(receive)],
        input_coins: vec![InputCoin {
            from: "x".to_string(),
            coin: CoinBalance { id: CoinId::btc(), value: 2000 },
        }],
        output_coins: vec![],
    }
}

fn psbt() -> Psbt {
    Psbt::from_unsigned_tx(Transaction {
        version: Version::TWO,
        lock_time: LockTime::ZERO,
        input: vec![],
        output: vec![],
    })
    .unwrap()
}

fn plan(state: &ExchangeState, n: u8, gamer: &str) -> TxPlan {
    let intention = intention(state, "register", n);
    assert!(is_judgeable(state, &intention, &gamer.to_string()));
    plan_tx(state, txid(n), intention, gamer.to_string()).unwrap()
}

fn execute(state: &mut ExchangeState, memory: &mut StableMemory, n: u8, gamer: &str) {
    let plan = plan(state, n, gamer);
    let hex = execute_tx(state, &mut memory.tx_records, plan, Ok(psbt())).unwrap();
    assert_eq!(hex, psbt().serialize_hex());
}

fn ids(state: &ExchangeState) -> Vec<u8> {
    state.states.iter().map(|s| s.id.unwrap().0[0]).collect()
}

fn block(height: u32, txids: &[u8]) -> NewBlockInfo {
    NewBlockInfo {
        block_height: height,
        block_hash: format!("hash {}", height),
        block_timestamp: 1000 + height as u64,
        confirmed_txids: txids.iter().map(|n| txid(*n)).collect(),
    }
}

fn heights(memory: &StableMemory) -> Vec<u32> {
    memory.blocks.entries().iter().map(|e| e.0).collect()
}

fn pools(list: &[&str]) -> Option<TxRecord> {
    Some(TxRecord { pools: list.iter().map(|s| s.to_string()).collect() })
}

#[test]
fn psbt_is_read_from_hex() {
    let text = psbt().serialize_hex();
    assert_eq!(decode_psbt(&text), Ok(psbt()));
    assert_eq!(decode_psbt(&text.to_uppercase()), Ok(psbt()));
}

#[test]
fn what_is_no_psbt_is_refused() {
    for text in ["", "zz", "abc", "00ff"] {
        assert_eq!(
            decode_psbt(&text.to_string()),
            Err(TxError::Failed("invalid psbt".to_string()))
        );
    }
}

#[test]
fn actions_go_by_name() {
    assert_eq!(parse_action(&"register".to_string()), Some(TxAction::Register));
    assert_eq!(parse_action(&"withdraw".to_string()), Some(TxAction::Withdraw));
    assert_eq!(parse_action(&"Register".to_string()), None);
    assert_eq!(parse_action(&"".to_string()), None);
}

#[test]
fn unknown_action_is_refused() {
    let state = exchange();
    let asked = intention(&state, "swap", 2);
    assert!(is_judgeable(&state, &asked, &"alice".to_string()));
    assert_eq!(
        plan_tx(&state, txid(2), asked, "alice".to_string()),
        Err(TxError::Failed("Unknown action".to_string()))
    );
}

#[test]
fn plan_names_what_is_to_be_signed() {
    let state = exchange();
    let plan = plan(&state, 2, "alice");
    assert_eq!(plan.txid, txid(2));
    assert_eq!(plan.action, TxAction::Register);
    assert_eq!(plan.initiator, "alice");
    assert_eq!(plan.pool_address, POOL);
    assert_eq!(plan.consumed, utxo(1));
    assert_eq!(plan.new_state.nonce, 1);
    assert_eq!(plan.new_state.utxo.unwrap().sats, 11_000);
}

#[test]
fn refused_plan_says_why() {
    let mut state = exchange();
    state.game.register_new_gamer("alice".to_string());
    let asked = intention(&state, "register", 2);
    assert_eq!(
        plan_tx(&state, txid(2), asked, "alice".to_string()),
        Err(TxError::Refused(ExchangeError::GamerAlreadyExist("alice".to_string())))
    );
    let mut asked = intention(&state, "withdraw", 2);
    asked.input_coins = vec![];
    asked.output_coins = vec![
        OutputCoin { to: "a".to_string(), coin: CoinBalance { id: CoinId::cookie(), value: 0 } },
        OutputCoin { to: "b".to_string(), coin: CoinBalance { id: CoinId::btc(), value: 1 } },
    ];
    assert!(!is_judgeable(&state, &asked, &"alice".to_string()));
    assert_eq!(
        plan_tx(&state, txid(2), asked, "bob".to_string()),
        Err(TxError::Refused(ExchangeError::GamerNotFound("bob".to_string())))
    );
}

#[test]
fn registration_needs_gamers_to_look_among() {
    let mut state = exchange();
    state.game.gamer = None;
    let asked = intention(&state, "register", 2);
    assert!(!is_judgeable(&state, &asked, &"alice".to_string()));
    assert_eq!(state.end_game(), Ok(()));
    assert!(is_judgeable(&state, &asked, &"alice".to_string()));
    assert_eq!(
        plan_tx(&state, txid(2), asked, "alice".to_string()),
        Err(TxError::Refused(ExchangeError::GameEnd))
    );
}

#[test]
fn request_is_prepared_for_signing() {
    let state = exchange();
    let hex = psbt().serialize_hex();
    let asked = || vec![intention(&state, "swap", 2), intention(&state, "register", 2)];
    let alice = || "alice".to_string();
    let (ready, planned) =
        prepare_tx(&state, &hex, txid(2), asked(), 1, alice()).unwrap().unwrap();
    assert_eq!(ready, psbt());
    assert_eq!(planned, plan(&state, 2, "alice"));
    assert_eq!(
        prepare_tx(&state, &hex, txid(2), asked(), 0, alice()),
        Some(Err(TxError::Failed("Unknown action".to_string())))
    );
    assert_eq!(prepare_tx(&state, &hex, txid(2), asked(), 2, alice()), None);
    // The transaction is looked at first.
    assert_eq!(
        prepare_tx(&state, &"00".to_string(), txid(2), asked(), 2, alice()),
        Some(Err(TxError::Failed("invalid psbt".to_string())))
    );
    let mut nobody = exchange();
    nobody.game.gamer = None;
    assert_eq!(prepare_tx(&nobody, &hex, txid(2), asked(), 1, alice()), None);
}

#[test]
fn nothing_is_planned_after_the_end() {
    let mut state = exchange();
    assert_eq!(state.end_game(), Ok(()));
    for action in ["register", "withdraw"] {
        let asked = intention(&state, action, 2);
        assert!(is_judgeable(&state, &asked, &"alice".to_string()));
        assert_eq!(
            plan_tx(&state, txid(2), asked, "alice".to_string()),
            Err(TxError::Refused(ExchangeError::GameEnd))
        );
    }
}

#[test]
fn executed_registration_moves_everything_on() {
    let mut memory = StableMemory::open();
    let mut state = exchange();
    execute(&mut state, &mut memory, 2, "alice");
    assert_eq!(ids(&state), vec![1, 2]);
    assert_eq!(state.game_status, GameStatus::Play);
    assert!(state.game.find_gamer(&"alice".to_string()).is_some());
    assert_eq!(memory.tx_records.get(&txid(2), false), pools(&[POOL]));
    assert_eq!(memory.tx_records.get(&txid(2), true), None);
    let again = intention(&state, "register", 3);
    assert_eq!(
        plan_tx(&state, txid(3), again, "alice".to_string()),
        Err(TxError::Refused(ExchangeError::GamerAlreadyExist("alice".to_string())))
    );
}

#[test]
fn chain_of_registrations_counts_up() {
    let mut memory = StableMemory::open();
    let mut state = exchange();
    for (n, gamer) in [(2, "alice"), (3, "bob"), (4, "carol")] {
        execute(&mut state, &mut memory, n, gamer);
    }
    assert_eq!(ids(&state), vec![1, 2, 3, 4]);
    for (i, s) in state.states.iter().enumerate() {
        assert_eq!(s.nonce, i as u64);
        assert_eq!(s.btc_balance(), 10_000 + 1000 * i as u64);
    }
}

#[test]
fn stale_intention_is_refused() {
    let mut memory = StableMemory::open();
    let mut state = exchange();
    let stale = intention(&state, "register", 3);
    execute(&mut state, &mut memory, 2, "alice");
    assert_eq!(
        plan_tx(&state, txid(3), stale, "bob".to_string()),
        Err(TxError::Refused(ExchangeError::PoolStateExpired(1)))
    );
}

#[test]
fn failed_signature_changes_nothing() {
    let mut memory = StableMemory::open();
    let mut state = exchange();
    let plan = plan(&state, 2, "alice");
    let res = execute_tx(&mut state, &mut memory.tx_records, plan, Err("no key".to_string()));
    assert_eq!(res, Err(TxError::Failed("no key".to_string())));
    assert_eq!(ids(&state), vec![1]);
    assert_eq!(state.game_status, GameStatus::Init);
    assert!(state.game.find_gamer(&"alice".to_string()).is_none());
    assert_eq!(memory.tx_records.get(&txid(2), false), None);
}

fn withdrawal(n: u8, gamer: &str) -> TxPlan {
    TxPlan {
        txid: txid(n),
        action: TxAction::Withdraw,
        initiator: gamer.to_string(),
        pool_address: POOL.to_string(),
        new_state: PoolState {
            id: Some(txid(n)),
            nonce: 9,
            utxo: Some(utxo(n)),
            user_action: UserAction::Withdraw(gamer.to_string()),
        },
        consumed: utxo(1),
    }
}

#[test]
fn executed_withdrawal_marks_the_gamer() {
    let mut memory = StableMemory::open();
    let mut state = exchange();
    execute(&mut state, &mut memory, 2, "alice");
    let early = execute_tx(&mut state, &mut memory.tx_records, withdrawal(3, "alice"), Ok(psbt()));
    assert_eq!(early, Err(TxError::Refused(ExchangeError::GameNotEnd)));
    assert_eq!(ids(&state), vec![1, 2, 3]);
    assert_eq!(memory.tx_records.get(&txid(3), false), None);
    state.game.is_end = true;
    let res = execute_tx(&mut state, &mut memory.tx_records, withdrawal(4, "alice"), Ok(psbt()));
    assert_eq!(res, Ok(psbt().serialize_hex()));
    assert!(state.game.find_gamer(&"alice".to_string()).unwrap().is_withdrawn);
    assert_eq!(memory.tx_records.get(&txid(4), false), pools(&[POOL]));
    let again = execute_tx(&mut state, &mut memory.tx_records, withdrawal(5, "alice"), Ok(psbt()));
    assert_eq!(
        again,
        Err(TxError::Refused(ExchangeError::GamerWithdrawRepeatedly("alice".to_string())))
    );
}

#[test]
fn record_lists_each_pool_once() {
    let mut memory = StableMemory::open();
    for pool in ["a", "b", "a"] {
        record_tx(&mut memory.tx_records, &txid(2), &pool.to_string());
    }
    assert_eq!(memory.tx_records.get(&txid(2), false), pools(&["a", "b"]));
    assert_eq!(memory.tx_records.get(&txid(3), false), None);
}

#[test]
fn confirmation_takes_the_record_over() {
    let mut memory = StableMemory::open();
    record_tx(&mut memory.tx_records, &txid(2), &"a".to_string());
    confirm_all(&mut memory.tx_records, &vec![txid(2), txid(3)]);
    assert_eq!(memory.tx_records.get(&txid(2), true), pools(&["a"]));
    assert_eq!(memory.tx_records.get(&txid(2), false), pools(&["a"]));
    assert_eq!(memory.tx_records.get(&txid(3), true), None);
}

#[test]
fn rollback_undoes_execution() {
    let mut memory = StableMemory::open();
    let mut state = exchange();
    execute(&mut state, &mut memory, 2, "alice");
    let before = ids(&state);
    execute(&mut state, &mut memory, 3, "bob");
    execute(&mut state, &mut memory, 4, "carol");
    rollback_tx(&mut state, &mut memory.tx_records, &txid(3));
    assert_eq!(ids(&state), before);
    assert_eq!(memory.tx_records.get(&txid(3), false), None);
    assert_eq!(memory.tx_records.get(&txid(3), true), None);
    assert_eq!(memory.tx_records.get(&txid(4), false), pools(&[POOL]));
    // The registrations are undone with the pool states.
    assert!(state.game.find_gamer(&"alice".to_string()).is_some());
    assert!(state.game.find_gamer(&"bob".to_string()).is_none());
    assert!(state.game.find_gamer(&"carol".to_string()).is_none());
}

#[test]
fn undone_registration_can_be_made_again() {
    let mut memory = StableMemory::open();
    let mut state = exchange();
    execute(&mut state, &mut memory, 2, "alice");
    assert_eq!(state.game.claim_at("alice".to_string(), 100, 100), Ok(10));
    let (states, game) = (ids(&state), state.game.clone());
    execute(&mut state, &mut memory, 3, "bob");
    rollback_tx(&mut state, &mut memory.tx_records, &txid(3));
    assert_eq!(ids(&state), states);
    assert_eq!(state.game, game);
    assert_eq!(
        state.game.claim_at("bob".to_string(), 100, 100),
        Err(ExchangeError::GamerNotFound("bob".to_string()))
    );
    execute(&mut state, &mut memory, 3, "bob");
    assert_eq!(ids(&state), vec![1, 2, 3]);
    // What a gamer had claimed stays counted when the registration is undone.
    rollback_tx(&mut state, &mut memory.tx_records, &txid(2));
    assert!(state.game.find_gamer(&"alice".to_string()).is_none());
    assert_eq!(state.game.claimed_cookies, 10);
}

#[test]
fn rollback_that_fails_midway_changes_nothing() {
    let mut memory = StableMemory::open();
    let mut state = exchange();
    execute(&mut state, &mut memory, 2, "alice");
    state.commit(PoolState {
        id: Some(txid(3)),
        nonce: 2,
        utxo: Some(utxo(3)),
        user_action: UserAction::Register("nobody".to_string()),
    });
    execute(&mut state, &mut memory, 4, "carol");
    let (states, game) = (ids(&state), state.game.clone());
    assert_eq!(
        try_rollback_tx(&mut state, &mut memory.tx_records, &txid(2)),
        Err(RollbackError::Refused(ExchangeError::GamerNotFound("nobody".to_string())))
    );
    assert_eq!(ids(&state), states);
    assert_eq!(state.game, game);
    assert_eq!(memory.tx_records.get(&txid(2), false), pools(&[POOL]));
}

#[test]
fn named_pool_changes_only_the_record() {
    let mut memory = StableMemory::open();
    let mut left = exchange();
    let mut right = exchange();
    let plan_on = |state: &ExchangeState, pool: &str| {
        let mut asked = intention(state, "register", 2);
        asked.pool_address = pool.to_string();
        plan_tx(state, txid(2), asked, "alice".to_string()).unwrap()
    };
    let (one, other) = (plan_on(&left, POOL), plan_on(&right, "elsewhere"));
    let prepare_on = |pool: &str, action: &str| {
        let mut asked = intention(&left, action, 2);
        asked.pool_address = pool.to_string();
        let hex = psbt().serialize_hex();
        prepare_tx(&left, &hex, txid(2), vec![asked], 0, "alice".to_string())
    };
    for action in ["swap", "withdraw"] {
        assert_eq!(prepare_on(POOL, action), prepare_on("elsewhere", action));
    }
    let (ready, planned) = prepare_on("elsewhere", "register").unwrap().unwrap();
    assert_eq!(ready, psbt());
    assert_eq!(planned.consumed, one.consumed);
    assert_eq!(planned.new_state, one.new_state);
    assert_eq!(
        execute_tx(&mut left, &mut memory.tx_records, one, Ok(psbt())),
        Ok(psbt().serialize_hex())
    );
    assert_eq!(memory.tx_records.get(&txid(2), false), pools(&[POOL]));
    memory.tx_records.remove(&txid(2), false);
    assert_eq!(
        execute_tx(&mut right, &mut memory.tx_records, other, Ok(psbt())),
        Ok(psbt().serialize_hex())
    );
    assert_eq!(memory.tx_records.get(&txid(2), false), pools(&["elsewhere"]));
    assert_eq!(left, right);
}

#[test]
fn rollback_without_a_record_is_refused() {
    let mut memory = StableMemory::open();
    let mut state = exchange();
    execute(&mut state, &mut memory, 2, "alice");
    assert_eq!(
        try_rollback_tx(&mut state, &mut memory.tx_records, &txid(9)),
        Err(RollbackError::NoRecord)
    );
    assert_eq!(try_rollback_tx(&mut state, &mut memory.tx_records, &txid(2)), Ok(()));
    assert_eq!(
        try_rollback_tx(&mut state, &mut memory.tx_records, &txid(2)),
        Err(RollbackError::NoRecord)
    );
    assert_eq!(ids(&state), vec![1]);
}

#[test]
fn rollback_of_the_first_state_changes_nothing() {
    let mut memory = StableMemory::open();
    let mut state = exchange();
    record_tx(&mut memory.tx_records, &txid(1), &POOL.to_string());
    assert_eq!(
        try_rollback_tx(&mut state, &mut memory.tx_records, &txid(1)),
        Err(RollbackError::Refused(ExchangeError::InvalidState(
            "Should not rollback index 0 state".to_string()
        )))
    );
    assert_eq!(ids(&state), vec![1]);
    assert_eq!(memory.tx_records.get(&txid(1), false), pools(&[POOL]));
}

#[test]
fn rollback_of_another_pool_only_forgets_the_record() {
    let mut memory = StableMemory::open();
    let mut state = exchange();
    execute(&mut state, &mut memory, 2, "alice");
    record_tx(&mut memory.tx_records, &txid(7), &"other".to_string());
    confirm_all(&mut memory.tx_records, &vec![txid(7)]);
    assert_eq!(try_rollback_tx(&mut state, &mut memory.tx_records, &txid(7)), Ok(()));
    assert_eq!(ids(&state), vec![1, 2]);
    assert_eq!(memory.tx_records.get(&txid(7), true), None);
    assert_eq!(memory.tx_records.get(&txid(7), false), None);
}

#[test]
fn rollback_goes_by_the_record_of_the_confirmation() {
    let mut memory = StableMemory::open();
    let mut state = exchange();
    execute(&mut state, &mut memory, 2, "alice");
    memory.tx_records.insert(&txid(2), true, TxRecord { pools: vec!["other".to_string()] });
    assert_eq!(try_rollback_tx(&mut state, &mut memory.tx_records, &txid(2)), Ok(()));
    assert_eq!(ids(&state), vec![1, 2]);
}

#[test]
fn deep_blocks_make_transactions_final() {
    let mut memory = StableMemory::open();
    let mut state = exchange();
    for (n, gamer) in [(2, "alice"), (3, "bob"), (4, "carol")] {
        execute(&mut state, &mut memory, n, gamer);
    }
    let m = &mut memory;
    for (height, txids) in [(100u32, vec![2u8]), (101, vec![3, 99]), (102, vec![])] {
        new_block(&mut state, &mut m.blocks, &mut m.tx_records, &block(height, &txids), 3);
    }
    // Height 100 is three deep below 102.
    assert_eq!(heights(m), vec![101, 102]);
    assert_eq!(ids(&state), vec![2, 3, 4]);
    assert_eq!(m.tx_records.get(&txid(3), true), pools(&[POOL]));
    assert_eq!(m.tx_records.get(&txid(4), true), None);
    assert!(try_rollback_tx(&mut state, &mut m.tx_records, &txid(2)).is_err());
    new_block(&mut state, &mut m.blocks, &mut m.tx_records, &block(103, &[4]), 3);
    assert_eq!(heights(m), vec![102, 103]);
    assert_eq!(ids(&state), vec![3, 4]);
    // With depth one the new block is deep enough at once.
    new_block(&mut state, &mut m.blocks, &mut m.tx_records, &block(104, &[]), 1);
    assert_eq!(heights(m), Vec::<u32>::new());
    assert_eq!(ids(&state), vec![4]);
    assert_eq!(state.states[0].nonce, 3);
}

#[test]
fn block_at_a_known_height_takes_its_place() {
    let mut memory = StableMemory::open();
    let mut state = exchange();
    let m = &mut memory;
    new_block(&mut state, &mut m.blocks, &mut m.tx_records, &block(100, &[2]), 5);
    new_block(&mut state, &mut m.blocks, &mut m.tx_records, &block(100, &[3, 4]), 5);
    assert_eq!(m.blocks.entries(), vec![(100, block(100, &[3, 4]))]);
}

#[test]
fn block_that_cannot_be_taken_in_changes_nothing() {
    let mut memory = StableMemory::open();
    let mut state = exchange();
    let m = &mut memory;
    execute(&mut state, m, 2, "alice");
    record_tx(&mut m.tx_records, &txid(50), &POOL.to_string());
    new_block(&mut state, &mut m.blocks, &mut m.tx_records, &block(100, &[7]), 5);
    let bad = block(100, &[2, 50]);
    assert_eq!(
        try_new_block(&mut state, &mut m.blocks, &mut m.tx_records, &bad, 1),
        Err(ExchangeError::InvalidState("txid not found".to_string()))
    );
    assert_eq!(ids(&state), vec![1, 2]);
    assert_eq!(m.blocks.entries(), vec![(100, block(100, &[7]))]);
    assert_eq!(m.tx_records.get(&txid(2), true), None);
    let other = block(101, &[2, 50]);
    assert!(try_new_block(&mut state, &mut m.blocks, &mut m.tx_records, &other, 1).is_err());
    assert_eq!(heights(m), vec![100]);
}

#[test]
fn blocks_are_listed_in_order_and_forgotten() {
    let mut memory = StableMemory::open();
    for height in [7u32, 300, 2, 256] {
        assert_eq!(memory.blocks.insert(height, &block(height, &[1])), None);
    }
    assert_eq!(heights(&memory), vec![2, 7, 256, 300]);
    assert_eq!(memory.blocks.insert(7, &block(7, &[5])), Some(block(7, &[1])));
    memory.blocks.remove(256);
    memory.blocks.remove(1);
    assert_eq!(heights(&memory), vec![2, 7, 300]);
    reset_blocks(&mut memory.blocks);
    assert_eq!(heights(&memory), Vec::<u32>::new());
}

#[test]
fn ordinary_blocks_and_records_fit() {
    assert!(block(100, &[1, 2, 3]).fits());
    assert!(TxRecord { pools: vec![] }.fits());
    assert!(TxRecord { pools: vec!["a".to_string(), "\u{2022}".to_string()] }.fits());
    let memory = StableMemory::open();
    assert!(record_has_room(&memory.tx_records, &txid(2), &POOL.to_string()));
}

#[test]
fn what_is_kept_can_be_stored_again() {
    let mut memory = StableMemory::open();
    let mut state = exchange();
    execute(&mut state, &mut memory, 2, "alice");
    let m = &mut memory;
    new_block(&mut state, &mut m.blocks, &mut m.tx_records, &block(100, &[2]), 3);
    for (_, stored) in m.blocks.entries() {
        assert!(stored.fits());
    }
    for confirmed in [false, true] {
        assert!(m.tx_records.get(&txid(2), confirmed).unwrap().fits());
    }
    m.set_state(vec![9; 100]);
    let bytes = m.get_state().unwrap();
    assert!(bytes.len() < u32::MAX as usize);
    m.set_state(bytes);
    assert_eq!(m.get_state(), Some(vec![9; 100]));
}

#[test]
fn state_is_read_as_it_was_written() {
    let mut memory = StableMemory::open();
    assert_eq!(memory.get_state(), None);
    memory.set_state(vec![1, 2, 3]);
    assert_eq!(memory.get_state(), Some(vec![1, 2, 3]));
    memory.set_state(vec![]);
    assert_eq!(memory.get_state(), Some(vec![]));
}

#[test]
fn records_are_removed_one_by_one() {
    let mut memory = StableMemory::open();
    memory.tx_records.insert(&txid(2), true, TxRecord { pools: vec![] });
    memory.tx_records.insert(&txid(2), false, TxRecord { pools: vec!["a".to_string()] });
    memory.tx_records.remove(&txid(2), true);
    assert_eq!(memory.tx_records.get(&txid(2), true), None);
    assert_eq!(memory.tx_records.get(&txid(2), false), pools(&["a"]));
}
