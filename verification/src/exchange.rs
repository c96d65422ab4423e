//! What the exchange answers: its set-up, its queries, claims, and who may ask for what.

use vstd::prelude::*;
use vstd::string::StrSliceExecFns;
use vstd::utf8::encode_utf8;
use crate::clock::{is_clock_time, now_seconds};
use crate::coin::{coin_id_text, find_value, first_value, pool_rune, CoinBalance, CoinId};
use crate::errors::{outcome, ErrorView, ExchangeError};
use crate::game::{Game, GameView, Gamer};
use crate::keymap::MapKey;
use crate::principal::{principal_text, Principal};
use crate::state::{
    state_views, utxo_views, ExchangeState, ExchangeView, GameStatus, PoolState, PoolStateView,
    Pubkey,
};
use crate::utxo::{utxo_opt_view, Utxo, UtxoView};
use crate::{Address, Satoshi, SecondTimestamp, Seconds};

verus! {

/// The path along which the pool's key is derived: the written form of the pool's rune.
pub open spec fn pool_key_path() -> Seq<Seq<u8>> {
    seq![encode_utf8(coin_id_text(pool_rune()))]
}

/// The contents of a list of byte strings.
pub open spec fn byte_views(list: Seq<Vec<u8>>) -> Seq<Seq<u8>> {
    list.map_values(|b: Vec<u8>| b@)
}

/// The path along which the pool's key is derived.
pub fn key_derivation_path() -> (res: Vec<Vec<u8>>)
    ensures
        byte_views(res@) == pool_key_path(),
{
    let name = CoinId::cookie().text();
    let bytes = name.as_str().as_bytes_vec();
    let mut path: Vec<Vec<u8>> = Vec::new();
    path.push(bytes);
    assert(byte_views(path@) =~= pool_key_path());
    path
}

/// The exchange before the first registration, with the given rules, key and address.
pub open spec fn new_exchange(
    game_duration: u64,
    game_start_time: u64,
    gamer_register_fee: u64,
    claim_cooling_down: u64,
    cookie_amount_per_claim: u128,
    max_cookies: u128,
    orchestrator: Seq<u8>,
    ii_canister: Seq<u8>,
    key: Seq<u8>,
    address: Seq<char>,
) -> ExchangeView {
    ExchangeView {
        states: Seq::empty(),
        key,
        address,
        ii_canister,
        orchestrator,
        address_principal_map: None,
        game: GameView {
            game_duration,
            game_start_time,
            gamer_register_fee,
            claim_cooling_down,
            cookie_amount_per_claim,
            max_cookies,
            claimed_cookies: 0,
            gamer: None,
            is_end: false,
        },
        game_status: GameStatus::Init,
    }
}

/// Sets the exchange up with the given rules, for a pool with the given key and address.
pub fn init(
    game_duration: Seconds,
    game_start_time: SecondTimestamp,
    gamer_register_fee: Satoshi,
    claim_cooling_down: Seconds,
    cookie_amount_per_claim: u128,
    max_cookies: u128,
    orchestrator: Principal,
    ii_canister: Principal,
    key: Pubkey,
    address: String,
) -> (res: ExchangeState)
    ensures
        res@ == new_exchange(
            game_duration,
            game_start_time,
            gamer_register_fee,
            claim_cooling_down,
            cookie_amount_per_claim,
            max_cookies,
            orchestrator@,
            ii_canister@,
            key@,
            address@,
        ),
{
    let states: Vec<PoolState> = Vec::new();
    assert(state_views(states@) =~= Seq::empty());
    ExchangeState {
        states,
        key,
        address,
        ii_canister,
        orchestrator,
        address_principal_map: None,
        game: Game {
            game_duration,
            game_start_time,
            gamer_register_fee,
            claim_cooling_down,
            cookie_amount_per_claim,
            max_cookies,
            claimed_cookies: 0,
            gamer: None,
            is_end: false,
        },
        game_status: GameStatus::Init,
    }
}

/// The game with one of its gamers.
#[derive(Debug, PartialEq, Eq)]
pub struct GameAndGamer {
    pub game_duration: Seconds,
    pub game_start_time: SecondTimestamp,
    pub gamer_register_fee: Satoshi,
    pub claim_cooling_down: Seconds,
    pub cookie_amount_per_claim: u128,
    pub max_cookies: u128,
    pub claimed_cookies: u128,
    pub gamer: Option<Gamer>,
}

/// Whether `info` tells of the game and of the gamer at the address.
pub open spec fn is_game_and_gamer(
    info: GameAndGamer,
    game: GameView,
    gamer: Seq<char>,
) -> bool {
    &&& info.game_duration == game.game_duration
    &&& info.game_start_time == game.game_start_time
    &&& info.gamer_register_fee == game.gamer_register_fee
    &&& info.claim_cooling_down == game.claim_cooling_down
    &&& info.cookie_amount_per_claim == game.cookie_amount_per_claim
    &&& info.max_cookies == game.max_cookies
    &&& info.claimed_cookies == game.claimed_cookies
    &&& match info.gamer {
        Some(g) => game.gamer_at(gamer) == Some(g@),
        None => game.gamer_at(gamer) is None,
    }
}

/// The game, and the gamer at the address if there is one.
pub fn get_game_and_gamer_infos(state: &ExchangeState, gamer: &Address) -> (res: GameAndGamer)
    ensures
        is_game_and_gamer(res, state@.game, gamer@),
{
    let game = &state.game;
    GameAndGamer {
        game_duration: game.game_duration,
        game_start_time: game.game_start_time,
        gamer_register_fee: game.gamer_register_fee,
        claim_cooling_down: game.claim_cooling_down,
        cookie_amount_per_claim: game.cookie_amount_per_claim,
        max_cookies: game.max_cookies,
        claimed_cookies: game.claimed_cookies,
        gamer: match game.find_gamer(gamer) {
            Some(g) => Some(g.clone()),
            None => None,
        },
    }
}

/// What a gamer needs to know to register.
#[derive(Debug, PartialEq, Eq)]
pub struct RegisterInfo {
    pub untweaked_key: Pubkey,
    pub address: String,
    pub utxo: Option<Utxo>,
    pub register_fee: Satoshi,
    pub nonce: u64,
}

/// Whether `info` tells what a gamer needs to know to register.
pub open spec fn is_register_info(info: RegisterInfo, state: ExchangeView) -> bool {
    &&& info.untweaked_key@ == state.key
    &&& info.address@ == state.address
    &&& info.register_fee == state.game.gamer_register_fee
    &&& match state.last_state() {
        Ok(last) => utxo_opt_view(info.utxo) == last.utxo && info.nonce == last.nonce,
        Err(_) => info.utxo is None && info.nonce == 0,
    }
}

/// What a gamer needs to know to register. Before the first pool state there is no output, and
/// the nonce is zero.
pub fn get_register_info(state: &ExchangeState) -> (res: RegisterInfo)
    ensures
        is_register_info(res, state@),
{
    let (utxo, nonce): (Option<Utxo>, u64) = match state.last_state() {
        Ok(last) => (last.utxo, last.nonce),
        Err(_) => (None, 0),
    };
    RegisterInfo {
        untweaked_key: state.key.clone(),
        address: state.address.clone(),
        utxo,
        register_fee: state.game.gamer_register_fee,
        nonce,
    }
}

/// A pool by name and address.
#[derive(Debug, PartialEq, Eq)]
pub struct PoolBasic {
    pub name: String,
    pub address: Address,
}

/// Whether a list is that of the pools of the exchange: there is one.
pub open spec fn is_pool_list(list: Seq<PoolBasic>, state: ExchangeView) -> bool {
    &&& list.len() == 1
    &&& list[0].name@ == "REE_COOKIE"@
    &&& list[0].address@ == state.address
}

/// The pools of the exchange: there is one.
pub fn get_pool_list(state: &ExchangeState) -> (res: Vec<PoolBasic>)
    ensures
        is_pool_list(res@, state@),
{
    let mut list: Vec<PoolBasic> = Vec::new();
    list.push(PoolBasic { name: "REE_COOKIE".to_string(), address: state.address.clone() });
    list
}

/// A pool and what it holds.
#[derive(Debug, PartialEq, Eq)]
pub struct PoolInfo {
    pub key: Pubkey,
    pub key_derivation_path: Vec<Vec<u8>>,
    pub name: String,
    pub address: Address,
    pub nonce: u64,
    pub coin_reserved: Vec<CoinBalance>,
    pub btc_reserved: u64,
    pub utxos: Vec<Utxo>,
    pub attributes: String,
}

/// The balance of the pool's rune in an output, zero if it carries none.
pub open spec fn rune_reserve(utxo: Option<UtxoView>) -> u128 {
    match utxo {
        Some(u) => match first_value(u.coins, pool_rune()) {
            Some(value) => value,
            None => 0,
        },
        None => 0,
    }
}

/// Whether `info` describes the pool in its last state.
pub open spec fn describes_pool(info: PoolInfo, state: ExchangeView, last: PoolStateView) -> bool {
    &&& info.key@ == state.key
    &&& byte_views(info.key_derivation_path@) == pool_key_path()
    &&& info.name@ == "HOPE\u{2022}YOU\u{2022}GET\u{2022}RICH"@
    &&& info.address@ == state.address
    &&& info.nonce == last.nonce
    &&& info.coin_reserved@ == seq![
        CoinBalance { id: pool_rune(), value: rune_reserve(last.utxo) },
    ]
    &&& info.btc_reserved == (match last.utxo {
        Some(u) => u.sats,
        None => 0,
    })
    &&& utxo_views(info.utxos@) == (match last.utxo {
        Some(u) => seq![u],
        None => Seq::empty(),
    })
    &&& info.attributes@ == ""@
}

/// Whether `res` is the answer to a question about the pool at the address.
pub open spec fn is_pool_info(
    res: Option<PoolInfo>,
    state: ExchangeView,
    pool_address: Seq<char>,
) -> bool {
    match res {
        Some(info) => state.states.len() > 0 && state.address == pool_address && describes_pool(
            info,
            state,
            state.states.last(),
        ),
        None => state.states.len() == 0 || state.address != pool_address,
    }
}

/// The pool at the address, if it is the pool of the exchange and it has a state.
pub fn get_pool_info(state: &ExchangeState, pool_address: &Address) -> (res: Option<PoolInfo>)
    ensures
        is_pool_info(res, state@, pool_address@),
{
    let last_state = match state.last_state() {
        Ok(last_state) => last_state,
        Err(_) => {
            return None;
        },
    };
    if !state.address.eq(pool_address) {
        return None;
    }
    let reserve: u128 = match &last_state.utxo {
        Some(utxo) => match find_value(&utxo.coins, CoinId::cookie()) {
            Some(value) => value,
            None => 0,
        },
        None => 0,
    };
    let btc_reserved: u64 = last_state.btc_balance();
    let mut coin_reserved: Vec<CoinBalance> = Vec::new();
    coin_reserved.push(CoinBalance { id: CoinId::cookie(), value: reserve });
    let mut utxos: Vec<Utxo> = Vec::new();
    match last_state.utxo {
        Some(utxo) => {
            utxos.push(utxo);
        },
        None => {},
    }
    let ghost last = state@.states.last();
    assert(utxo_views(utxos@) =~= (match last.utxo {
        Some(u) => seq![u],
        None => Seq::empty(),
    }));
    Some(
        PoolInfo {
            key: state.key.clone(),
            key_derivation_path: key_derivation_path(),
            name: "HOPE\u{2022}YOU\u{2022}GET\u{2022}RICH".to_string(),
            address: state.address.clone(),
            nonce: last_state.nonce,
            coin_reserved,
            btc_reserved,
            utxos,
            attributes: "".to_string(),
        },
    )
}

impl ExchangeView {
    /// The address that a caller plays under, if the caller is known.
    pub open spec fn address_of(self, caller: Seq<u8>) -> Option<Seq<char>> {
        match self.address_principal_map {
            Some(m) => if m.contains_key(caller) {
                Some(m[caller])
            } else {
                None
            },
            None => None,
        }
    }

    /// Whether the sums and differences that the caller's claim is decided by can be formed.
    pub open spec fn claim_fits(self, caller: Seq<u8>) -> bool {
        self.address_of(caller) matches Some(address) ==> self.game.claim_fits(address)
    }

    /// What a claim makes of the exchange, and what it returns.
    pub open spec fn claim(self, caller: Seq<u8>, checked: u64, noted: u64) -> (
        ExchangeView,
        Result<u128, ErrorView>,
    ) {
        match self.address_of(caller) {
            None => (self, Err(ErrorView::GamerNotFound(principal_text(caller)))),
            Some(address) => {
                let (game, res) = self.game.claim(address, checked, noted);
                (ExchangeView { game, ..self }, res)
            },
        }
    }

    /// Whether the exchange becomes `after`, and `res` is returned, by a claim that is judged and
    /// noted at one time, which was read from the clock.
    pub open spec fn claims_now(
        self,
        caller: Seq<u8>,
        after: ExchangeView,
        res: Result<u128, ErrorView>,
    ) -> bool {
        exists|now: u64|
            is_clock_time(now) && (after, res) == #[trigger] self.claim(caller, now, now)
    }
}

impl ExchangeState {
    /// The address that a caller plays under, if the caller is known.
    pub fn find_address(&self, caller: &Principal) -> (res: Option<Address>)
        ensures
            match res {
                Some(a) => self@.address_of(caller@) == Some(a@),
                None => self@.address_of(caller@) is None,
            },
    {
        match &self.address_principal_map {
            Some(m) => match m.get(caller) {
                Some(a) => Some(a.clone()),
                None => None,
            },
            None => None,
        }
    }

    /// Whether the sums and differences that the caller's claim is decided by can be formed.
    /// [`claim`] is for such a caller only.
    pub fn claim_fits(&self, caller: &Principal) -> (res: bool)
        ensures
            res == self@.claim_fits(caller@),
    {
        match self.find_address(caller) {
            Some(address) => self.game.claim_fits(&address),
            None => true,
        }
    }
}

/// Hands the caller the cookies of one claim, if it is time; gives the new balance. The clock is
/// read once: it stands still while a request is handled.
pub fn claim(state: &mut ExchangeState, caller: &Principal) -> (res: Result<u128, ExchangeError>)
    requires
        old(state)@.claim_fits(caller@),
    ensures
        old(state)@.claims_now(caller@, final(state)@, outcome(res)),
        old(state)@.address_of(caller@) is None ==> final(state)@ == old(state)@ && outcome(res)
            == Err::<u128, ErrorView>(ErrorView::GamerNotFound(principal_text(caller@))),
{
    let now: u64 = now_seconds();
    claim_at(state, caller, now, now)
}

/// Hands the caller the cookies of one claim, if at time `checked` it is time, and notes the claim
/// at time `noted`; gives the new balance.
pub fn claim_at(
    state: &mut ExchangeState,
    caller: &Principal,
    checked: SecondTimestamp,
    noted: SecondTimestamp,
) -> (res: Result<u128, ExchangeError>)
    requires
        old(state)@.claim_fits(caller@),
    ensures
        (final(state)@, outcome(res)) == old(state)@.claim(caller@, checked, noted),
{
    match state.find_address(caller) {
        Some(address) => state.game.claim_at(address, checked, noted),
        None => Err(ExchangeError::GamerNotFound(caller.to_text())),
    }
}

/// The answer to one who asks for something that only some may have.
pub fn grant(allowed: bool) -> (res: Result<(), String>)
    ensures
        res is Ok <==> allowed,
        res matches Err(e) ==> e@ == "Access denied"@,
{
    if allowed {
        Ok(())
    } else {
        Err("Access denied".to_string())
    }
}

/// Whether `res` lets the orchestrator through, and nobody else.
pub open spec fn guards_the_orchestrator(
    res: Result<(), String>,
    state: ExchangeView,
    caller: Seq<u8>,
) -> bool {
    &&& res is Ok <==> caller == state.orchestrator
    &&& res matches Err(e) ==> e@ == "Access denied"@
}

/// Lets the orchestrator through, and nobody else.
pub fn ensure_orchestrator(state: &ExchangeState, caller: &Principal) -> (res: Result<(), String>)
    ensures
        guards_the_orchestrator(res, state@, caller@),
{
    grant(state.orchestrator.same(caller))
}

} // verus!
