//! The cookie game: gamers register, claim cookies from time to time, and withdraw them once at
//! the end.

use vstd::prelude::*;
use crate::clock::{is_clock_time, now_seconds};
use crate::errors::{outcome, ErrorView, ExchangeError};
use crate::keymap::{distinct_keys, key_at, lemma_map_of_push, map_of, KeyMap};
use crate::{Address, Satoshi, SecondTimestamp, Seconds};

verus! {

/// One who plays the game.
#[derive(Debug, PartialEq, Eq)]
pub struct Gamer {
    pub address: String,
    pub cookies: u128,
    pub last_click_time: SecondTimestamp,
    pub is_withdrawn: bool,
}

/// The content of a [`Gamer`].
pub struct GamerView {
    pub address: Seq<char>,
    pub cookies: u128,
    pub last_click_time: u64,
    pub is_withdrawn: bool,
}

impl View for Gamer {
    type V = GamerView;

    open spec fn view(&self) -> GamerView {
        GamerView {
            address: self.address@,
            cookies: self.cookies,
            last_click_time: self.last_click_time,
            is_withdrawn: self.is_withdrawn,
        }
    }
}

impl Clone for Gamer {
    fn clone(&self) -> (res: Self)
        ensures
            res@ == self@,
    {
        Gamer {
            address: self.address.clone(),
            cookies: self.cookies,
            last_click_time: self.last_click_time,
            is_withdrawn: self.is_withdrawn,
        }
    }
}

/// A gamer who has just registered.
pub open spec fn new_gamer(address: Seq<char>) -> GamerView {
    GamerView { address, cookies: 0, last_click_time: 0, is_withdrawn: false }
}

/// What a claim of `amount` at time `now` makes of a gamer, and what it returns.
pub open spec fn gamer_claim(gamer: GamerView, amount: u128, now: u64) -> (
    GamerView,
    Result<u128, ErrorView>,
) {
    if gamer.cookies + amount > u128::MAX {
        (gamer, Err(ErrorView::Overflow))
    } else {
        let cookies = (gamer.cookies + amount) as u128;
        (GamerView { cookies, last_click_time: now, ..gamer }, Ok(cookies))
    }
}

/// Whether a gamer becomes `after`, and `res` is returned, by a claim of `amount` at a time that was
/// read from the clock.
pub open spec fn gamer_claims_now(
    before: GamerView,
    amount: u128,
    after: GamerView,
    res: Result<u128, ErrorView>,
) -> bool {
    exists|now: u64|
        is_clock_time(now) && (after, res) == #[trigger] gamer_claim(before, amount, now)
}

impl Gamer {
    /// A gamer with no cookies, who has never claimed.
    pub fn new(address: String) -> (res: Self)
        ensures
            res@ == new_gamer(address@),
    {
        Gamer { address, cookies: 0, last_click_time: 0, is_withdrawn: false }
    }

    /// Adds cookies and notes the current time as that of the claim.
    pub fn claim(&mut self, claimed_cookies: u128) -> (res: Result<u128, ExchangeError>)
        ensures
            gamer_claims_now(old(self)@, claimed_cookies, final(self)@, outcome(res)),
    {
        let now: u64 = now_seconds();
        self.claim_at(claimed_cookies, now)
    }

    /// Adds cookies and notes `now` as the time of the claim.
    pub fn claim_at(&mut self, claimed_cookies: u128, now: SecondTimestamp) -> (res: Result<
        u128,
        ExchangeError,
    >)
        ensures
            (final(self)@, outcome(res)) == gamer_claim(old(self)@, claimed_cookies, now),
    {
        match self.cookies.checked_add(claimed_cookies) {
            Some(cookies) => {
                self.cookies = cookies;
                self.last_click_time = now;
                Ok(cookies)
            },
            None => Err(ExchangeError::Overflow),
        }
    }
}

/// The gamers, by address.
pub type Gamers = KeyMap<Address, Gamer>;

/// The rules of the game and how far it has come.
#[derive(Debug, PartialEq, Eq)]
pub struct Game {
    pub game_duration: Seconds,
    pub game_start_time: SecondTimestamp,
    pub gamer_register_fee: Satoshi,
    pub claim_cooling_down: Seconds,
    pub cookie_amount_per_claim: u128,
    pub max_cookies: u128,
    pub claimed_cookies: u128,
    pub gamer: Option<Gamers>,
    pub is_end: bool,
}

/// The content of a [`Game`].
pub struct GameView {
    pub game_duration: u64,
    pub game_start_time: u64,
    pub gamer_register_fee: u64,
    pub claim_cooling_down: u64,
    pub cookie_amount_per_claim: u128,
    pub max_cookies: u128,
    pub claimed_cookies: u128,
    pub gamer: Option<Map<Seq<char>, GamerView>>,
    pub is_end: bool,
}

/// The gamers with their contents.
pub open spec fn gamers_view(gamers: Map<Seq<char>, Gamer>) -> Map<Seq<char>, GamerView> {
    gamers.map_values(|g: Gamer| g@)
}

impl View for Game {
    type V = GameView;

    open spec fn view(&self) -> GameView {
        GameView {
            game_duration: self.game_duration,
            game_start_time: self.game_start_time,
            gamer_register_fee: self.gamer_register_fee,
            claim_cooling_down: self.claim_cooling_down,
            cookie_amount_per_claim: self.cookie_amount_per_claim,
            max_cookies: self.max_cookies,
            claimed_cookies: self.claimed_cookies,
            gamer: match self.gamer {
                Some(gamers) => Some(gamers_view(gamers@)),
                None => None,
            },
            is_end: self.is_end,
        }
    }
}

impl GameView {
    /// The gamer at an address, if there is one.
    pub open spec fn gamer_at(self, id: Seq<char>) -> Option<GamerView> {
        match self.gamer {
            Some(gamers) => if gamers.contains_key(id) {
                Some(gamers[id])
            } else {
                None
            },
            None => None,
        }
    }

    /// The game with `gamer` at the address.
    pub open spec fn with_gamer(self, id: Seq<char>, gamer: GamerView) -> GameView {
        let gamers = match self.gamer {
            Some(gamers) => gamers,
            None => Map::empty(),
        };
        GameView { gamer: Some(gamers.insert(id, gamer)), ..self }
    }

    /// The game without a gamer at the address.
    pub open spec fn without_gamer(self, id: Seq<char>) -> GameView {
        match self.gamer {
            Some(gamers) => GameView { gamer: Some(gamers.remove(id)), ..self },
            None => self,
        }
    }

    /// Whether the differences and sums that a claim is decided by can be formed: no more cookies
    /// are claimed than there are, and the end of the gamer's waiting time fits.
    pub open spec fn claim_fits(self, id: Seq<char>) -> bool {
        &&& self.claimed_cookies <= self.max_cookies
        &&& self.max_cookies - self.claimed_cookies >= self.cookie_amount_per_claim ==> (
        self.gamer_at(id) matches Some(g) ==> g.is_withdrawn || g.last_click_time
            + self.claim_cooling_down <= u64::MAX)
    }

    /// Whether the gamer can claim at time `now`, and why not.
    pub open spec fn able_claim(self, id: Seq<char>, now: u64) -> Result<(), ErrorView> {
        let remaining = self.max_cookies - self.claimed_cookies;
        if remaining < self.cookie_amount_per_claim {
            Err(ErrorView::CookieBalanceInsufficient(remaining as u128))
        } else {
            match self.gamer_at(id) {
                None => Err(ErrorView::GamerNotFound(id)),
                Some(g) => if g.is_withdrawn {
                    Err(ErrorView::GamerWithdrawRepeatedly(id))
                } else if g.last_click_time + self.claim_cooling_down > now {
                    Err(
                        ErrorView::GamerCoolingDown(
                            id,
                            (g.last_click_time + self.claim_cooling_down) as u64,
                        ),
                    )
                } else {
                    Ok(())
                },
            }
        }
    }

    /// What a claim makes of the game, and what it returns: the wait is judged at time `checked`,
    /// and the claim is noted at time `noted`. A balance that would overflow leaves the gamer as
    /// it was, with the cookies of the claim counted as claimed all the same.
    pub open spec fn claim(self, id: Seq<char>, checked: u64, noted: u64) -> (
        GameView,
        Result<u128, ErrorView>,
    ) {
        match self.able_claim(id, checked) {
            Err(e) => (self, Err(e)),
            Ok(_) => {
                let counted = GameView {
                    claimed_cookies: (self.claimed_cookies + self.cookie_amount_per_claim) as u128,
                    ..self
                };
                let (gamer, res) = gamer_claim(
                    self.gamer_at(id)->0,
                    self.cookie_amount_per_claim,
                    noted,
                );
                (counted.with_gamer(id, gamer), res)
            },
        }
    }

    /// Whether the game becomes `after`, and `res` is returned, by a claim that is judged and noted
    /// at one time, which was read from the clock.
    pub open spec fn claims_now(
        self,
        id: Seq<char>,
        after: GameView,
        res: Result<u128, ErrorView>,
    ) -> bool {
        exists|now: u64|
            is_clock_time(now) && (after, res) == #[trigger] self.claim(id, now, now)
    }

    /// Whether the gamer can claim at a time that was read from the clock, and why not.
    pub open spec fn able_now(self, id: Seq<char>, res: Result<(), ErrorView>) -> bool {
        exists|now: u64| is_clock_time(now) && res == #[trigger] self.able_claim(id, now)
    }

    /// What a withdrawal makes of the game, and what it returns.
    pub open spec fn withdraw(self, id: Seq<char>) -> (GameView, Result<u128, ErrorView>) {
        match self.gamer_at(id) {
            None => (self, Err(ErrorView::GamerNotFound(id))),
            Some(g) => if !self.is_end {
                (self, Err(ErrorView::GameNotEnd))
            } else if g.is_withdrawn {
                (self, Err(ErrorView::GamerWithdrawRepeatedly(id)))
            } else {
                (self.with_gamer(id, GamerView { is_withdrawn: true, ..g }), Ok(g.cookies))
            },
        }
    }
}

impl Game {
    /// The gamer at an address, if there is one.
    pub fn find_gamer(&self, gamer_id: &Address) -> (res: Option<&Gamer>)
        ensures
            match res {
                Some(g) => self@.gamer_at(gamer_id@) == Some(g@),
                None => self@.gamer_at(gamer_id@) is None,
            },
    {
        match &self.gamer {
            Some(gamers) => gamers.get(gamer_id),
            None => None,
        }
    }

    /// Puts `gamer` at an address, in place of the one who was there.
    pub(crate) fn put_gamer(&mut self, gamer_id: Address, gamer: Gamer)
        ensures
            final(self)@ == old(self)@.with_gamer(gamer_id@, gamer@),
    {
        let mut gamers = match self.gamer.take() {
            Some(gamers) => gamers,
            None => KeyMap::new(),
        };
        let ghost before = gamers@;
        gamers.insert(gamer_id, gamer);
        assert(gamers_view(gamers@) =~= gamers_view(before).insert(gamer_id@, gamer@));
        assert(old(self)@.gamer is None ==> gamers_view(before) =~= Map::empty());
        self.gamer = Some(gamers);
    }

    /// Takes the gamer at an address out of the game; gives whether there was one.
    pub(crate) fn drop_gamer(&mut self, gamer_id: &Address) -> (res: bool)
        ensures
            res == (old(self)@.gamer_at(gamer_id@) is Some),
            final(self)@ == old(self)@.without_gamer(gamer_id@),
    {
        match self.gamer.take() {
            Some(gamers) => {
                let mut gamers = gamers;
                let ghost before = gamers@;
                let removed = gamers.remove(gamer_id);
                assert(gamers_view(gamers@) =~= gamers_view(before).remove(gamer_id@));
                self.gamer = Some(gamers);
                removed.is_some()
            },
            None => false,
        }
    }

    /// Registers a gamer. One who was there under the address starts anew.
    pub fn register_new_gamer(&mut self, gamer_id: Address)
        ensures
            final(self)@ == old(self)@.with_gamer(gamer_id@, new_gamer(gamer_id@)),
    {
        let gamer = Gamer::new(gamer_id.clone());
        self.put_gamer(gamer_id, gamer);
    }

    /// Hands the gamer the cookies of one claim, if it is time; gives the new balance. The clock
    /// is read once: it stands still while a request is handled.
    pub fn claim(&mut self, gamer_id: Address) -> (res: Result<u128, ExchangeError>)
        requires
            old(self)@.claim_fits(gamer_id@),
        ensures
            old(self)@.claims_now(gamer_id@, final(self)@, outcome(res)),
    {
        let now: u64 = now_seconds();
        self.claim_at(gamer_id, now, now)
    }

    /// Hands the gamer the cookies of one claim, if at time `checked` it is time, and notes the
    /// claim at time `noted`; gives the new balance.
    pub fn claim_at(
        &mut self,
        gamer_id: Address,
        checked: SecondTimestamp,
        noted: SecondTimestamp,
    ) -> (res: Result<u128, ExchangeError>)
        requires
            old(self)@.claim_fits(gamer_id@),
        ensures
            (final(self)@, outcome(res)) == old(self)@.claim(gamer_id@, checked, noted),
    {
        match self.able_claim_at(&gamer_id, checked) {
            Ok(()) => {},
            Err(e) => {
                return Err(e);
            },
        }
        let mut gamer = match self.find_gamer(&gamer_id) {
            Some(gamer) => gamer.clone(),
            None => {
                return Err(ExchangeError::GamerNotFound(gamer_id));
            },
        };
        self.claimed_cookies = self.claimed_cookies + self.cookie_amount_per_claim;
        let res = gamer.claim_at(self.cookie_amount_per_claim, noted);
        self.put_gamer(gamer_id, gamer);
        res
    }

    /// Whether the gamer can claim now, and why not.
    pub fn able_claim(&self, gamer_id: Address) -> (res: Result<(), ExchangeError>)
        requires
            self@.claim_fits(gamer_id@),
        ensures
            self@.able_now(gamer_id@, outcome(res)),
    {
        let now: u64 = now_seconds();
        self.able_claim_at(&gamer_id, now)
    }

    /// Whether the gamer can claim at time `now`, and why not.
    pub fn able_claim_at(&self, gamer_id: &Address, now: SecondTimestamp) -> (res: Result<
        (),
        ExchangeError,
    >)
        requires
            self@.claim_fits(gamer_id@),
        ensures
            outcome(res) == self@.able_claim(gamer_id@, now),
    {
        let remaining_cookies: u128 = self.max_cookies - self.claimed_cookies;
        if remaining_cookies < self.cookie_amount_per_claim {
            return Err(ExchangeError::CookieBalanceInsufficient(remaining_cookies));
        }
        match self.find_gamer(gamer_id) {
            Some(gamer) => {
                if gamer.is_withdrawn {
                    return Err(ExchangeError::GamerWithdrawRepeatedly(gamer_id.clone()));
                }
                let ready: u64 = gamer.last_click_time + self.claim_cooling_down;
                if ready > now {
                    return Err(ExchangeError::GamerCoolingDown(gamer_id.clone(), ready));
                }
                Ok(())
            },
            None => Err(ExchangeError::GamerNotFound(gamer_id.clone())),
        }
    }

    /// Whether the differences and sums that a claim is decided by can be formed.
    pub fn claim_fits(&self, gamer_id: &Address) -> (res: bool)
        ensures
            res == self@.claim_fits(gamer_id@),
    {
        if self.claimed_cookies > self.max_cookies {
            return false;
        }
        if self.max_cookies - self.claimed_cookies < self.cookie_amount_per_claim {
            return true;
        }
        match self.find_gamer(gamer_id) {
            Some(gamer) => gamer.is_withdrawn || gamer.last_click_time.checked_add(
                self.claim_cooling_down,
            ).is_some(),
            None => true,
        }
    }

    /// Marks the gamer as withdrawn, once, after the end of the game; gives the balance.
    pub fn withdraw(&mut self, gamer_id: Address) -> (res: Result<u128, ExchangeError>)
        ensures
            (final(self)@, outcome(res)) == old(self)@.withdraw(gamer_id@),
    {
        let mut gamer = match self.find_gamer(&gamer_id) {
            Some(gamer) => gamer.clone(),
            None => {
                return Err(ExchangeError::GamerNotFound(gamer_id));
            },
        };
        if self.is_end {
            if !gamer.is_withdrawn {
                gamer.is_withdrawn = true;
                let cookies: u128 = gamer.cookies;
                self.put_gamer(gamer_id, gamer);
                Ok(cookies)
            } else {
                Err(ExchangeError::GamerWithdrawRepeatedly(gamer_id))
            }
        } else {
            Err(ExchangeError::GameNotEnd)
        }
    }
}

/// A copy of the gamers.
fn copy_gamers(gamers: &Gamers) -> (res: Gamers)
    ensures
        gamers_view(res@) == gamers_view(gamers@),
{
    let entries = gamers.entries();
    let mut res: Gamers = KeyMap::new();
    let mut i: usize = 0;
    assert(entries@.take(0) =~= Seq::empty());
    assert(gamers_view(res@) =~= gamers_view(map_of(entries@.take(0)))) by {
        assert(forall|key: Seq<char>, j: int| !key_at(entries@.take(0), key, j));
    }
    while i < entries.len()
        invariant
            i <= entries.len(),
            distinct_keys(entries@),
            gamers_view(res@) == gamers_view(map_of(entries@.take(i as int))),
        decreases entries.len() - i,
    {
        let ghost shorter = entries@.take(i as int);
        let ghost entry = entries@[i as int];
        let ghost before = res@;
        let gamer = entries[i].1.clone();
        res.insert(entries[i].0.clone(), gamer);
        proof {
            assert(entries@.take(i + 1) =~= shorter.push(entry));
            assert(distinct_keys(shorter)) by {
                assert forall|a: int, b: int|
                    0 <= a < shorter.len() && 0 <= b < shorter.len() && #[trigger] shorter[a].0@
                        == #[trigger] shorter[b].0@ implies a == b by {
                    assert(entries@[a].0@ == entries@[b].0@);
                }
            }
            assert(!map_of(shorter).contains_key(entry.0@)) by {
                if map_of(shorter).contains_key(entry.0@) {
                    let j = choose|j: int| key_at(shorter, entry.0@, j);
                    assert(entries@[j].0@ == entries@[i as int].0@);
                }
            }
            lemma_map_of_push(shorter, entry);
            assert(gamers_view(res@) =~= gamers_view(before).insert(entry.0@, entry.1@));
            assert(gamers_view(map_of(shorter.push(entry))) =~= gamers_view(map_of(shorter)).insert(
                entry.0@,
                entry.1@,
            ));
        }
        i += 1;
    }
    assert(entries@.take(i as int) == entries@);
    res
}

impl Clone for Game {
    fn clone(&self) -> (res: Self)
        ensures
            res@ == self@,
    {
        Game {
            game_duration: self.game_duration,
            game_start_time: self.game_start_time,
            gamer_register_fee: self.gamer_register_fee,
            claim_cooling_down: self.claim_cooling_down,
            cookie_amount_per_claim: self.cookie_amount_per_claim,
            max_cookies: self.max_cookies,
            claimed_cookies: self.claimed_cookies,
            gamer: match &self.gamer {
                Some(gamers) => Some(copy_gamers(gamers)),
                None => None,
            },
            is_end: self.is_end,
        }
    }
}

} // verus!
