use vstd::prelude::*;
use crate::action::{Allowed, AllowedView, Decision, Restriction};
use crate::card::{card_index, Card, Deck, Effect, NUM_CARDS};
use crate::card::deck::{held_scoring_spec, hand_pile, Pile, CARD_BITS};
use crate::card::effect::{allowed_side_spec, permanent_spec};
use crate::country::{
    base_bg, base_stability, cname_index, cname_of, controller_spec, edge_list,
    influence_spec, lemma_neighbors_bound, neighbors, neighbors_of, opposite_spec, side_index,
    region_countries, region_has, standard_start, start_country, CName, Country, Region, Side,
    NUM_COUNTRIES,
};
use crate::card::deck::bits_to_cards;
use crate::card::ops_spec;
use crate::tensor::DecodedChoice;
use counter::Counter;
use std::hash::Hash;
use vstd::multiset::Multiset;

pub mod laws;
pub mod random;
pub mod resolve;
pub use random::{DebugRand, InternalRand, TwilightRand};

verus! {

/// The period of the war the game is in.
#[derive(Clone, Copy, PartialEq, Eq, Structural, Debug)]
pub enum Period {
    Early,
    Middle,
    Late,
}

/// How the game ended, and for whom.
#[derive(Debug, Clone, Copy, PartialEq, Eq, Structural)]
pub enum Win {
    Defcon(Side),
    Vp(Side),
    HeldScoring(Side),
}

impl Win {
    /// The side that won.
    pub fn winner(&self) -> (r: Side)
        ensures
            r == match *self {
                Win::Defcon(s) => s,
                Win::Vp(s) => s,
                Win::HeldScoring(s) => s,
            },
    {
        match self {
            Win::Defcon(s) => *s,
            Win::Vp(s) => *s,
            Win::HeldScoring(s) => *s,
        }
    }
}

/// The position of a game: the map, the tracks, the cards and the decisions still to make.
pub struct GameState {
    pub countries: Vec<Country>,
    pub vp: i8,
    pub(crate) defcon: i8,
    pub turn: i8,
    pub ar: i8,
    pub side: Side,
    pub space: [i8; 2],
    pub mil_ops: [i8; 2],
    pub(crate) space_attempts: [i8; 2],
    pub(crate) us_effects: Vec<Effect>,
    pub(crate) ussr_effects: Vec<Effect>,
    pub deck: Deck,
    pub restrict: Option<Restriction>,
    pub current_event: Option<Card>,
    pub vietnam: bool,
    pub china: bool,
    pub iron_lady: bool,
    pub(crate) pending: Vec<Decision>,
}

/// The period of the war in a given turn.
pub open spec fn period_spec(turn: i8) -> Period {
    if turn <= 3 {
        Period::Early
    } else if turn <= 7 {
        Period::Middle
    } else {
        Period::Late
    }
}

/// The outcome of checking for a win with the given phasing side, DEFCON and victory
/// points: DEFCON below two loses the game for the phasing side, twenty points win it.
pub open spec fn win_check(side: Side, defcon: i8, vp: i8) -> Result<(), Win> {
    if defcon < 2 {
        Err(Win::Defcon(opposite_spec(side)))
    } else if vp >= 20 {
        Err(Win::Vp(Side::US))
    } else if vp <= -20 {
        Err(Win::Vp(Side::USSR))
    } else {
        Ok(())
    }
}

/// The DEFCON level that a requested value sets: clamped to one through five.
pub open spec fn clamp_defcon(value: int) -> i8 {
    if value > 5 {
        5
    } else if value < 1 {
        1
    } else {
        value as i8
    }
}

/// Whether closing a turn keeps the points and the turn within `i8`.
pub open(crate) spec fn close_fits(s: GameState) -> bool {
    &&& s.defcon_v() - s.mil_ops_v()[0] <= i8::MAX
    &&& s.defcon_v() - s.mil_ops_v()[1] <= i8::MAX
    &&& i8::MIN <= s.vp_v() - mil_penalty(s.defcon_v(), s.mil_ops_v()[0])
    &&& s.vp_v() - mil_penalty(s.defcon_v(), s.mil_ops_v()[0]) + mil_penalty(s.defcon_v(), s.mil_ops_v()[1]) <= i8::MAX
    &&& s.turn_v() < i8::MAX
}

/// The end of a turn from `s` to `t` with result `r`: each side short of DEFCON in military
/// operations pays the difference in points, the turn advances with action round zero,
/// DEFCON improves by one and the military operations reset; then the win check decides,
/// and unless the game is won the China Card turns face up and the effects of the turn end.
pub open(crate) spec fn turn_closed(s: GameState, t: GameState, r: Result<(), Win>) -> bool {
    &&& (t.vp_v() == s.vp_v() - mil_penalty(s.defcon_v(), s.mil_ops_v()[0]) + mil_penalty(s.defcon_v(), s.mil_ops_v()[1]))
    &&& (t.turn_v() == s.turn_v() + 1)
    &&& (t.ar_v() == 0)
    &&& (t.defcon_v() == clamp_defcon(s.defcon_v() + 1))
    &&& (t.mil_ops_v() == [0i8, 0i8])
    &&& (r == win_check(s.side_v(), t.defcon_v(), t.vp_v()))
    &&& (t.countries_v() == s.countries_v())
    &&& (t.side_v() == s.side_v())
    &&& (t.space_v() == s.space_v())
    &&& (t.attempts_v() == s.attempts_v())
    &&& (t.restrict_v() == s.restrict_v())
    &&& (t.event_v() == s.event_v())
    &&& (t.vietnam_v() == s.vietnam_v())
    &&& (t.china_v() == s.china_v())
    &&& (t.iron_lady_v() == s.iron_lady_v())
    &&& (t.pending_v() == s.pending_v())
    &&& (t.deck_v().china_holder() == s.deck_v().china_holder())
    &&& (forall|p: Pile| #[trigger] t.deck_v().pile(p) == s.deck_v().pile(p))
    &&& (t.deck_v().china_face_up() == (r is Ok || s.deck_v().china_face_up()))
    &&& (r is Ok ==> t.effects_v(Side::US) == s.effects_v(Side::US).filter(|e: Effect| permanent_spec(e)))
    &&& (r is Ok ==> t.effects_v(Side::USSR) == s.effects_v(Side::USSR).filter(|e: Effect| permanent_spec(e)))
    &&& (r is Err ==> t.effects_v(Side::US) == s.effects_v(Side::US))
    &&& (r is Err ==> t.effects_v(Side::USSR) == s.effects_v(Side::USSR))
}

impl Clone for GameState {
    /// A copy of the position: the same map, tracks, effects, deck and decisions.
    fn clone(&self) -> (r: Self)
        ensures
            r.countries_v() == self.countries_v(),
            r.vp_v() == self.vp_v(),
            r.defcon_v() == self.defcon_v(),
            r.turn_v() == self.turn_v(),
            r.ar_v() == self.ar_v(),
            r.side_v() == self.side_v(),
            r.space_v() == self.space_v(),
            r.mil_ops_v() == self.mil_ops_v(),
            r.attempts_v() == self.attempts_v(),
            r.effects_v(Side::US) == self.effects_v(Side::US),
            r.effects_v(Side::USSR) == self.effects_v(Side::USSR),
            r.deck_v() == self.deck_v(),
            r.restrict_v() == self.restrict_v(),
            r.event_v() == self.event_v(),
            r.vietnam_v() == self.vietnam_v(),
            r.china_v() == self.china_v(),
            r.iron_lady_v() == self.iron_lady_v(),
            r.pending_views() == self.pending_views(),
    {
        let countries = self.countries.clone();
        let us_effects = self.us_effects.clone();
        let ussr_effects = self.ussr_effects.clone();
        let pending = self.pending.clone();
        proof {
            assert(countries@ =~= self.countries@);
            assert(us_effects@ =~= self.us_effects@);
            assert(ussr_effects@ =~= self.ussr_effects@);
            assert(pending@.map_values(|d: Decision| dview(d)) =~= self.pending@.map_values(|d: Decision| dview(d)));
        }
        GameState {
            countries,
            vp: self.vp,
            defcon: self.defcon,
            turn: self.turn,
            ar: self.ar,
            side: self.side,
            space: self.space,
            mil_ops: self.mil_ops,
            space_attempts: self.space_attempts,
            us_effects,
            ussr_effects,
            deck: self.deck.clone(),
            restrict: self.restrict,
            current_event: self.current_event,
            vietnam: self.vietnam,
            china: self.china,
            iron_lady: self.iron_lady,
            pending,
        }
    }
}

impl GameState {
    /// The map.
    pub open(crate) spec fn countries_v(&self) -> Seq<Country> {
        self.countries@
    }

    /// The victory point track: positive favours the US.
    pub open(crate) spec fn vp_v(&self) -> i8 {
        self.vp
    }

    /// The turn number.
    pub open(crate) spec fn turn_v(&self) -> i8 {
        self.turn
    }

    /// The action round number.
    pub open(crate) spec fn ar_v(&self) -> i8 {
        self.ar
    }

    /// The phasing side.
    pub open(crate) spec fn side_v(&self) -> Side {
        self.side
    }

    /// The space race markers, US first.
    pub open(crate) spec fn space_v(&self) -> [i8; 2] {
        self.space
    }

    /// The military operations of this turn, US first.
    pub open(crate) spec fn mil_ops_v(&self) -> [i8; 2] {
        self.mil_ops
    }

    /// The deck.
    pub open(crate) spec fn deck_v(&self) -> Deck {
        self.deck
    }

    /// The restriction on repeated choices, if any.
    pub open(crate) spec fn restrict_v(&self) -> Option<Restriction> {
        self.restrict
    }

    /// The card whose event is resolving, if any.
    pub open(crate) spec fn event_v(&self) -> Option<Card> {
        self.current_event
    }

    /// Whether the Vietnam Revolts bonus operation is unused.
    pub open(crate) spec fn vietnam_v(&self) -> bool {
        self.vietnam
    }

    /// Whether the China Card bonus operation is unused.
    pub open(crate) spec fn china_v(&self) -> bool {
        self.china
    }

    /// Whether the Iron Lady restriction on access from Argentina holds.
    pub open(crate) spec fn iron_lady_v(&self) -> bool {
        self.iron_lady
    }

    /// The same state with another DEFCON level.
    pub open(crate) spec fn with_defcon(self, d: i8) -> Self {
        GameState { defcon: d, ..self }
    }

    /// The same state with another resolving event.
    pub open(crate) spec fn with_event(self, e: Option<Card>) -> Self {
        GameState { current_event: e, ..self }
    }

    /// The same state with another restriction.
    pub open(crate) spec fn with_restrict(self, r: Option<Restriction>) -> Self {
        GameState { restrict: r, ..self }
    }

    /// The same state with another victory point total.
    pub open(crate) spec fn with_vp(self, vp: i8) -> Self {
        GameState { vp, ..self }
    }

    /// The DEFCON level.
    pub open(crate) spec fn defcon_v(&self) -> i8 {
        self.defcon
    }

    /// How often each side has tried the space race this turn.
    pub open(crate) spec fn attempts_v(&self) -> [i8; 2] {
        self.space_attempts
    }

    /// The effects in play on a side's list.
    pub open(crate) spec fn effects_v(&self, side: Side) -> Seq<Effect> {
        match side {
            Side::US => self.us_effects@,
            _ => self.ussr_effects@,
        }
    }

    /// The decisions still to make, the next one last.
    pub open(crate) spec fn pending_v(&self) -> Seq<Decision> {
        self.pending@
    }

    /// The map has every country with its printed stability and battleground flag, and no
    /// negative influence; DEFCON is between one and five; the deck is well formed; a
    /// superpower is phasing; each space race marker is between zero and eight.
    pub open(crate) spec fn wf(&self) -> bool {
        &&& self.countries.len() == NUM_COUNTRIES
        &&& forall|i: int| 0 <= i < NUM_COUNTRIES ==> {
            &&& (#[trigger] self.countries@[i]).stability == base_stability(cname_of(i as usize))
            &&& self.countries@[i].bg == base_bg(cname_of(i as usize))
            &&& self.countries@[i].us >= 0
            &&& self.countries@[i].ussr >= 0
        }
        &&& 1 <= self.defcon_v() <= 5
        &&& self.deck.wf()
        &&& self.side != Side::Neutral
        &&& 0 <= self.space[0] <= 8
        &&& 0 <= self.space[1] <= 8
        &&& self.mil_ops[0] >= 0
        &&& self.mil_ops[1] >= 0
    }

    /// Two states that agree on everything but the map, the victory points, DEFCON and the
    /// military operations.
    pub open(crate) spec fn same_rest(&self, other: &Self) -> bool {
        &&& self.turn == other.turn
        &&& self.ar == other.ar
        &&& self.side == other.side
        &&& self.space == other.space
        &&& self.attempts_v() == other.attempts_v()
        &&& self.effects_v(Side::US) == other.effects_v(Side::US)
        &&& self.effects_v(Side::USSR) == other.effects_v(Side::USSR)
        &&& self.deck == other.deck
        &&& self.restrict == other.restrict
        &&& self.current_event == other.current_event
        &&& self.vietnam == other.vietnam
        &&& self.china == other.china
        &&& self.iron_lady == other.iron_lady
        &&& self.pending_v() == other.pending_v()
    }

    /// Two states that agree on everything but the map.
    pub open(crate) spec fn same_but_countries(&self, other: &Self) -> bool {
        &&& self.same_rest(other)
        &&& self.vp == other.vp
        &&& self.defcon_v() == other.defcon_v()
        &&& self.mil_ops == other.mil_ops
    }

    /// Two states that agree on everything but the effects in play.
    pub open(crate) spec fn same_but_effects(&self, other: &Self) -> bool {
        &&& self.countries@ == other.countries@
        &&& self.vp == other.vp
        &&& self.defcon_v() == other.defcon_v()
        &&& self.turn == other.turn
        &&& self.ar == other.ar
        &&& self.side == other.side
        &&& self.space == other.space
        &&& self.mil_ops == other.mil_ops
        &&& self.attempts_v() == other.attempts_v()
        &&& self.deck == other.deck
        &&& self.restrict == other.restrict
        &&& self.current_event == other.current_event
        &&& self.vietnam == other.vietnam
        &&& self.china == other.china
        &&& self.iron_lady == other.iron_lady
        &&& self.pending_v() == other.pending_v()
    }

    /// Two states that agree on everything but the pending decisions.
    pub open(crate) spec fn same_but_pending(&self, other: &Self) -> bool {
        &&& self.countries@ == other.countries@
        &&& self.vp == other.vp
        &&& self.defcon_v() == other.defcon_v()
        &&& self.turn == other.turn
        &&& self.ar == other.ar
        &&& self.side == other.side
        &&& self.space == other.space
        &&& self.mil_ops == other.mil_ops
        &&& self.attempts_v() == other.attempts_v()
        &&& self.effects_v(Side::US) == other.effects_v(Side::US)
        &&& self.effects_v(Side::USSR) == other.effects_v(Side::USSR)
        &&& self.deck == other.deck
        &&& self.restrict == other.restrict
        &&& self.current_event == other.current_event
        &&& self.vietnam == other.vietnam
        &&& self.china == other.china
        &&& self.iron_lady == other.iron_lady
    }

    /// The outcome of checking for a win: DEFCON below two loses the game for the phasing
    /// side, twenty victory points win it.
    pub open(crate) spec fn check_win_spec(&self) -> Result<(), Win> {
        win_check(self.side, self.defcon_v(), self.vp)
    }

    /// The state at the very start: the standard starting influence, DEFCON five, the USSR
    /// phasing, nothing in play, and a fresh deck.
    pub fn new() -> (r: GameState)
        ensures
            r.wf(),
            forall|i: int| 0 <= i < NUM_COUNTRIES ==> #[trigger] r.countries_v()[i] == start_country(cname_of(i as usize)),
            r.vp_v() == 0,
            r.defcon_v() == 5,
            r.turn_v() == 0,
            r.ar_v() == 0,
            r.side_v() == Side::USSR,
            r.space_v() == [0i8, 0i8],
            r.mil_ops_v() == [0i8, 0i8],
            r.attempts_v() == [0i8, 0i8],
            r.effects_v(Side::US).len() == 0,
            r.effects_v(Side::USSR).len() == 0,
            r.pending_v().len() == 0,
            r.restrict_v() is None,
            r.event_v() is None,
            !r.vietnam_v(),
            !r.china_v(),
            !r.iron_lady_v(),
            r.deck_v().china_holder() == Side::USSR,
            r.deck_v().china_face_up(),
            forall|p: Pile| p != Pile::Draw ==> #[trigger] r.deck_v().pile(p) == Seq::new(CARD_BITS as nat, |i: int| false),
            forall|i: int| 0 <= i < CARD_BITS ==> #[trigger] r.deck_v().pile(Pile::Draw)[i] == crate::card::deck::early_war_bit(i),
    {
        let r = GameState {
            countries: standard_start(),
            vp: 0,
            defcon: 5,
            turn: 0,
            ar: 0,
            side: Side::USSR,
            space: [0, 0],
            mil_ops: [0, 0],
            space_attempts: [0, 0],
            us_effects: Vec::new(),
            ussr_effects: Vec::new(),
            deck: Deck::new(),
            restrict: None,
            current_event: None,
            vietnam: false,
            china: false,
            iron_lady: false,
            pending: Vec::new(),
        };
        proof {
            assert forall|i: int| 0 <= i < NUM_COUNTRIES implies {
                &&& (#[trigger] r.countries@[i]).stability == base_stability(cname_of(i as usize))
                &&& r.countries@[i].bg == base_bg(cname_of(i as usize))
                &&& r.countries@[i].us >= 0
                &&& r.countries@[i].ussr >= 0
            } by {
                lemma_start_influence_nonneg(cname_of(i as usize));
            }
        }
        r
    }

    /// The standard start with the common opening placement: four in Italy and West
    /// Germany and two in Iran for the US, four in East Germany and Poland and one in
    /// Austria for the USSR.
    pub fn four_four_two() -> (r: GameState)
        ensures
            r.wf(),
            forall|i: int| 0 <= i < NUM_COUNTRIES ==> #[trigger] r.countries_v()[i] == four_four_two_country(i as usize),
            r.vp_v() == 0,
            r.defcon_v() == 5,
            r.turn_v() == 0,
            r.ar_v() == 0,
            r.side_v() == Side::USSR,
            r.pending_v().len() == 0,
    {
        let mut state = GameState::new();
        let ghost s0 = state;
        state.place_four_four_two();
        proof {
            assert forall|i: int| 0 <= i < NUM_COUNTRIES implies #[trigger] state.countries@[i] == four_four_two_country(i as usize) by {
                assert(s0.countries_v()[i] == start_country(cname_of(i as usize)));
                assert(state.countries@[i] == four_four_two_on(i as usize, s0.countries@[i]));
            }
        }
        state
    }

    /// Adds the usual opening placement to the map, as `four_four_two_on` says.
    pub(crate) fn place_four_four_two(&mut self)
        requires
            old(self).wf(),
        ensures
            final(self).wf(),
            forall|i: int| 0 <= i < NUM_COUNTRIES ==> #[trigger] final(self).countries@[i]
                == four_four_two_on(i as usize, old(self).countries@[i]),
            final(self).same_but_countries(old(self)),
    {
        let ghost start = self.countries@;
        let italy = CName::Italy.index();
        let wg = CName::WGermany.index();
        let iran = CName::Iran.index();
        let eg = CName::EGermany.index();
        let poland = CName::Poland.index();
        let austria = CName::Austria.index();
        let mut c = self.countries[italy];
        c.us = 4;
        self.countries.set(italy, c);
        let mut c = self.countries[wg];
        c.us = 4;
        self.countries.set(wg, c);
        let mut c = self.countries[iran];
        c.us = 2;
        self.countries.set(iran, c);
        let mut c = self.countries[eg];
        c.ussr = 4;
        self.countries.set(eg, c);
        let mut c = self.countries[poland];
        c.ussr = 4;
        self.countries.set(poland, c);
        let mut c = self.countries[austria];
        c.ussr = 1;
        self.countries.set(austria, c);
        proof {
            crate::country::lemma_cname_index_inverse(CName::Italy);
            crate::country::lemma_cname_index_inverse(CName::WGermany);
            crate::country::lemma_cname_index_inverse(CName::Iran);
            crate::country::lemma_cname_index_inverse(CName::EGermany);
            crate::country::lemma_cname_index_inverse(CName::Poland);
            crate::country::lemma_cname_index_inverse(CName::Austria);
            assert forall|i: int| 0 <= i < NUM_COUNTRIES implies #[trigger] self.countries@[i]
                == four_four_two_on(i as usize, start[i]) by {
                if i != italy && i != wg && i != iran && i != eg && i != poland && i != austria {
                    assert(self.countries@[i] == start[i]);
                }
            }
        }
    }

    /// Checks whether the game has been won: DEFCON below two loses for the phasing side,
    /// and twenty victory points win.
    pub fn check_win(&self) -> (r: Result<(), Win>)
        requires
            self.side_v() != Side::Neutral,
        ensures
            r == self.check_win_spec(),
    {
        if self.defcon() < 2 {
            let side = self.side.opposite();
            return Err(Win::Defcon(side));
        }
        if self.vp >= 20 {
            return Err(Win::Vp(Side::US));
        } else if self.vp <= -20 {
            return Err(Win::Vp(Side::USSR));
        }
        Ok(())
    }

    /// The DEFCON level.
    pub fn defcon(&self) -> (r: i8)
        ensures
            r == self.defcon_v(),
    {
        self.defcon
    }

    /// Sets DEFCON, clamped to one through five.
    pub fn set_defcon(&mut self, value: i8)
        ensures
            *final(self) == old(self).with_defcon(clamp_defcon(value as int)),
    {
        if value > 5 {
            self.defcon = 5;
        } else if value < 1 {
            self.defcon = 1;
        } else {
            self.defcon = value;
        }
    }

    /// The phasing side.
    pub fn side(&self) -> (r: &Side)
        ensures
            *r == self.side_v(),
    {
        &self.side
    }

    /// The period of the war the game is in.
    pub fn period(&self) -> (r: Period)
        ensures
            r == period_spec(self.turn_v()),
    {
        if self.turn <= 3 {
            Period::Early
        } else if self.turn <= 7 {
            Period::Middle
        } else {
            Period::Late
        }
    }

    /// Whether the game is past its last turn.
    pub fn is_final_scoring(&self) -> (r: bool)
        ensures
            r == (self.turn_v() > 10),
    {
        self.turn > 10
    }

    /// The card whose event is resolving, if any.
    pub fn current_event(&self) -> (r: Option<Card>)
        ensures
            r == self.event_v(),
    {
        self.current_event
    }

    /// Marks a card's event as the one resolving.
    pub fn set_event(&mut self, card: Card)
        ensures
            *final(self) == old(self).with_event(Some(card)),
    {
        self.current_event = Some(card);
    }

    /// The military operations a superpower has conducted this turn.
    pub fn mil_ops(&self, side: Side) -> (r: i8)
        requires
            side != Side::Neutral,
        ensures
            r == self.mil_ops_v()[side_index(side) as int],
    {
        self.mil_ops[side.index()]
    }

    /// Restricts how often the same choice may be made within one decision.
    pub fn set_limit(&mut self, limit: usize)
        ensures
            *final(self) == old(self).with_restrict(Some(Restriction::Limit(limit))),
    {
        self.restrict = Some(Restriction::Limit(limit));
    }
}

/// The map entry of a country after the common opening placement.
pub open spec fn four_four_two_country(i: usize) -> Country {
    four_four_two_on(i, start_country(cname_of(i)))
}

/// A country after the usual opening placement is added to it: four US influence in Italy
/// and West Germany, two in Iran; four USSR influence in East Germany and Poland, one in
/// Austria.
pub open spec fn four_four_two_on(i: usize, c: Country) -> Country {
    if i == cname_index(CName::Italy) || i == cname_index(CName::WGermany) {
        Country { us: 4, ..c }
    } else if i == cname_index(CName::Iran) {
        Country { us: 2, ..c }
    } else if i == cname_index(CName::EGermany) || i == cname_index(CName::Poland) {
        Country { ussr: 4, ..c }
    } else if i == cname_index(CName::Austria) {
        Country { ussr: 1, ..c }
    } else {
        c
    }
}

/// Starting influence is never negative.
pub proof fn lemma_start_influence_nonneg(n: CName)
    ensures
        crate::country::start_us(n) >= 0,
        crate::country::start_ussr(n) >= 0,
        base_stability(n) >= 1,
        base_stability(n) <= 6,
{
}

/// A country with a superpower's influence set to a value.
pub open spec fn with_influence(c: Country, side: Side, v: int) -> Country {
    match side {
        Side::US => Country { us: v as i8, ..c },
        _ => Country { ussr: v as i8, ..c },
    }
}

/// What adding one influence costs: two operations where the opponent controls the
/// country, otherwise one.
pub open spec fn add_cost(c: Country, side: Side) -> i8 {
    if controller_spec(c) == opposite_spec(side) { 2 } else { 1 }
}

/// The amount by which a coup succeeds: operations plus roll less twice the stability, and
/// never below zero.
pub open spec fn coup_delta(c: Country, ops: i8, roll: i8) -> int {
    let d = ops + roll - 2 * c.stability;
    if d > 0 { d } else { 0 }
}

/// A country after a successful coup of the given amount: the opponent's influence goes
/// first, and what is left over becomes the couping side's influence.
pub open spec fn coup_result(c: Country, side: Side, delta: int) -> Country {
    match side {
        Side::US => {
            let left = delta - c.ussr;
            if left > 0 { Country { ussr: 0, us: (c.us + left) as i8, ..c } } else { Country { ussr: (c.ussr - delta) as i8, ..c } }
        },
        _ => {
            let left = delta - c.us;
            if left > 0 { Country { us: 0, ussr: (c.ussr + left) as i8, ..c } } else { Country { us: (c.us - delta) as i8, ..c } }
        },
    }
}

/// A country after a war won by a side: the loser's influence all goes to the winner.
pub open spec fn war_flip_spec(c: Country, side: Side) -> Country {
    match side {
        Side::US => Country { ussr: 0, us: (c.us + c.ussr) as i8, ..c },
        _ => Country { us: 0, ussr: (c.ussr + c.us) as i8, ..c },
    }
}

/// How many of a list of map indices a side controls.
pub open spec fn count_controlled(m: Seq<Country>, ns: Seq<usize>, side: Side) -> int
    decreases ns.len(),
{
    if ns.len() == 0 {
        0
    } else {
        count_controlled(m, ns.drop_last(), side) + if controller_spec(m[ns.last() as int]) == side { 1int } else { 0int }
    }
}

/// How many of a list of map indices are battlegrounds a side controls.
pub open spec fn count_controlled_bg(m: Seq<Country>, ns: Seq<usize>, side: Side) -> int
    decreases ns.len(),
{
    if ns.len() == 0 {
        0
    } else {
        let c = m[ns.last() as int];
        count_controlled_bg(m, ns.drop_last(), side) + if c.bg && controller_spec(c) == side { 1int } else { 0int }
    }
}

/// The count of controlled battlegrounds is at most the length of the list.
pub proof fn lemma_count_controlled_bg_bound(m: Seq<Country>, ns: Seq<usize>, side: Side)
    ensures
        0 <= count_controlled_bg(m, ns, side) <= ns.len(),
    decreases ns.len(),
{
    if ns.len() > 0 {
        lemma_count_controlled_bg_bound(m, ns.drop_last(), side);
    }
}

/// The count of controlled countries is at most the length of the list.
pub proof fn lemma_count_controlled_bound(m: Seq<Country>, ns: Seq<usize>, side: Side)
    ensures
        0 <= count_controlled(m, ns, side) <= ns.len(),
    decreases ns.len(),
{
    if ns.len() > 0 {
        lemma_count_controlled_bound(m, ns.drop_last(), side);
    }
}

/// The victory points for reaching a space race box, depending on whether one got there
/// first.
pub open spec fn space_points(level: int, first: bool) -> i8 {
    if level == 1 {
        if first { 2 } else { 1 }
    } else if level == 3 {
        if first { 2 } else { 0 }
    } else if level == 5 {
        if first { 3 } else { 1 }
    } else if level == 7 {
        if first { 4 } else { 2 }
    } else if level == 8 {
        if first { 2 } else { 0 }
    } else {
        0
    }
}

/// Whether a space race roll succeeds from a box.
pub open spec fn space_success(level: int, roll: i8) -> bool {
    if level == 0 || level == 2 || level == 4 || level == 6 {
        roll <= 3
    } else if level == 1 || level == 3 || level == 5 {
        roll <= 4
    } else {
        roll <= 2
    }
}

/// Whether the other side's list of effects can never hold an effect.
pub open spec fn effect_ok(side: Side, e: Effect) -> bool {
    side != Side::Neutral && opposite_spec(side) != allowed_side_spec(e)
}

impl GameState {
    /// The number of action rounds a side has this turn.
    pub fn max_ar(&self, side: Side) -> (r: i8)
        requires
            side != Side::Neutral,
        ensures
            r == if self.turn_v() <= 3 {
                6i8
            } else if self.space_v()[side_index(side) as int] == 8 {
                8i8
            } else if side == Side::US && self.effects_v(Side::US).contains(Effect::NorthSeaOil) {
                8i8
            } else {
                7i8
            },
    {
        if self.turn <= 3 {
            6
        } else if self.space[side.index()] == 8 {
            8
        } else if side == Side::US && self.has_effect(side, Effect::NorthSeaOil) {
            8
        } else {
            7
        }
    }

    /// The countries of the map, the superpowers excluded.
    pub fn valid_countries(&self) -> (r: &[Country])
        requires
            self.countries_v().len() >= 2,
        ensures
            r@ == self.countries_v().subrange(0, self.countries_v().len() - 2),
    {
        let len = self.countries.len();
        &self.countries.as_slice()[0..len - 2]
    }

    /// The effects on the US list.
    pub fn us_effects(&self) -> (r: &[Effect])
        ensures
            r@ == self.effects_v(Side::US),
    {
        self.us_effects.as_slice()
    }

    /// The effects on the USSR list.
    pub fn ussr_effects(&self) -> (r: &[Effect])
        ensures
            r@ == self.effects_v(Side::USSR),
    {
        self.ussr_effects.as_slice()
    }

    /// Return true if the side has the effect, else false. Looking for an effect that only
    /// the opponent can hold is a mistake.
    pub fn has_effect(&self, side: Side, effect: Effect) -> (r: bool)
        requires
            effect_ok(side, effect),
        ensures
            r == self.effects_v(side).contains(effect),
    {
        let v = match side {
            Side::US => &self.us_effects,
            _ => &self.ussr_effects,
        };
        let mut i: usize = 0;
        while i < v.len()
            invariant
                i <= v.len(),
                v@ == self.effects_v(side),
                forall|j: int| 0 <= j < i ==> v@[j] != effect,
            decreases v.len() - i,
        {
            if v[i] == effect {
                return true;
            }
            i = i + 1;
        }
        false
    }

    /// Returns the index of the effect if it is in play, or else None.
    pub fn effect_pos(&self, side: Side, effect: Effect) -> (r: Option<usize>)
        requires
            effect_ok(side, effect),
        ensures
            r matches Some(i) ==> i < self.effects_v(side).len() && self.effects_v(side)[i as int] == effect
                && forall|j: int| 0 <= j < i ==> self.effects_v(side)[j] != effect,
            r is None ==> !self.effects_v(side).contains(effect),
    {
        let v = match side {
            Side::US => &self.us_effects,
            _ => &self.ussr_effects,
        };
        let mut i: usize = 0;
        while i < v.len()
            invariant
                i <= v.len(),
                v@ == self.effects_v(side),
                forall|j: int| 0 <= j < i ==> v@[j] != effect,
            decreases v.len() - i,
        {
            if v[i] == effect {
                return Some(i);
            }
            i = i + 1;
        }
        None
    }

    /// Puts an effect into play for a side.
    pub fn add_effect(&mut self, side: Side, effect: Effect)
        requires
            effect_ok(side, effect),
        ensures
            final(self).effects_v(side) == old(self).effects_v(side).push(effect),
            final(self).effects_v(opposite_spec(side)) == old(self).effects_v(opposite_spec(side)),
            final(self).same_but_effects(old(self)),
    {
        match side {
            Side::US => self.us_effects.push(effect),
            _ => self.ussr_effects.push(effect),
        }
    }

    /// Ends the effect at a position of a side's list; the last effect takes its place.
    pub fn clear_effect(&mut self, side: Side, index: usize)
        requires
            side != Side::Neutral,
            index < old(self).effects_v(side).len(),
        ensures
            final(self).effects_v(side) == old(self).effects_v(side).update(index as int, old(self).effects_v(side).last()).drop_last(),
            final(self).effects_v(opposite_spec(side)) == old(self).effects_v(opposite_spec(side)),
            final(self).same_but_effects(old(self)),
    {
        match side {
            Side::US => { self.us_effects.swap_remove(index); },
            _ => { self.ussr_effects.swap_remove(index); },
        }
    }

    /// Whether a side controls a country.
    pub fn is_controlled(&self, side: Side, country: usize) -> (r: bool)
        requires
            self.wf(),
            country < NUM_COUNTRIES,
        ensures
            r == (side == controller_spec(self.countries_v()[country as int])),
    {
        side == self.countries[country].controller()
    }

    /// Gives a superpower just enough influence to control a country.
    pub fn control(&mut self, side: Side, country: CName)
        requires
            old(self).wf(),
            side != Side::Neutral,
            control_fits(old(self).countries_v()[cname_index(country) as int], side),
        ensures
            final(self).wf(),
            final(self).countries_v() == old(self).countries_v().update(cname_index(country) as int,
                control_spec(old(self).countries_v()[cname_index(country) as int], side)),
            final(self).same_but_countries(old(self)),
    {
        proof {
            crate::country::lemma_cname_index_inverse(country);
        }
        let i = country.index();
        let mut c = self.countries[i];
        match side {
            Side::US => {
                let need = c.ussr + c.stability;
                if need > c.us {
                    c.us = need;
                }
            },
            _ => {
                let need = c.us + c.stability;
                if need > c.ussr {
                    c.ussr = need;
                }
            },
        }
        self.countries.set(i, c);
    }
}

/// The influence that control needs fits the influence counter.
pub open spec fn control_fits(c: Country, side: Side) -> bool {
    match side {
        Side::US => c.ussr + c.stability <= i8::MAX,
        _ => c.us + c.stability <= i8::MAX,
    }
}

/// A country after a superpower takes control of it with the least influence needed.
pub open spec fn control_spec(c: Country, side: Side) -> Country {
    match side {
        Side::US => if c.ussr + c.stability > c.us { Country { us: (c.ussr + c.stability) as i8, ..c } } else { c },
        _ => if c.us + c.stability > c.ussr { Country { ussr: (c.us + c.stability) as i8, ..c } } else { c },
    }
}

/// A country of a well-formed map has influence that cannot overflow when compared, and its
/// printed stability.
pub(crate) proof fn lemma_wf_country(s: GameState, i: int)
    requires
        s.wf(),
        0 <= i < NUM_COUNTRIES,
    ensures
        s.countries_v()[i].fits(),
        1 <= s.countries_v()[i].stability <= 6,
        s.countries_v()[i].us >= 0,
        s.countries_v()[i].ussr >= 0,
        s.countries_v()[i].stability == base_stability(cname_of(i as usize)),
        s.countries_v()[i].bg == base_bg(cname_of(i as usize)),
{
    lemma_start_influence_nonneg(cname_of(i as usize));
    assert(s.countries@[i].stability == base_stability(cname_of(i as usize)));
}

/// A map with one country replaced, where the new entry keeps the printed values and has no
/// negative influence, stays well formed.
pub(crate) proof fn lemma_wf_update(s: GameState, t: GameState, i: int, c: Country)
    requires
        s.wf(),
        0 <= i < NUM_COUNTRIES,
        t.countries_v() == s.countries_v().update(i, c),
        c.stability == s.countries_v()[i].stability,
        c.bg == s.countries_v()[i].bg,
        c.us >= 0,
        c.ussr >= 0,
        t.defcon_v() == s.defcon_v(),
        t.deck == s.deck,
        t.side == s.side,
        t.space == s.space,
        t.mil_ops == s.mil_ops,
        t.countries.len() == s.countries.len(),
    ensures
        t.wf(),
{
    assert forall|j: int| 0 <= j < NUM_COUNTRIES implies {
        &&& (#[trigger] t.countries@[j]).stability == base_stability(cname_of(j as usize))
        &&& t.countries@[j].bg == base_bg(cname_of(j as usize))
        &&& t.countries@[j].us >= 0
        &&& t.countries@[j].ussr >= 0
    } by {
        assert(s.countries@[j].stability == base_stability(cname_of(j as usize)));
    }
}

/// Whether a list of effects holds an effect.
fn list_has(v: &[Effect], effect: Effect) -> (r: bool)
    ensures
        r == v@.contains(effect),
{
    let mut i: usize = 0;
    while i < v.len()
        invariant
            i <= v.len(),
            forall|j: int| 0 <= j < i ==> v@[j] != effect,
        decreases v.len() - i,
    {
        if v[i] == effect {
            assert(v@[i as int] == effect);
            return true;
        }
        i = i + 1;
    }
    false
}

/// The effects of a list that last beyond the turn, in the same order.
fn keep_permanent(v: &Vec<Effect>) -> (r: Vec<Effect>)
    ensures
        r@ == v@.filter(|e: Effect| permanent_spec(e)),
{
    let mut out: Vec<Effect> = Vec::new();
    let mut i: usize = 0;
    while i < v.len()
        invariant
            i <= v.len(),
            out@ == v@.take(i as int).filter(|e: Effect| permanent_spec(e)),
        decreases v.len() - i,
    {
        proof {
            reveal_with_fuel(Seq::<_>::filter, 1);
            assert(v@.take(i + 1).drop_last() =~= v@.take(i as int));
        }
        if v[i].permanent() {
            out.push(v[i]);
        }
        i = i + 1;
    }
    proof {
        assert(v@.take(v.len() as int) =~= v@);
    }
    out
}

/// The totals of a realignment: each roll plus one for each adjacent country its side
/// controls and one for having more influence in the target.
pub open(crate) spec fn realign_totals(s: GameState, i: usize, us_roll: i8, ussr_roll: i8) -> (int, int) {
    let m = s.countries_v();
    let nb = crate::country::neighbors(crate::country::edge_list(), i);
    let c = m[i as int];
    let us = us_roll + count_controlled(m, nb, Side::US) + if c.us > c.ussr { 1int } else { 0int };
    let ussr = ussr_roll + count_controlled(m, nb, Side::USSR) + if c.ussr > c.us { 1int } else { 0int };
    (us, ussr)
}

/// A country after a realignment with the given totals: the loser of the roll-off loses the
/// difference in influence, down to zero.
pub open spec fn realign_result(c: Country, us: int, ussr: int) -> Country {
    if us > ussr {
        Country { ussr: if c.ussr - (us - ussr) > 0 { (c.ussr - (us - ussr)) as i8 } else { 0 }, ..c }
    } else if ussr > us {
        Country { us: if c.us - (ussr - us) > 0 { (c.us - (ussr - us)) as i8 } else { 0 }, ..c }
    } else {
        c
    }
}

/// Whether a war on a country succeeds: the roll less the countries adjacent to it that the
/// defender controls is at least four.
pub open(crate) spec fn war_wins(s: GameState, war_side: Side, i: usize, roll: i8) -> bool {
    let nb = crate::country::neighbors(crate::country::edge_list(), i);
    roll - count_controlled(s.countries_v(), nb, opposite_spec(war_side)) >= 4
}

/// The operations modifier of a side: minus one under the opponent's Red Scare/Purge, plus
/// one under its own Containment or Brezhnev Doctrine.
pub open(crate) spec fn ops_offset_spec(s: GameState, side: Side) -> int {
    match side {
        Side::US => {
            let a: int = if s.effects_v(Side::USSR).contains(Effect::RedScarePurge) { -1 } else { 0 };
            let b: int = if s.effects_v(Side::US).contains(Effect::Containment) { 1 } else { 0 };
            a + b
        },
        _ => {
            let a: int = if s.effects_v(Side::US).contains(Effect::RedScarePurge) { -1 } else { 0 };
            let b: int = if s.effects_v(Side::USSR).contains(Effect::Brezhnev) { 1 } else { 0 };
            a + b
        },
    }
}

/// Whether a side may attempt the space race with a card of the given operations: the track
/// is not finished, it has not tried yet this turn (or has a second try for being at least at
/// two while the opponent is below two), and the card is strong enough for its box.
pub open(crate) spec fn can_space_spec(s: GameState, side: Side, ops: i8) -> bool {
    let me = side_index(side) as int;
    let opp = side_index(opposite_spec(side)) as int;
    let my_space = s.space_v()[me];
    let tries = s.attempts_v()[me];
    let allowed = tries < 1 || (tries < 2 && my_space >= 2 && s.space_v()[opp] < 2);
    if my_space >= 8 {
        false
    } else if my_space <= 3 {
        allowed && ops >= 2
    } else if my_space <= 6 {
        allowed && ops >= 3
    } else {
        allowed && ops >= 4
    }
}

impl GameState {
    /// Takes `num` influence of a side out of a country. The caller checks that there is
    /// that much.
    pub fn remove_influence(&mut self, side: Side, country_index: usize, num: i8)
        requires
            old(self).wf(),
            side != Side::Neutral,
            country_index < NUM_COUNTRIES,
            num <= influence_spec(old(self).countries_v()[country_index as int], side),
            influence_spec(old(self).countries_v()[country_index as int], side) - num <= i8::MAX,
        ensures
            final(self).wf(),
            final(self).countries_v() == old(self).countries_v().update(country_index as int,
                with_influence(old(self).countries_v()[country_index as int], side,
                    influence_spec(old(self).countries_v()[country_index as int], side) - num)),
            final(self).same_but_countries(old(self)),
    {
        let ghost s0 = *self;
        proof { lemma_wf_country(s0, country_index as int); }
        let mut c = self.countries[country_index];
        match side {
            Side::US => c.us = c.us - num,
            _ => c.ussr = c.ussr - num,
        }
        self.countries.set(country_index, c);
        proof { lemma_wf_update(s0, *self, country_index as int, c); }
    }

    /// Adds one influence of a side to a country, and returns what it cost: two operations
    /// where the opponent controlled it, otherwise one.
    pub fn add_influence(&mut self, side: Side, country_index: usize) -> (r: i8)
        requires
            old(self).wf(),
            side != Side::Neutral,
            country_index < NUM_COUNTRIES,
            influence_spec(old(self).countries_v()[country_index as int], side) < i8::MAX,
        ensures
            final(self).wf(),
            final(self).countries_v() == old(self).countries_v().update(country_index as int,
                with_influence(old(self).countries_v()[country_index as int], side,
                    influence_spec(old(self).countries_v()[country_index as int], side) + 1)),
            final(self).same_but_countries(old(self)),
            r == add_cost(old(self).countries_v()[country_index as int], side),
    {
        let ghost s0 = *self;
        proof { lemma_wf_country(s0, country_index as int); }
        let mut c = self.countries[country_index];
        let controller = c.controller();
        let cost: i8 = match side {
            Side::US => {
                c.us = c.us + 1;
                if controller == Side::USSR { 2 } else { 1 }
            },
            _ => {
                c.ussr = c.ussr + 1;
                if controller == Side::US { 2 } else { 1 }
            },
        };
        self.countries.set(country_index, c);
        proof { lemma_wf_update(s0, *self, country_index as int, c); }
        cost
    }

    /// Takes all of a side's influence out of a country.
    pub fn remove_all(&mut self, side: Side, country: usize)
        requires
            old(self).wf(),
            side != Side::Neutral,
            country < NUM_COUNTRIES,
        ensures
            final(self).wf(),
            final(self).countries_v() == old(self).countries_v().update(country as int,
                with_influence(old(self).countries_v()[country as int], side, 0)),
            final(self).same_but_countries(old(self)),
    {
        let ghost s0 = *self;
        proof { lemma_wf_country(s0, country as int); }
        let mut c = self.countries[country];
        match side {
            Side::US => c.us = 0,
            _ => c.ussr = 0,
        }
        self.countries.set(country, c);
        proof { lemma_wf_update(s0, *self, country as int, c); }
    }

    /// Clears all effects that are meant to only last for a single turn.
    pub fn turn_effect_clear(&mut self)
        ensures
            final(self).effects_v(Side::US) == old(self).effects_v(Side::US).filter(|e: Effect| permanent_spec(e)),
            final(self).effects_v(Side::USSR) == old(self).effects_v(Side::USSR).filter(|e: Effect| permanent_spec(e)),
            final(self).same_but_effects(old(self)),
    {
        self.us_effects = keep_permanent(&self.us_effects);
        self.ussr_effects = keep_permanent(&self.ussr_effects);
    }
}

/// A filter that keeps everything keeps the list as it is.
proof fn lemma_filter_all<T>(v: Seq<T>, p: spec_fn(T) -> bool)
    requires
        forall|x: T| #[trigger] p(x),
    ensures
        v.filter(p) == v,
    decreases v.len(),
{
    reveal_with_fuel(Seq::<_>::filter, 1);
    if v.len() > 0 {
        lemma_filter_all(v.drop_last(), p);
        assert(v.drop_last().push(v.last()) =~= v);
    } else {
        assert(v.filter(p) =~= v);
    }
}

/// Without the China Card's or Vietnam Revolts' bonus, an agent with two or more operations
/// may place influence in every country it can reach, and with one only in those the
/// opponent does not control.
pub proof fn lemma_legal_influence_plain(s: GameState, agent: Side, ops: i8)
    requires
        !s.china_v(),
        !s.vietnam_v(),
        ops >= 1,
    ensures
        ops >= 2 ==> crate::country::access_spec(s, agent).filter(|i: usize| influence_ok(s, agent, ops, i))
            == crate::country::access_spec(s, agent),
        ops == 1 ==> crate::country::access_spec(s, agent).filter(|i: usize| influence_ok(s, agent, ops, i))
            == crate::country::access_spec(s, agent).filter(|i: usize| controller_spec(s.countries_v()[i as int]) != opposite_spec(agent)),
{
    let p = |i: usize| influence_ok(s, agent, ops, i);
    if ops >= 2 {
        lemma_filter_all(crate::country::access_spec(s, agent), p);
    } else {
        assert(p =~= (|i: usize| controller_spec(s.countries_v()[i as int]) != opposite_spec(agent)));
    }
}

/// What two lists put together hold, one of them holds.
proof fn lemma_concat_contains(a: Seq<usize>, b: Seq<usize>, x: usize)
    requires
        (a + b).contains(x),
    ensures
        a.contains(x) || b.contains(x),
{
    let k = choose|k: int| 0 <= k < (a + b).len() && (a + b)[k] == x;
    if k < a.len() {
        assert(a[k] == x);
    } else {
        assert(b[k - a.len()] == x);
    }
}

/// A country kept from a region's list by a filter lies in the region.
proof fn lemma_filtered_region(r: Region, p: spec_fn(usize) -> bool, x: usize)
    requires
        region_countries(r).filter(p).contains(x),
    ensures
        region_has(r, x as int),
{
    region_countries(r).lemma_filter_contains_rev(p, x);
    crate::country::lemma_region_list(r, x);
}

/// A coup or realignment target lies in Africa or Latin America, in the Middle East only at
/// DEFCON three or more, in Asia only at four or more, and in Europe only at five.
pub proof fn lemma_coup_targets_defcon(s: GameState, side: Side, x: usize)
    requires
        coup_targets(s, side).contains(x),
    ensures
        x < NUM_COUNTRIES - 2,
        region_has(Region::MiddleEast, x as int) ==> s.defcon_v() >= 3,
        region_has(Region::Asia, x as int) ==> s.defcon_v() >= 4,
        region_has(Region::Europe, x as int) ==> s.defcon_v() >= 5,
{
    let opp = opposite_spec(side);
    let pa = |i: usize| influence_spec(s.countries_v()[i as int], opp) > 0;
    let a = with_inf(s, region_countries(Region::Africa), opp);
    let c = with_inf(s, region_countries(Region::CentralAmerica), opp);
    let sa = with_inf(s, region_countries(Region::SouthAmerica), opp);
    let base = a + c + sa;
    let me = if s.defcon_v() >= 3 { base + with_inf(s, region_countries(Region::MiddleEast), opp) } else { base };
    let asia = if s.defcon_v() >= 4 { me + with_inf(s, region_countries(Region::Asia), opp) } else { me };
    let eu = if side == Side::USSR && s.effects_v(Side::US).contains(Effect::Nato) {
        region_countries(Region::Europe).filter(|i: usize| nato_ok(s, i))
    } else {
        with_inf(s, region_countries(Region::Europe), opp)
    };
    if s.defcon_v() >= 5 {
        lemma_concat_contains(asia, eu, x);
        if eu.contains(x) {
            if side == Side::USSR && s.effects_v(Side::US).contains(Effect::Nato) {
                lemma_filtered_region(Region::Europe, |i: usize| nato_ok(s, i), x);
            } else {
                lemma_filtered_region(Region::Europe, pa, x);
            }
        } else {
            lemma_asia_targets(s, side, x);
        }
    } else {
        lemma_asia_targets(s, side, x);
    }
}

/// The targets before Europe is added: Asia only at DEFCON four or more, the Middle East
/// only at three or more, the rest in Africa and Latin America.
proof fn lemma_asia_targets(s: GameState, side: Side, x: usize)
    requires
        ({
            let opp = opposite_spec(side);
            let base = with_inf(s, region_countries(Region::Africa), opp)
                + with_inf(s, region_countries(Region::CentralAmerica), opp)
                + with_inf(s, region_countries(Region::SouthAmerica), opp);
            let me = if s.defcon_v() >= 3 { base + with_inf(s, region_countries(Region::MiddleEast), opp) } else { base };
            let asia = if s.defcon_v() >= 4 { me + with_inf(s, region_countries(Region::Asia), opp) } else { me };
            asia.contains(x)
        }),
    ensures
        x < NUM_COUNTRIES - 2,
        region_has(Region::MiddleEast, x as int) ==> s.defcon_v() >= 3,
        region_has(Region::Asia, x as int) ==> s.defcon_v() >= 4,
        !region_has(Region::Europe, x as int),
{
    let opp = opposite_spec(side);
    let pa = |i: usize| influence_spec(s.countries_v()[i as int], opp) > 0;
    let a = with_inf(s, region_countries(Region::Africa), opp);
    let c = with_inf(s, region_countries(Region::CentralAmerica), opp);
    let sa = with_inf(s, region_countries(Region::SouthAmerica), opp);
    let base = a + c + sa;
    let me = if s.defcon_v() >= 3 { base + with_inf(s, region_countries(Region::MiddleEast), opp) } else { base };
    let in_me = me.contains(x);
    if s.defcon_v() >= 4 {
        lemma_concat_contains(me, with_inf(s, region_countries(Region::Asia), opp), x);
    }
    if !in_me {
        lemma_filtered_region(Region::Asia, pa, x);
    } else {
        if s.defcon_v() >= 3 {
            lemma_concat_contains(base, with_inf(s, region_countries(Region::MiddleEast), opp), x);
        }
        if !base.contains(x) {
            lemma_filtered_region(Region::MiddleEast, pa, x);
        } else {
            lemma_concat_contains(a + c, sa, x);
            if (a + c).contains(x) {
                lemma_concat_contains(a, c, x);
                if a.contains(x) {
                    lemma_filtered_region(Region::Africa, pa, x);
                } else {
                    lemma_filtered_region(Region::CentralAmerica, pa, x);
                }
            } else {
                lemma_filtered_region(Region::SouthAmerica, pa, x);
            }
        }
    }
}

/// Clearing the effects of a turn twice clears no more than once: what is left is permanent.
pub proof fn lemma_turn_effect_clear_twice(v: Seq<Effect>)
    ensures
        v.filter(|e: Effect| permanent_spec(e)).filter(|e: Effect| permanent_spec(e)) == v.filter(|e: Effect| permanent_spec(e)),
    decreases v.len(),
{
    let p = |e: Effect| permanent_spec(e);
    reveal_with_fuel(Seq::<_>::filter, 1);
    if v.len() > 0 {
        lemma_turn_effect_clear_twice(v.drop_last());
        let sub = v.drop_last().filter(p);
        let f = v.filter(p);
        if p(v.last()) {
            assert(f == sub.push(v.last()));
            assert(f.drop_last() =~= sub);
            assert(f.filter(p) =~= sub.filter(p).push(v.last()));
        } else {
            assert(f == sub);
        }
    } else {
        assert(v.filter(p) =~= Seq::<Effect>::empty());
    }
}

/// The military operations after a side adds some: capped at five.
pub open spec fn mil_ops_add(old_value: i8, amount: i8) -> i8 {
    if old_value + amount < 5 { (old_value + amount) as i8 } else { 5 }
}

/// The military operations a coup records: the larger of five and the sum, as the code has it.
pub open spec fn coup_mil_ops(old_value: i8, ops: i8) -> i8 {
    if old_value + ops > 5 { (old_value + ops) as i8 } else { 5 }
}

/// Whether the arithmetic of a coup stays within `i8`: the operations and roll, their
/// margin over twice the stability, and the couping side's new influence.
pub open(crate) spec fn coup_fits(s: GameState, side: Side, i: usize, ops: i8, roll: i8, free: bool) -> bool {
    let c = s.countries_v()[i as int];
    let delta = coup_delta(c, ops, roll);
    &&& i8::MIN <= ops + roll <= i8::MAX
    &&& i8::MIN <= ops + roll - 2 * c.stability
    &&& (side == Side::US && delta - c.ussr > 0 ==> c.us + delta - c.ussr <= i8::MAX)
    &&& (side != Side::US && delta - c.us > 0 ==> c.ussr + delta - c.us <= i8::MAX)
    &&& (!free ==> i8::MIN <= s.mil_ops_v()[side_index(side) as int] + ops <= i8::MAX)
}

/// The victory points a side earns on reaching a space race box: positive for the US.
pub open(crate) spec fn space_vp(s: GameState, side: Side) -> int {
    let me = side_index(side) as int;
    let opp = side_index(opposite_spec(side)) as int;
    let level = s.space_v()[me] + 1;
    let points = space_points(level, level > s.space_v()[opp]);
    if side == Side::US { points as int } else { -points }
}

impl GameState {
    /// Counts the countries adjacent to one that a side controls, for use in wars.
    fn adjacent_controlled(&self, country_index: usize, side: Side) -> (r: usize)
        requires
            self.wf(),
        ensures
            r == count_controlled(self.countries_v(), neighbors(edge_list(), country_index), side),
    {
        let nb = neighbors_of(country_index);
        proof { lemma_neighbors_bound(edge_list(), country_index); }
        let mut n: usize = 0;
        let mut k: usize = 0;
        while k < nb.len()
            invariant
                k <= nb.len(),
                nb@ == neighbors(edge_list(), country_index),
                self.wf(),
                forall|j: int| 0 <= j < nb@.len() ==> #[trigger] nb@[j] < NUM_COUNTRIES,
                n == count_controlled(self.countries_v(), nb@.take(k as int), side),
                n <= k,
            decreases nb.len() - k,
        {
            proof {
                assert(nb@.take(k + 1).drop_last() =~= nb@.take(k as int));
                assert(nb@.take(k + 1).last() == nb@[k as int]);
                lemma_wf_country(*self, nb@[k as int] as int);
            }
            let c = nb[k];
            if self.countries[c].controller() == side {
                n = n + 1;
            }
            k = k + 1;
        }
        proof { assert(nb@.take(nb.len() as int) =~= nb@); }
        n
    }

    /// Resolves a war on a standard roll of four to six, less one for each adjacent country the
    /// defender controls; on success the attacker takes over the defender's influence.
    pub fn war_target(&mut self, war_side: Side, country_index: usize, roll: i8) -> (r: bool)
        requires
            old(self).wf(),
            war_side != Side::Neutral,
            country_index < NUM_COUNTRIES,
            war_wins(*old(self), war_side, country_index, roll) ==>
                old(self).countries_v()[country_index as int].us + old(self).countries_v()[country_index as int].ussr <= i8::MAX,
        ensures
            r == war_wins(*old(self), war_side, country_index, roll),
            final(self).wf(),
            final(self).countries_v() == if r {
                old(self).countries_v().update(country_index as int, war_flip_spec(old(self).countries_v()[country_index as int], war_side))
            } else {
                old(self).countries_v()
            },
            final(self).same_but_countries(old(self)),
    {
        let adjacent = self.adjacent_controlled(country_index, war_side.opposite());
        let wins = if roll < 4 { false } else { adjacent <= (roll - 4) as usize };
        if wins {
            self.war_flip(war_side, country_index);
        }
        wins
    }

    /// The attacker of a won war takes over all of the defender's influence in the country.
    fn war_flip(&mut self, war_side: Side, country_index: usize)
        requires
            old(self).wf(),
            war_side != Side::Neutral,
            country_index < NUM_COUNTRIES,
            old(self).countries_v()[country_index as int].us + old(self).countries_v()[country_index as int].ussr <= i8::MAX,
        ensures
            final(self).wf(),
            final(self).countries_v() == old(self).countries_v().update(country_index as int,
                war_flip_spec(old(self).countries_v()[country_index as int], war_side)),
            final(self).same_but_countries(old(self)),
    {
        let ghost s0 = *self;
        proof { lemma_wf_country(s0, country_index as int); }
        let mut c = self.countries[country_index];
        match war_side {
            Side::US => {
                let opp = c.ussr;
                c.ussr = 0;
                c.us = c.us + opp;
            },
            _ => {
                let opp = c.us;
                c.us = 0;
                c.ussr = c.ussr + opp;
            },
        }
        self.countries.set(country_index, c);
        proof { lemma_wf_update(s0, *self, country_index as int, c); }
    }

    /// Records military operations for a side, up to five.
    pub fn add_mil_ops(&mut self, side: Side, amount: i8)
        requires
            side != Side::Neutral,
            i8::MIN <= old(self).mil_ops_v()[side_index(side) as int] + amount <= i8::MAX,
        ensures
            final(self).mil_ops_v()@ == old(self).mil_ops_v()@.update(side_index(side) as int,
                mil_ops_add(old(self).mil_ops_v()[side_index(side) as int], amount)),
            final(self).countries_v() == old(self).countries_v(),
            final(self).vp_v() == old(self).vp_v(),
            final(self).defcon_v() == old(self).defcon_v(),
            final(self).same_rest(old(self)),
            old(self).wf() && amount >= 0 ==> final(self).wf(),
    {
        let i = side.index();
        let m = self.mil_ops[i] + amount;
        self.mil_ops[i] = if m < 5 { m } else { 5 };
        proof {
            assert(self.mil_ops@ =~= old(self).mil_ops@.update(i as int, mil_ops_add(old(self).mil_ops[i as int], amount)));
        }
    }

    /// Resolves a realignment roll-off with the given rolls; adjacent control and having more
    /// influence in the target each add one to the roll.
    pub fn take_realign(&mut self, country_index: usize, us_roll: i8, ussr_roll: i8)
        requires
            old(self).wf(),
            country_index < NUM_COUNTRIES,
            realign_totals(*old(self), country_index, us_roll, ussr_roll).0 <= i8::MAX,
            realign_totals(*old(self), country_index, us_roll, ussr_roll).1 <= i8::MAX,
            realign_totals(*old(self), country_index, us_roll, ussr_roll).0
                - realign_totals(*old(self), country_index, us_roll, ussr_roll).1 <= i8::MAX,
            realign_totals(*old(self), country_index, us_roll, ussr_roll).1
                - realign_totals(*old(self), country_index, us_roll, ussr_roll).0 <= i8::MAX,
        ensures
            final(self).wf(),
            final(self).countries_v() == old(self).countries_v().update(country_index as int,
                realign_result(old(self).countries_v()[country_index as int],
                    realign_totals(*old(self), country_index, us_roll, ussr_roll).0,
                    realign_totals(*old(self), country_index, us_roll, ussr_roll).1)),
            final(self).same_but_countries(old(self)),
    {
        let ghost s0 = *self;
        proof {
            lemma_wf_country(s0, country_index as int);
            lemma_count_controlled_bound(s0.countries_v(), neighbors(edge_list(), country_index), Side::US);
            lemma_count_controlled_bound(s0.countries_v(), neighbors(edge_list(), country_index), Side::USSR);
        }
        let us_adj = self.adjacent_controlled(country_index, Side::US);
        let ussr_adj = self.adjacent_controlled(country_index, Side::USSR);
        let mut c = self.countries[country_index];
        let us_bonus: i16 = if c.us > c.ussr { 1 } else { 0 };
        let ussr_bonus: i16 = if c.ussr > c.us { 1 } else { 0 };
        let us_total: i16 = us_roll as i16 + us_adj as i16 + us_bonus;
        let ussr_total: i16 = ussr_roll as i16 + ussr_adj as i16 + ussr_bonus;
        if us_total > ussr_total {
            let diff = us_total - ussr_total;
            let left = c.ussr as i16 - diff;
            c.ussr = if left > 0 { left as i8 } else { 0 };
        } else if ussr_total > us_total {
            let diff = ussr_total - us_total;
            let left = c.us as i16 - diff;
            c.us = if left > 0 { left as i8 } else { 0 };
        }
        self.countries.set(country_index, c);
        proof { lemma_wf_update(s0, *self, country_index as int, c); }
    }

    /// Resolves a coup of the given operations and roll: the margin over twice the stability
    /// removes opponent influence first and then adds the couper's; a battleground lowers
    /// DEFCON, and a coup that is not free records military operations.
    pub fn take_coup(&mut self, side: Side, country_index: usize, ops: i8, roll: i8, free: bool)
        requires
            old(self).wf(),
            side != Side::Neutral,
            country_index < NUM_COUNTRIES,
            coup_fits(*old(self), side, country_index, ops, roll, free),
        ensures
            final(self).wf(),
            final(self).countries_v() == old(self).countries_v().update(country_index as int,
                coup_result(old(self).countries_v()[country_index as int], side,
                    coup_delta(old(self).countries_v()[country_index as int], ops, roll))),
            final(self).defcon_v() == if old(self).countries_v()[country_index as int].bg {
                clamp_defcon(old(self).defcon_v() - 1)
            } else {
                old(self).defcon_v()
            },
            final(self).mil_ops_v()@ == if free {
                old(self).mil_ops_v()@
            } else {
                old(self).mil_ops_v()@.update(side_index(side) as int,
                    coup_mil_ops(old(self).mil_ops_v()[side_index(side) as int], ops))
            },
            final(self).vp_v() == old(self).vp_v(),
            final(self).same_rest(old(self)),
    {
        let ghost s0 = *self;
        proof { lemma_wf_country(s0, country_index as int); }
        let mut c = self.countries[country_index];
        let margin = ops + roll - 2 * c.stability;
        let delta: i8 = if margin > 0 { margin } else { 0 };
        match side {
            Side::US => {
                let left = delta - c.ussr;
                if left > 0 {
                    c.ussr = 0;
                    c.us = c.us + left;
                } else {
                    c.ussr = c.ussr - delta;
                }
            },
            _ => {
                let left = delta - c.us;
                if left > 0 {
                    c.us = 0;
                    c.ussr = c.ussr + left;
                } else {
                    c.us = c.us - delta;
                }
            },
        }
        self.countries.set(country_index, c);
        proof { lemma_wf_update(s0, *self, country_index as int, c); }
        if c.bg {
            let d = self.defcon() - 1;
            self.set_defcon(d);
        }
        if !free {
            let x = side.index();
            let m = self.mil_ops[x] + ops;
            self.mil_ops[x] = if m > 5 { m } else { 5 };
            proof {
                assert(self.mil_ops@ =~= s0.mil_ops@.update(x as int, coup_mil_ops(s0.mil_ops[x as int], ops)));
            }
        }
    }

    /// Calculates the base offset to card operations, as influenced by Containment, the
    /// Brezhnev Doctrine and Red Scare/Purge.
    pub fn base_ops_offset(&self, side: Side) -> (r: i8)
        requires
            side != Side::Neutral,
        ensures
            r == ops_offset_spec(*self, side),
    {
        let mut offset: i8 = 0;
        match side {
            Side::US => {
                if list_has(self.ussr_effects.as_slice(), Effect::RedScarePurge) {
                    offset = offset - 1;
                }
                if list_has(self.us_effects.as_slice(), Effect::Containment) {
                    offset = offset + 1;
                }
            },
            _ => {
                if list_has(self.us_effects.as_slice(), Effect::RedScarePurge) {
                    offset = offset - 1;
                }
                if list_has(self.ussr_effects.as_slice(), Effect::Brezhnev) {
                    offset = offset + 1;
                }
            },
        }
        offset
    }

    /// Returns the cards in a side's hand worth at least the given operations, in card order.
    /// The China Card is never included.
    pub fn cards_at_least(&self, side: Side, val: i8) -> (r: Vec<Card>)
        requires
            self.wf(),
            side != Side::Neutral,
        ensures
            r@ == bits_to_cards(self.deck_v().pile(hand_pile(side))).filter(
                |c: Card| ops_spec(c, ops_offset_spec(*self, side) as i8) >= val),
    {
        let cards = self.deck.hand(side).card_vec();
        let offset = self.base_ops_offset(side);
        let ghost pred = |c: Card| ops_spec(c, offset) >= val;
        let mut out: Vec<Card> = Vec::new();
        let mut i: usize = 0;
        while i < cards.len()
            invariant
                i <= cards.len(),
                -1 <= offset <= 1,
                forall|c: Card| #[trigger] pred(c) == (ops_spec(c, offset) >= val),
                out@ == cards@.take(i as int).filter(pred),
            decreases cards.len() - i,
        {
            proof {
                reveal_with_fuel(Seq::<_>::filter, 1);
                assert(cards@.take(i + 1).drop_last() =~= cards@.take(i as int));
                crate::card::lemma_card_ops_range(cards@[i as int]);
            }
            let c = cards[i];
            if c.ops(offset) >= val {
                out.push(c);
            }
            i = i + 1;
        }
        proof { assert(cards@.take(cards.len() as int) =~= cards@); }
        out
    }

    /// Whether a side may attempt the space race with a card of the given operations.
    pub fn can_space(&self, side: Side, ops: i8) -> (r: bool)
        requires
            side != Side::Neutral,
        ensures
            r == can_space_spec(*self, side, ops),
    {
        let me = side.index();
        let opp = side.opposite().index();
        let my_space = self.space[me];
        if my_space >= 8 {
            return false;
        }
        let space_allowed = self.space_attempts[me] < 1
            || self.space_attempts[me] < 2 && my_space >= 2 && self.space[opp] < 2;
        if my_space <= 3 {
            space_allowed && ops >= 2
        } else if my_space <= 6 {
            space_allowed && ops >= 3
        } else {
            space_allowed && ops >= 4
        }
    }

    /// Attempts the space race with a roll: success moves the side one box up and scores the
    /// box's points, more for getting there first. Returns whether it succeeded.
    pub fn space_card(&mut self, side: Side, roll: i8) -> (r: bool)
        requires
            old(self).wf(),
            side != Side::Neutral,
            old(self).space_v()[side_index(side) as int] < 8,
            old(self).attempts_v()[side_index(side) as int] < i8::MAX,
            space_success(old(self).space_v()[side_index(side) as int] as int, roll) ==>
                i8::MIN <= old(self).vp_v() + space_vp(*old(self), side) <= i8::MAX,
        ensures
            r == space_success(old(self).space_v()[side_index(side) as int] as int, roll),
            final(self).wf(),
            final(self).attempts_v()@ == old(self).attempts_v()@.update(side_index(side) as int,
                (old(self).attempts_v()[side_index(side) as int] + 1) as i8),
            final(self).space_v()@ == if r {
                old(self).space_v()@.update(side_index(side) as int, (old(self).space_v()[side_index(side) as int] + 1) as i8)
            } else {
                old(self).space_v()@
            },
            final(self).vp_v() == if r { (old(self).vp_v() + space_vp(*old(self), side)) as i8 } else { old(self).vp_v() },
            final(self).countries_v() == old(self).countries_v(),
            final(self).defcon_v() == old(self).defcon_v(),
            final(self).mil_ops_v() == old(self).mil_ops_v(),
            final(self).turn_v() == old(self).turn_v(),
            final(self).ar_v() == old(self).ar_v(),
            final(self).side_v() == old(self).side_v(),
            final(self).effects_v(Side::US) == old(self).effects_v(Side::US),
            final(self).effects_v(Side::USSR) == old(self).effects_v(Side::USSR),
            final(self).deck_v() == old(self).deck_v(),
            final(self).restrict_v() == old(self).restrict_v(),
            final(self).event_v() == old(self).event_v(),
            final(self).vietnam_v() == old(self).vietnam_v(),
            final(self).china_v() == old(self).china_v(),
            final(self).iron_lady_v() == old(self).iron_lady_v(),
            final(self).pending_v() == old(self).pending_v(),
    {
        let me = side.index();
        let opp = side.opposite().index();
        let level = self.space[me];
        let success = if level == 0 || level == 2 || level == 4 || level == 6 {
            roll <= 3
        } else if level == 1 || level == 3 || level == 5 {
            roll <= 4
        } else {
            roll <= 2
        };
        self.space_attempts[me] = self.space_attempts[me] + 1;
        proof {
            assert(self.space_attempts@ =~= old(self).space_attempts@.update(me as int, (old(self).space_attempts[me as int] + 1) as i8));
        }
        if success {
            self.space[me] = level + 1;
            let new_level = level + 1;
            let first = new_level > self.space[opp];
            let points: i8 = if new_level == 1 {
                if first { 2 } else { 1 }
            } else if new_level == 3 {
                if first { 2 } else { 0 }
            } else if new_level == 5 {
                if first { 3 } else { 1 }
            } else if new_level == 7 {
                if first { 4 } else { 2 }
            } else if new_level == 8 {
                if first { 2 } else { 0 }
            } else {
                0
            };
            match side {
                Side::US => self.vp = self.vp + points,
                _ => self.vp = self.vp - points,
            }
            proof {
                assert(self.space@ =~= old(self).space@.update(me as int, (level + 1) as i8));
            }
        }
        success
    }
}

/// The countries of a list where a side has influence, in list order.
pub open(crate) spec fn with_inf(s: GameState, list: Seq<usize>, side: Side) -> Seq<usize> {
    list.filter(|i: usize| influence_spec(s.countries_v()[i as int], side) > 0)
}

/// Whether the USSR may coup or realign a European country under NATO: it has US influence
/// and is not US controlled, or it is France under De Gaulle or West Germany under Willy
/// Brandt.
pub open(crate) spec fn nato_ok(s: GameState, i: usize) -> bool {
    let c = s.countries_v()[i as int];
    ||| (c.us > 0 && controller_spec(c) != Side::US)
    ||| (i == cname_index(CName::France) && controller_spec(c) == Side::US
        && s.effects_v(Side::USSR).contains(Effect::DeGaulle))
    ||| (i == cname_index(CName::WGermany) && controller_spec(c) == Side::US
        && s.effects_v(Side::USSR).contains(Effect::WillyBrandt))
}

/// The countries a side may coup or realign, region by region: Africa, Central and South
/// America always, the Middle East from DEFCON three, Asia from four and Europe at five, where
/// NATO protects US controlled countries from the USSR.
pub open(crate) spec fn coup_targets(s: GameState, side: Side) -> Seq<usize> {
    let opp = opposite_spec(side);
    let base = with_inf(s, region_countries(Region::Africa), opp)
        + with_inf(s, region_countries(Region::CentralAmerica), opp)
        + with_inf(s, region_countries(Region::SouthAmerica), opp);
    let me = if s.defcon_v() >= 3 { base + with_inf(s, region_countries(Region::MiddleEast), opp) } else { base };
    let asia = if s.defcon_v() >= 4 { me + with_inf(s, region_countries(Region::Asia), opp) } else { me };
    if s.defcon_v() >= 5 {
        if side == Side::USSR && s.effects_v(Side::US).contains(Effect::Nato) {
            asia + region_countries(Region::Europe).filter(|i: usize| nato_ok(s, i))
        } else {
            asia + with_inf(s, region_countries(Region::Europe), opp)
        }
    } else {
        asia
    }
}

/// The cards of a hand, by index, with which the phasing side may try the space race, and
/// the China Card when the side may play it for that.
pub open(crate) spec fn space_choices(s: GameState, side: Side) -> Seq<usize> {
    let off = ops_offset_spec(s, side);
    let hand = crate::card::deck::true_indices(s.deck_v().pile(hand_pile(side)))
        .filter(|i: usize| can_space_spec(s, s.side_v(), ops_spec(crate::card::card_of(i), off as i8) as i8));
    if s.deck_v().china_holder() == side && s.deck_v().china_face_up()
        && can_space_spec(s, side, (4 + off) as i8) {
        hand.push(card_index(Card::The_China_Card))
    } else {
        hand
    }
}

/// Whether a side may place one influence in a country with the operations left: it does
/// not break the opponent's control unless enough operations are left or the bonus of the
/// China Card (in Asia) or Vietnam Revolts (in Southeast Asia) pays for it.
pub open(crate) spec fn influence_ok(s: GameState, agent: Side, ops: i8, i: usize) -> bool {
    let real_ops = ops - (if s.china_v() { 1int } else { 0int }) - (if s.vietnam_v() { 1int } else { 0int });
    let free = controller_spec(s.countries_v()[i as int]) != opposite_spec(agent);
    if real_ops > 1 {
        true
    } else if ops <= 1 {
        free
    } else if s.china_v() {
        free || region_has(Region::Asia, i as int)
    } else {
        free || region_has(Region::SoutheastAsia, i as int)
    }
}

/// The targets of a war by a side: the brush war targets, except that NATO protects US
/// controlled European countries from the USSR.
pub open(crate) spec fn war_targets(s: GameState, side: Side) -> Seq<usize> {
    if side == Side::USSR && s.effects_v(Side::US).contains(Effect::Nato) {
        crate::country::brush_spec().filter(|i: usize| !(region_has(Region::Europe, i as int)
            && controller_spec(s.countries_v()[i as int]) == Side::US))
    } else {
        crate::country::brush_spec()
    }
}

/// The choices of the Cuban Missile Crisis: the USSR removes two influence from Cuba (0), the
/// US from West Germany (1) or Turkey (2), where there are two to remove.
pub open(crate) spec fn cuban_choices(s: GameState, side: Side) -> Seq<usize> {
    let m = s.countries_v();
    match side {
        Side::USSR => if m[cname_index(CName::Cuba) as int].ussr >= 2 { seq![0usize] } else { seq![] },
        _ => {
            let a: Seq<usize> = if m[cname_index(CName::WGermany) as int].us >= 2 { seq![1usize] } else { seq![] };
            if m[cname_index(CName::Turkey) as int].us >= 2 { a.push(2) } else { a }
        },
    }
}

impl GameState {
    /// The countries of a list where a side has influence, in list order.
    pub(crate) fn filter_with_inf(&self, list: &Vec<usize>, side: Side) -> (r: Vec<usize>)
        requires
            self.wf(),
            side != Side::Neutral,
            forall|j: int| 0 <= j < list@.len() ==> #[trigger] list@[j] < NUM_COUNTRIES,
        ensures
            r@ == with_inf(*self, list@, side),
    {
        let ghost m = self.countries_v();
        let ghost pred = |i: usize| influence_spec(m[i as int], side) > 0;
        let mut out: Vec<usize> = Vec::new();
        let mut k: usize = 0;
        while k < list.len()
            invariant
                k <= list.len(),
                self.wf(),
                side != Side::Neutral,
                m == self.countries_v(),
                pred == (|i: usize| influence_spec(m[i as int], side) > 0),
                forall|j: int| 0 <= j < list@.len() ==> #[trigger] list@[j] < NUM_COUNTRIES,
                out@ == list@.take(k as int).filter(pred),
            decreases list.len() - k,
        {
            proof {
                reveal_with_fuel(Seq::<_>::filter, 1);
                assert(list@.take(k + 1).drop_last() =~= list@.take(k as int));
            }
            let i = list[k];
            if self.countries[i].has_influence(side) {
                out.push(i);
            }
            k = k + 1;
        }
        proof { assert(list@.take(list.len() as int) =~= list@); }
        out
    }

    /// The European countries the USSR may coup or realign under NATO, in map order.
    fn nato_europe(&self) -> (r: Vec<usize>)
        requires
            self.wf(),
        ensures
            r@ == region_countries(Region::Europe).filter(|i: usize| nato_ok(*self, i)),
    {
        let list = Region::Europe.all_countries();
        let de_gaulle = self.has_effect(Side::USSR, Effect::DeGaulle);
        let brandt = self.has_effect(Side::USSR, Effect::WillyBrandt);
        let france = CName::France.index();
        let wg = CName::WGermany.index();
        let ghost pred = |i: usize| nato_ok(*self, i);
        let mut out: Vec<usize> = Vec::new();
        let mut k: usize = 0;
        while k < list.len()
            invariant
                k <= list.len(),
                self.wf(),
                list@ == region_countries(Region::Europe),
                de_gaulle == self.effects_v(Side::USSR).contains(Effect::DeGaulle),
                brandt == self.effects_v(Side::USSR).contains(Effect::WillyBrandt),
                france == cname_index(CName::France),
                wg == cname_index(CName::WGermany),
                pred == (|i: usize| nato_ok(*self, i)),
                out@ == list@.take(k as int).filter(pred),
            decreases list.len() - k,
        {
            proof {
                reveal_with_fuel(Seq::<_>::filter, 1);
                assert(list@.take(k + 1).drop_last() =~= list@.take(k as int));
            }
            let i = list[k];
            proof { lemma_wf_country(*self, i as int); }
            let c = self.countries[i];
            let ctrl = c.controller();
            let ok = (c.has_influence(Side::US) && ctrl != Side::US)
                || (i == france && ctrl == Side::US && de_gaulle)
                || (i == wg && ctrl == Side::US && brandt);
            if ok {
                out.push(i);
            }
            k = k + 1;
        }
        proof { assert(list@.take(list.len() as int) =~= list@); }
        out
    }

    /// The countries a side may coup or realign, region by region.
    pub fn legal_coup_realign(&self, side: Side) -> (r: Vec<usize>)
        requires
            self.wf(),
            side != Side::Neutral,
        ensures
            r@ == coup_targets(*self, side),
    {
        let opp = side.opposite();
        let mut vec = self.filter_with_inf(&Region::Africa.all_countries(), opp);
        let mut ca = self.filter_with_inf(&Region::CentralAmerica.all_countries(), opp);
        vec.append(&mut ca);
        let mut sa = self.filter_with_inf(&Region::SouthAmerica.all_countries(), opp);
        vec.append(&mut sa);
        let defcon = self.defcon();
        if defcon >= 3 {
            let mut me = self.filter_with_inf(&Region::MiddleEast.all_countries(), opp);
            vec.append(&mut me);
        }
        if defcon >= 4 {
            let mut asia = self.filter_with_inf(&Region::Asia.all_countries(), opp);
            vec.append(&mut asia);
        }
        if defcon >= 5 {
            if side == Side::USSR && self.has_effect(Side::US, Effect::Nato) {
                let mut eu = self.nato_europe();
                vec.append(&mut eu);
            } else {
                let mut eu = self.filter_with_inf(&Region::Europe.all_countries(), opp);
                vec.append(&mut eu);
            }
        }
        vec
    }

    /// The cards, by index, a side may use for the space race. The cards of the hand are
    /// checked for the phasing side.
    pub fn legal_space(&self, side: Side) -> (r: Vec<usize>)
        requires
            self.wf(),
            side != Side::Neutral,
        ensures
            r@ == space_choices(*self, side),
    {
        let hand = self.deck.hand(side);
        let idx = hand.iter_indices();
        let ops_offset = self.base_ops_offset(side);
        let ghost pred = |i: usize| can_space_spec(*self, self.side_v(), ops_spec(crate::card::card_of(i), ops_offset) as i8);
        proof { crate::card::deck::lemma_true_indices_bound(hand@); }
        let mut vec: Vec<usize> = Vec::new();
        let mut k: usize = 0;
        while k < idx.len()
            invariant
                k <= idx.len(),
                self.wf(),
                -1 <= ops_offset <= 1,
                forall|j: int| 0 <= j < idx@.len() ==> #[trigger] idx@[j] < NUM_CARDS,
                pred == (|i: usize| can_space_spec(*self, self.side_v(), ops_spec(crate::card::card_of(i), ops_offset) as i8)),
                vec@ == idx@.take(k as int).filter(pred),
            decreases idx.len() - k,
        {
            proof {
                reveal_with_fuel(Seq::<_>::filter, 1);
                assert(idx@.take(k + 1).drop_last() =~= idx@.take(k as int));
            }
            let c = Card::from_index(idx[k]);
            proof { crate::card::lemma_card_ops_range(c); }
            if self.can_space(self.side, c.ops(ops_offset)) {
                vec.push(idx[k]);
            }
            k = k + 1;
        }
        proof { assert(idx@.take(idx.len() as int) =~= idx@); }
        if self.deck.china_available(side) {
            let china = Card::The_China_Card;
            if self.can_space(side, china.base_ops() + ops_offset) {
                vec.push(china.index());
            }
        }
        vec
    }

    /// The countries an agent may place one influence in with the operations it has left.
    pub fn legal_influence(&self, agent: Side, ops: i8) -> (r: Vec<usize>)
        requires
            self.wf(),
            agent != Side::Neutral,
            ops > 0,
        ensures
            r@ == crate::country::access_spec(*self, agent).filter(|i: usize| influence_ok(*self, agent, ops, i)),
    {
        let china = self.china;
        let vietnam = self.vietnam;
        let real_ops: i8 = ops - (if china { 1i8 } else { 0i8 }) - (if vietnam { 1i8 } else { 0i8 });
        let a = crate::country::access(self, agent);
        let ghost pred = |i: usize| influence_ok(*self, agent, ops, i);
        let ghost acc = crate::country::access_spec(*self, agent);
        proof {
            assert forall|j: int| 0 <= j < acc.len() implies #[trigger] acc[j] < NUM_COUNTRIES - 2 by {
                let idx = Seq::new((NUM_COUNTRIES - 2) as nat, |i: int| i as usize);
                idx.lemma_filter_pred(|i: usize| crate::country::reaches(*self, agent, i, NUM_COUNTRIES as int), j);
                let x = acc[j];
                assert(acc.contains(x));
                idx.lemma_filter_contains_rev(|i: usize| crate::country::reaches(*self, agent, i, NUM_COUNTRIES as int), x);
            }
        }
        let opp = agent.opposite();
        let mut out: Vec<usize> = Vec::new();
        let mut k: usize = 0;
        while k < a.len()
            invariant
                k <= a.len(),
                self.wf(),
                a@ == acc,
                forall|j: int| 0 <= j < acc.len() ==> #[trigger] acc[j] < NUM_COUNTRIES - 2,
                opp == opposite_spec(agent),
                china == self.china_v(),
                vietnam == self.vietnam_v(),
                real_ops == ops - (if china { 1int } else { 0int }) - (if vietnam { 1int } else { 0int }),
                ops > 0,
                pred == (|i: usize| influence_ok(*self, agent, ops, i)),
                out@ == a@.take(k as int).filter(pred),
            decreases a.len() - k,
        {
            proof {
                reveal_with_fuel(Seq::<_>::filter, 1);
                assert(a@.take(k + 1).drop_last() =~= a@.take(k as int));
                lemma_wf_country(*self, a@[k as int] as int);
            }
            let x = a[k];
            let free = self.countries[x].controller() != opp;
            let ok = if real_ops > 1 {
                true
            } else if ops <= 1 {
                free
            } else if china {
                free || Region::Asia.has_country(x)
            } else {
                free || Region::SoutheastAsia.has_country(x)
            };
            if ok {
                out.push(x);
            }
            k = k + 1;
        }
        proof { assert(a@.take(a.len() as int) =~= a@); }
        out
    }

    /// The targets of a war by a side.
    pub fn legal_war(&self, side: Side) -> (r: Allowed)
        requires
            self.wf(),
        ensures
            r@ == AllowedView::Known(war_targets(*self, side)),
    {
        let brush = crate::country::brush_targets();
        if side == Side::USSR && self.has_effect(Side::US, Effect::Nato) {
            let ghost pred = |i: usize| !(region_has(Region::Europe, i as int)
                && controller_spec(self.countries_v()[i as int]) == Side::US);
            proof {
                assert forall|j: int| 0 <= j < brush@.len() implies #[trigger] brush@[j] < NUM_COUNTRIES by {
                    let idx = Seq::new(NUM_COUNTRIES as nat, |i: int| i as usize);
                    idx.lemma_filter_pred(|i: usize| base_stability(cname_of(i)) <= 2, j);
                    let x = brush@[j];
                    assert(brush@.contains(x));
                    idx.lemma_filter_contains_rev(|i: usize| base_stability(cname_of(i)) <= 2, x);
                }
            }
            let mut vec: Vec<usize> = Vec::new();
            let mut k: usize = 0;
            while k < brush.len()
                invariant
                    k <= brush.len(),
                    self.wf(),
                    forall|j: int| 0 <= j < brush@.len() ==> #[trigger] brush@[j] < NUM_COUNTRIES,
                    pred == (|i: usize| !(region_has(Region::Europe, i as int)
                        && controller_spec(self.countries_v()[i as int]) == Side::US)),
                    vec@ == brush@.take(k as int).filter(pred),
                decreases brush.len() - k,
            {
                proof {
                    reveal_with_fuel(Seq::<_>::filter, 1);
                    assert(brush@.take(k + 1).drop_last() =~= brush@.take(k as int));
                    lemma_wf_country(*self, brush@[k as int] as int);
                }
                let i = brush[k];
                if !(Region::Europe.has_country(i) && self.countries[i].controller() == Side::US) {
                    vec.push(i);
                }
                k = k + 1;
            }
            proof { assert(brush@.take(brush.len() as int) =~= brush@); }
            Allowed::new_owned(vec)
        } else {
            Allowed::new_slice(brush.as_slice())
        }
    }

    /// The choices a side has in the Cuban Missile Crisis.
    pub fn legal_cuban(&self, side: Side) -> (r: Allowed)
        requires
            self.wf(),
            side != Side::Neutral,
        ensures
            r@ == AllowedView::Known(cuban_choices(*self, side)),
    {
        proof {
            crate::country::lemma_cname_index_inverse(CName::Cuba);
            crate::country::lemma_cname_index_inverse(CName::WGermany);
            crate::country::lemma_cname_index_inverse(CName::Turkey);
        }
        match side {
            Side::USSR => {
                if self.countries[CName::Cuba.index()].ussr >= 2 {
                    let v = vec![0usize];
                    proof { assert(v@ =~= seq![0usize]); }
                    Allowed::new_owned(v)
                } else {
                    Allowed::new_empty()
                }
            },
            _ => {
                let mut v: Vec<usize> = Vec::new();
                if self.countries[CName::WGermany.index()].us >= 2 {
                    v.push(1);
                }
                if self.countries[CName::Turkey.index()].us >= 2 {
                    v.push(2);
                }
                proof {
                    let m = self.countries_v();
                    let a: Seq<usize> = if m[cname_index(CName::WGermany) as int].us >= 2 { seq![1usize] } else { seq![] };
                    assert(v@ =~= if m[cname_index(CName::Turkey) as int].us >= 2 { a.push(2) } else { a });
                }
                if v.len() == 0 {
                    proof { assert(v@ =~= Seq::<usize>::empty()); }
                    Allowed::new_empty()
                } else {
                    Allowed::new_owned(v)
                }
            },
        }
    }
}

/// The military operations penalty at the end of a turn: what a side fell short of DEFCON.
pub open spec fn mil_penalty(defcon: i8, mil_ops: i8) -> int {
    if defcon - mil_ops > 0 { defcon - mil_ops } else { 0 }
}

/// The side whose hand a discarded card leaves: during Grain Sales every card but Grain
/// Sales itself comes from the USSR hand.
pub open(crate) spec fn discard_side(s: GameState, side: Side, card: Card) -> Side {
    if s.event_v() == Some(Card::Grain_Sales) && card != Card::Grain_Sales { Side::USSR } else { side }
}

/// The deck after a card is played from a side's hand: the China Card passes to the other
/// side face down, any other card leaves the hand.
pub open spec fn deck_played(old_deck: Deck, new_deck: Deck, side: Side, card: Card) -> bool {
    &&& new_deck.wf()
    &&& card == Card::The_China_Card ==> {
        &&& new_deck.china_holder() == opposite_spec(old_deck.china_holder())
        &&& !new_deck.china_face_up()
        &&& forall|p: Pile| #[trigger] new_deck.pile(p) == old_deck.pile(p)
    }
    &&& card != Card::The_China_Card ==> {
        &&& new_deck.pile(hand_pile(side)) == old_deck.pile(hand_pile(side)).update(card_index(card) as int, false)
        &&& new_deck.same_but(&old_deck, hand_pile(side))
    }
}

/// The deck after the pending discards go onto the discard pile.
pub open spec fn deck_flushed(old_deck: Deck, new_deck: Deck) -> bool {
    &&& new_deck.wf()
    &&& forall|i: int| 0 <= i < CARD_BITS ==> #[trigger] new_deck.pile(Pile::Discard)[i]
        == (old_deck.pile(Pile::Discard)[i] || old_deck.pile(Pile::PendingDiscard)[i])
    &&& new_deck.pile(Pile::PendingDiscard) == Seq::new(CARD_BITS as nat, |i: int| false)
    &&& forall|p: Pile| p != Pile::Discard && p != Pile::PendingDiscard ==> #[trigger] new_deck.pile(p) == old_deck.pile(p)
    &&& new_deck.china_holder() == old_deck.china_holder()
    &&& new_deck.china_face_up() == old_deck.china_face_up()
}

/// What the end of a ply does: the China Card bonus ends; unless the game is won the action
/// round advances after the US moves, the other side becomes phasing and the pending discards
/// are flushed.
pub open(crate) spec fn ply_step(s: GameState, t: GameState, r: Result<(), Win>) -> bool {
    &&& r == s.check_win_spec()
    &&& r is Err ==> t == s.with_china(false)
    &&& r is Ok ==> {
        &&& t == s.with_ply((if s.side_v() == Side::US { s.ar_v() + 1 } else { s.ar_v() as int }) as i8,
            opposite_spec(s.side_v()), false, t.deck_v())
        &&& deck_flushed(s.deck_v(), t.deck_v())
        &&& t.wf()
    }
}

/// Where the nearest event below position `n` of the stack is, or -1 if there is none.
pub open spec fn last_event_below(p: Seq<(Side, crate::action::Action, AllowedView, i8)>, n: int) -> int
    decreases n,
{
    if n <= 0 {
        -1
    } else if p[n - 1].1 == crate::action::Action::Event {
        n - 1
    } else {
        last_event_below(p, n - 1)
    }
}

/// Whether a pending headline names its card first among known choices.
pub open spec fn headline_ok(d: (Side, crate::action::Action, AllowedView, i8)) -> bool {
    d.2 matches AllowedView::Known(s) && s.len() > 0 && s[0] < NUM_CARDS
}

/// The priority of a headline: twice its card's operations, and one more for the US.
pub open spec fn headline_priority_spec(d: (Side, crate::action::Action, AllowedView, i8)) -> int {
    2 * crate::card::card_att(crate::card::card_of(d.2->Known_0[0])).ops + if d.0 == Side::US { 1int } else { 0int }
}

/// Whether the stack holds two events nearest its top that name their cards.
pub open spec fn headlines_ready(p: Seq<(Side, crate::action::Action, AllowedView, i8)>) -> bool {
    let i1 = last_event_below(p, p.len() as int);
    let i2 = last_event_below(p, i1);
    &&& i1 >= 0
    &&& i2 >= 0
    &&& headline_ok(p[i1])
    &&& headline_ok(p[i2])
}

/// The stack with its two events nearest the top swapped when the lower one has the higher
/// priority.
pub open spec fn ordered_headlines(p: Seq<(Side, crate::action::Action, AllowedView, i8)>) -> Seq<(Side, crate::action::Action, AllowedView, i8)> {
    let i1 = last_event_below(p, p.len() as int);
    let i2 = last_event_below(p, i1);
    if headline_priority_spec(p[i2]) > headline_priority_spec(p[i1]) {
        p.update(i1, p[i2]).update(i2, p[i1])
    } else {
        p
    }
}

/// The pending decision as its parts: agent, action, choices and quantity.
pub open spec fn dview(d: Decision) -> (Side, crate::action::Action, AllowedView, i8) {
    (d.agent, d.action, d.allowed@, d.quantity)
}

/// The decisions that go below a pending decision: clearing the event below an event, and
/// ending the action round below its start.
pub open spec fn pending_before(d: (Side, crate::action::Action, AllowedView, i8)) -> Seq<(Side, crate::action::Action, AllowedView, i8)> {
    match d.1 {
        crate::action::Action::Event => seq![(Side::Neutral, crate::action::Action::ClearEvent, AllowedView::Known(Seq::empty()), 1i8)],
        crate::action::Action::BeginAr => seq![(Side::Neutral, crate::action::Action::EndAr, AllowedView::Known(Seq::empty()), 1i8)],
        _ => seq![],
    }
}

/// The decisions that go above a pending decision: the Cuban Missile Crisis choice before a
/// coup or operations of a side under it.
pub open(crate) spec fn pending_after(s: GameState, d: (Side, crate::action::Action, AllowedView, i8)) -> Seq<(Side, crate::action::Action, AllowedView, i8)> {
    if (d.1 == crate::action::Action::Coup || d.1 == crate::action::Action::ConductOps)
        && s.effects_v(d.0).contains(Effect::CubanMissileCrisis) {
        seq![(d.0, crate::action::Action::CubanMissile, AllowedView::Known(cuban_choices(s, d.0)), 1i8)]
    } else {
        seq![]
    }
}

/// The action rounds a side has left this turn, the current one included.
pub open(crate) spec fn ar_left_spec(s: GameState, side: Side) -> int {
    let goal: int = if s.turn_v() <= 3 { 6 } else { 7 };
    match side {
        Side::US => goal - s.ar_v() + 1,
        _ => if s.side_v() == Side::US { goal - s.ar_v() } else { goal - s.ar_v() + 1 },
    }
}

impl GameState {
    /// The same state with the China Card bonus flag set.
    pub open(crate) spec fn with_china(self, china: bool) -> Self {
        GameState { china, ..self }
    }

    /// The same state with another action round, phasing side, China Card flag and deck.
    pub open(crate) spec fn with_ply(self, ar: i8, side: Side, china: bool, deck: Deck) -> Self {
        GameState { ar, side, china, deck, ..self }
    }

    /// The pending decisions as their parts, the next one last.
    pub open(crate) spec fn pending_views(&self) -> Seq<(Side, crate::action::Action, AllowedView, i8)> {
        self.pending@.map_values(|d: Decision| dview(d))
    }

    /// Ends a ply: checks for a win, advances the action round after the US moves, passes
    /// the turn to the other side and flushes the pending discards.
    pub fn advance_ply(&mut self) -> (r: Result<(), Win>)
        requires
            old(self).wf(),
            old(self).side_v() == Side::US ==> old(self).ar_v() < i8::MAX,
        ensures
            ply_step(*old(self), *final(self), r),
    {
        self.china = false;
        let w = self.check_win();
        if let Err(e) = w {
            return Err(e);
        }
        if let Side::US = self.side {
            self.ar = self.ar + 1;
        }
        self.side = self.side.opposite();
        self.deck.flush_pending();
        Ok(())
    }

    /// Scores the military operations penalties and moves to the next turn: DEFCON improves
    /// by one, the military operations reset, and unless the game is won the China Card turns
    /// face up and the effects of the turn end.
    fn close_turn(&mut self) -> (r: Result<(), Win>)
        requires
            old(self).wf(),
            close_fits(*old(self)),
        ensures
            turn_closed(*old(self), *final(self), r),
            final(self).wf(),
    {
        let defcon = self.defcon();
        let us_short = defcon - self.mil_ops[0];
        let ussr_short = defcon - self.mil_ops[1];
        let us_pen: i8 = if us_short > 0 { us_short } else { 0 };
        let ussr_pen: i8 = if ussr_short > 0 { ussr_short } else { 0 };
        self.vp = self.vp - us_pen;
        self.vp = self.vp + ussr_pen;
        self.turn = self.turn + 1;
        self.ar = 0;
        self.set_defcon(defcon + 1);
        self.mil_ops[0] = 0;
        self.mil_ops[1] = 0;
        proof { assert(self.mil_ops =~= [0i8, 0i8]); }
        let w = self.check_win();
        if let Err(e) = w {
            return Err(e);
        }
        self.deck.end_turn_cleanup();
        self.turn_effect_clear();
        Ok(())
    }

    /// Ends a turn. A side holding a scoring card loses the game, and the US wins when both
    /// do; otherwise the turn closes.
    pub fn advance_turn(&mut self) -> (r: Result<(), Win>)
        requires
            old(self).wf(),
            !held_scoring_spec(old(self).deck_v(), Side::US) && !held_scoring_spec(old(self).deck_v(), Side::USSR)
                ==> close_fits(*old(self)),
        ensures
            final(self).wf(),
            held_scoring_spec(old(self).deck_v(), Side::US) || held_scoring_spec(old(self).deck_v(), Side::USSR) ==> {
                &&& *final(self) == *old(self)
                &&& r == Err::<(), Win>(Win::HeldScoring(
                    if held_scoring_spec(old(self).deck_v(), Side::USSR) { Side::US } else { Side::USSR }))
            },
            !held_scoring_spec(old(self).deck_v(), Side::US) && !held_scoring_spec(old(self).deck_v(), Side::USSR)
                ==> turn_closed(*old(self), *final(self), r),
    {
        let us_held = self.deck.held_scoring(Side::US);
        let ussr_held = self.deck.held_scoring(Side::USSR);
        if us_held && ussr_held {
            return Err(Win::HeldScoring(Side::US));
        } else if us_held {
            return Err(Win::HeldScoring(Side::USSR));
        } else if ussr_held {
            return Err(Win::HeldScoring(Side::US));
        }
        self.close_turn()
    }

    /// Resolves a neutral decision: the end of an action round ends the ply, and clearing an
    /// event clears it and checks for a win.
    pub fn resolve_neutral(&mut self, action: crate::action::Action) -> (r: Result<(), Win>)
        requires
            old(self).wf(),
            action == crate::action::Action::EndAr || action == crate::action::Action::ClearEvent,
            action == crate::action::Action::EndAr && old(self).side_v() == Side::US ==> old(self).ar_v() < i8::MAX,
        ensures
            action == crate::action::Action::EndAr ==> ply_step(*old(self), *final(self), r),
            action == crate::action::Action::ClearEvent ==> {
                &&& *final(self) == old(self).with_event(None)
                &&& r == old(self).check_win_spec()
            },
    {
        match action {
            crate::action::Action::EndAr => self.advance_ply(),
            _ => {
                self.current_event = None;
                self.check_win()
            },
        }
    }

    /// Discards a card from a side's hand, handling the special case of Grain Sales, which
    /// only takes cards from the USSR.
    pub fn discard_card(&mut self, side: Side, card: Card)
        requires
            old(self).wf(),
            card == Card::The_China_Card ==> old(self).deck_v().china_holder() != Side::Neutral,
            card != Card::The_China_Card ==> discard_side(*old(self), side, card) != Side::Neutral,
        ensures
            *final(self) == old(self).with_deck(final(self).deck_v()),
            deck_played(old(self).deck_v(), final(self).deck_v(), discard_side(*old(self), side, card), card),
            final(self).wf(),
    {
        let from = match self.current_event {
            Some(Card::Grain_Sales) => {
                if let Card::Grain_Sales = card { side } else { Side::USSR }
            },
            _ => side,
        };
        let res = self.deck.play_card(from, card);
        proof { assert(res is Ok); }
    }

    /// The same state with another deck.
    pub open(crate) spec fn with_deck(self, deck: Deck) -> Self {
        GameState { deck, ..self }
    }

    /// Ends the We Will Bury You effect: unless the US answers with the UN Intervention event,
    /// the USSR gains three points.
    fn wwby(&mut self, safe: bool)
        requires
            old(self).effects_v(Side::US).contains(Effect::WWBY) && !safe ==> old(self).vp_v() - 3 >= i8::MIN,
        ensures
            !old(self).effects_v(Side::US).contains(Effect::WWBY) ==> *final(self) == *old(self),
            old(self).effects_v(Side::US).contains(Effect::WWBY) ==> {
                &&& final(self).vp_v() == if safe { old(self).vp_v() as int } else { old(self).vp_v() - 3 }
                &&& forall|e: Effect| e != Effect::WWBY ==> (#[trigger] final(self).effects_v(Side::US).contains(e)
                    <==> old(self).effects_v(Side::US).contains(e))
                &&& final(self).effects_v(Side::US) == crate::card::board::without(old(self).effects_v(Side::US), Effect::WWBY)
            },
            final(self).same_but_effects(&old(self).with_vp(final(self).vp_v())),
            final(self).effects_v(Side::USSR) == old(self).effects_v(Side::USSR),
            old(self).wf() ==> final(self).wf(),
    {
        let ghost v = self.us_effects@;
        if let Some(pos) = self.effect_pos(Side::US, Effect::WWBY) {
            proof {
                let w = v.update(pos as int, v.last()).drop_last();
                assert forall|e: Effect| e != Effect::WWBY implies (w.contains(e) <==> v.contains(e)) by {
                    if w.contains(e) {
                        let k = choose|k: int| 0 <= k < w.len() && w[k] == e;
                        if k == pos { assert(v[v.len() - 1] == e); } else { assert(v[k] == e); }
                    }
                    if v.contains(e) {
                        let k = choose|k: int| 0 <= k < v.len() && v[k] == e;
                        if k == v.len() - 1 {
                            if pos as int != k { assert(w[pos as int] == e); }
                        } else {
                            assert(k != pos);
                            assert(w[k] == e);
                        }
                    }
                }
            }
            if !safe {
                self.vp = self.vp - 3;
            }
            self.us_effects.swap_remove(pos);
            proof {
                crate::country::scoring::lemma_first_pos(v, Effect::WWBY, pos as int);
            }
        }
    }

    /// The action rounds a side has left this turn, the current one included.
    pub fn ar_left(&self, side: Side) -> (r: i8)
        requires
            side != Side::Neutral,
            i8::MIN <= 7 - self.ar_v() + 1 <= i8::MAX,
            i8::MIN <= 6 - self.ar_v(),
        ensures
            r == ar_left_spec(*self, side),
    {
        let goal: i8 = if self.turn <= 3 { 6 } else { 7 };
        match side {
            Side::US => goal - self.ar + 1,
            _ => {
                if self.side == Side::US {
                    goal - self.ar
                } else {
                    goal - self.ar + 1
                }
            },
        }
    }

    /// Puts a decision on the pending stack, with the decisions that belong below it (clearing
    /// an event, ending an action round) and above it (the Cuban Missile Crisis choice before
    /// a coup or operations of a side under it).
    pub fn add_pending(&mut self, decision: Decision)
        requires
            old(self).wf(),
            decision.action == crate::action::Action::Coup || decision.action == crate::action::Action::ConductOps
                ==> decision.agent != Side::Neutral,
        ensures
            final(self).pending_views() == old(self).pending_views() + pending_before(dview(decision))
                + seq![dview(decision)] + pending_after(*old(self), dview(decision)),
            final(self).same_but_pending(old(self)),
            final(self).wf(),
    {
        let act = decision.action;
        let side = decision.agent;
        let ghost dv = dview(decision);
        let ghost p0 = self.pending@;
        match act {
            crate::action::Action::Event => {
                self.pending.push(Decision::new(Side::Neutral, crate::action::Action::ClearEvent, Allowed::new_empty()));
            },
            crate::action::Action::BeginAr => {
                self.pending.push(Decision::new(Side::Neutral, crate::action::Action::EndAr, Allowed::new_empty()));
            },
            _ => {},
        }
        let ghost p1 = self.pending@;
        proof {
            assert(p1.map_values(|d: Decision| dview(d)) =~= p0.map_values(|d: Decision| dview(d)) + pending_before(dv));
        }
        self.pending.push(decision);
        let ghost p2 = self.pending@;
        proof {
            assert(p2.map_values(|d: Decision| dview(d)) =~= p1.map_values(|d: Decision| dview(d)) + seq![dv]);
        }
        match act {
            crate::action::Action::Coup | crate::action::Action::ConductOps => {
                if self.has_effect(side, Effect::CubanMissileCrisis) {
                    let legal = self.legal_cuban(side);
                    self.pending.push(Decision::new(side, crate::action::Action::CubanMissile, legal));
                    proof {
                        assert(self.pending@.map_values(|d: Decision| dview(d)) =~= p2.map_values(|d: Decision| dview(d)) + pending_after(*old(self), dv));
                    }
                } else {
                    proof { assert(self.pending@.map_values(|d: Decision| dview(d)) =~= p2.map_values(|d: Decision| dview(d)) + pending_after(*old(self), dv)); }
                }
            },
            _ => {
                proof { assert(self.pending@.map_values(|d: Decision| dview(d)) =~= p2.map_values(|d: Decision| dview(d)) + pending_after(*old(self), dv)); }
            },
        }
        proof {
            assert(self.pending_views() =~= old(self).pending_views() + pending_before(dv) + seq![dv] + pending_after(*old(self), dv));
        }
    }

    /// The decisions still to make, the next one last.
    pub fn pending(&self) -> (r: &[Decision])
        ensures
            r@ == self.pending_v(),
    {
        self.pending.as_slice()
    }

    /// Takes the next decision off the stack.
    pub fn remove_pending(&mut self) -> (r: Option<Decision>)
        ensures
            old(self).pending_v().len() == 0 ==> r is None && final(self).pending_v() == old(self).pending_v(),
            old(self).pending_v().len() > 0 ==> r == Some(old(self).pending_v().last())
                && final(self).pending_v() == old(self).pending_v().drop_last(),
            final(self).same_but_pending(old(self)),
            old(self).wf() ==> final(self).wf(),
    {
        self.pending.pop()
    }

    /// The next decision, if any.
    pub fn peek_pending(&self) -> (r: Option<&Decision>)
        ensures
            self.pending_v().len() == 0 ==> r is None,
            self.pending_v().len() > 0 ==> r == Some(&self.pending_v().last()),
    {
        let n = self.pending.len();
        if n == 0 {
            None
        } else {
            Some(&self.pending[n - 1])
        }
    }

    /// The next decision, to change it in place.
    pub fn peek_pending_mut(&mut self) -> (r: Option<&mut Decision>)
        ensures
            old(self).pending_v().len() == 0 ==> r is None && *final(self) == *old(self),
            old(self).pending_v().len() > 0 ==> match r {
                Some(d) => {
                    &&& *d == old(self).pending_v().last()
                    &&& final(self).pending_v() == old(self).pending_v().update(
                        old(self).pending_v().len() - 1, *final(d))
                    &&& final(self).same_but_pending(old(self))
                },
                None => false,
            },
    {
        let n = self.pending.len();
        if n == 0 {
            None
        } else {
            Some(&mut self.pending[n - 1])
        }
    }

    /// Orders the two headlines on the stack so that the one with more operations resolves
    /// first, the US one on a tie: the two events nearest the top swap places when the lower
    /// one goes first.
    pub fn order_headlines(&mut self)
        requires
            headlines_ready(old(self).pending_views()),
        ensures
            final(self).pending_views() == ordered_headlines(old(self).pending_views()),
            final(self).same_but_pending(old(self)),
            old(self).wf() ==> final(self).wf(),
    {
        let n = self.pending.len();
        let ghost v = self.pending_views();
        let mut i1: usize = n;
        while i1 > 0 && self.pending[i1 - 1].action != crate::action::Action::Event
            invariant
                i1 <= n,
                n == self.pending@.len(),
                v == self.pending_views(),
                last_event_below(v, i1 as int) == last_event_below(v, n as int),
            decreases i1,
        {
            i1 = i1 - 1;
        }
        let i1 = i1 - 1;
        let mut i2: usize = i1;
        while i2 > 0 && self.pending[i2 - 1].action != crate::action::Action::Event
            invariant
                i2 <= i1,
                i1 < n,
                n == self.pending@.len(),
                v == self.pending_views(),
                last_event_below(v, i2 as int) == last_event_below(v, i1 as int),
            decreases i2,
        {
            i2 = i2 - 1;
        }
        let i2 = i2 - 1;
        let p1 = self.headline_priority(i1);
        let p2 = self.headline_priority(i2);
        if p2 > p1 {
            let d1 = self.pending[i1].clone();
            let d2 = self.pending[i2].clone();
            self.pending.set(i1, d2);
            self.pending.set(i2, d1);
            proof {
                assert(self.pending_views() =~= v.update(i1 as int, v[i2 as int]).update(i2 as int, v[i1 as int]));
            }
        }
    }

    /// Whether the stack holds two events nearest its top that name their cards, as
    /// `order_headlines` needs.
    pub fn headlines_ready(&self) -> (r: bool)
        ensures
            r == headlines_ready(self.pending_views()),
    {
        let n = self.pending.len();
        let ghost v = self.pending_views();
        let mut i1: usize = n;
        while i1 > 0 && self.pending[i1 - 1].action != crate::action::Action::Event
            invariant
                i1 <= n,
                n == self.pending@.len(),
                v == self.pending_views(),
                last_event_below(v, i1 as int) == last_event_below(v, n as int),
            decreases i1,
        {
            i1 = i1 - 1;
        }
        if i1 == 0 {
            return false;
        }
        let i1 = i1 - 1;
        let mut i2: usize = i1;
        while i2 > 0 && self.pending[i2 - 1].action != crate::action::Action::Event
            invariant
                i2 <= i1,
                i1 < n,
                n == self.pending@.len(),
                v == self.pending_views(),
                last_event_below(v, i2 as int) == last_event_below(v, i1 as int),
            decreases i2,
        {
            i2 = i2 - 1;
        }
        if i2 == 0 {
            return false;
        }
        let i2 = i2 - 1;
        self.headline_named(i1) && self.headline_named(i2)
    }

    /// Whether the pending decision at a position names its card first among known choices.
    fn headline_named(&self, i: usize) -> (r: bool)
        requires
            i < self.pending@.len(),
        ensures
            r == headline_ok(self.pending_views()[i as int]),
    {
        match self.pending[i].allowed.try_slice() {
            Some(sl) => sl.len() > 0 && sl[0] < NUM_CARDS,
            None => false,
        }
    }

    /// The priority of a headline: twice its card's operations, and one more for the US.
    fn headline_priority(&self, i: usize) -> (r: i8)
        requires
            i < self.pending@.len(),
            headline_ok(self.pending_views()[i as int]),
        ensures
            r == headline_priority_spec(self.pending_views()[i as int]),
    {
        let d = &self.pending[i];
        let s = d.allowed.try_slice().unwrap();
        let c = Card::from_index(s[0]);
        let bonus: i8 = if d.agent == Side::US { 1 } else { 0 };
        2 * c.base_ops() + bonus
    }

    /// Replaces an empty stack of pending decisions.
    pub fn set_pending(&mut self, pending: Vec<Decision>)
        requires
            old(self).pending_v().len() == 0,
        ensures
            final(self).pending_v() == pending@,
            final(self).same_but_pending(old(self)),
            old(self).wf() ==> final(self).wf(),
    {
        self.pending = pending;
    }

    /// Drops every pending decision.
    pub fn clear_pending(&mut self)
        ensures
            final(self).pending_v().len() == 0,
            final(self).same_but_pending(old(self)),
            old(self).wf() ==> final(self).wf(),
    {
        self.pending.clear();
    }

    /// Whether no decision is pending.
    pub fn empty_pending(&self) -> (r: bool)
        ensures
            r == (self.pending_v().len() == 0),
    {
        self.pending.len() == 0
    }
}

#[verifier::external_type_specification]
#[verifier::external_body]
#[verifier::reject_recursive_types(T)]
#[verifier::reject_recursive_types(N)]
pub struct ExCounter<T: Hash + Eq, N>(Counter<T, N>);

/// The items a counter of indices holds, each as often as it was counted.
pub uninterp spec fn counter_contents(c: Counter<usize, usize>) -> Multiset<usize>;

/// `Counter::new`: a counter that holds nothing.
#[verifier::external_body]
fn counter_new() -> (r: Counter<usize, usize>)
    ensures
        counter_contents(r) == Multiset::<usize>::empty(),
{
    Counter::new()
}

/// `Counter::update` with one item: the item's count goes up by one and no other changes. The
/// count is a `usize` that the update increments.
#[verifier::external_body]
fn counter_add(c: &mut Counter<usize, usize>, item: usize)
    requires
        counter_contents(*old(c)).count(item) < usize::MAX,
    ensures
        counter_contents(*final(c)) == counter_contents(*old(c)).insert(item),
{
    c.update(std::iter::once(item));
}

/// `Counter` indexing: how often an item was counted, zero for one never counted.
#[verifier::external_body]
fn counter_get(c: &Counter<usize, usize>, item: usize) -> (r: usize)
    ensures
        r == counter_contents(*c).count(item),
{
    c[&item]
}

/// The choices made so far for an action, in the order they were made.
pub open spec fn restrict_choices(history: Seq<DecodedChoice>, action: crate::action::Action) -> Seq<usize>
    decreases history.len(),
{
    if history.len() == 0 {
        seq![]
    } else {
        let prev = restrict_choices(history.drop_last(), action);
        let h = history.last();
        if h.action == action && h.choice is Some { prev.push(h.choice->0) } else { prev }
    }
}

/// Whether a choice was made at least `num` times (and at least once) for an action.
pub open spec fn over_limit(history: Seq<DecodedChoice>, action: crate::action::Action, num: usize, x: usize) -> bool {
    let n = restrict_choices(history, action).to_multiset().count(x);
    n > 0 && n >= num
}

/// The choices a list of allowed choices gives in a position: a known list, or the list a
/// lazy rule computes.
pub open(crate) spec fn forced_choices(a: AllowedView, s: GameState) -> Seq<usize> {
    match a {
        AllowedView::Known(v) => v,
        AllowedView::Lazy(f) => crate::card::legal::lazy_spec(f, s),
        AllowedView::Unknown => Seq::empty(),
    }
}

/// The limit of a restriction on repeated choices.
pub open spec fn limit_of(r: Option<Restriction>) -> usize {
    match r {
        Some(Restriction::Limit(num)) => num,
        None => 0,
    }
}

/// Whether a restriction takes effect: some choice for the action has reached the limit.
pub open(crate) spec fn restriction_bites(s: GameState, history: Seq<DecodedChoice>, action: crate::action::Action) -> bool {
    match s.restrict_v() {
        Some(Restriction::Limit(num)) => exists|i: int| 0 <= i < restrict_choices(history, action).len()
            && #[trigger] over_limit(history, action, num, restrict_choices(history, action)[i]),
        None => false,
    }
}

impl GameState {
    /// Applies the restriction on repeated choices to a decision: once some choice has been
    /// made as often as the limit allows, the decision's choices become the listed ones
    /// without those that reached the limit. Returns whether it changed the choices.
    pub fn apply_restriction(&self, history: &[DecodedChoice], decision: &mut Decision) -> (r: bool)
        requires
            self.wf(),
            restriction_bites(*self, history@, old(decision).action) ==> !old(decision).allowed.is_unknown(),
        ensures
            r == restriction_bites(*self, history@, old(decision).action),
            final(decision).agent == old(decision).agent,
            final(decision).action == old(decision).action,
            final(decision).quantity == old(decision).quantity,
            !restriction_bites(*self, history@, old(decision).action) ==> final(decision).allowed@ == old(decision).allowed@,
            restriction_bites(*self, history@, old(decision).action) ==> final(decision).allowed@ == AllowedView::Known(
                forced_choices(old(decision).allowed@, *self).filter(|x: usize|
                    !over_limit(history@, old(decision).action, limit_of(self.restrict_v()), x))),
    {
        if let Some(Restriction::Limit(num)) = self.restrict {
            let action = decision.action;
            let mut counter = counter_new();
            let mut list: Vec<usize> = Vec::new();
            proof {
                broadcast use vstd::seq_lib::to_multiset_len, vstd::multiset::lemma_multiset_empty_len;
                assert(list@.to_multiset().len() == 0);
                assert(list@.to_multiset() =~= Multiset::<usize>::empty());
            }
            let mut k: usize = 0;
            while k < history.len()
                invariant
                    k <= history.len(),
                    list@ == restrict_choices(history@.take(k as int), action),
                    list.len() <= k,
                    counter_contents(counter) == list@.to_multiset(),
                decreases history.len() - k,
            {
                proof {
                    assert(history@.take(k + 1).drop_last() =~= history@.take(k as int));
                    broadcast use vstd::multiset::group_multiset_axioms, vstd::seq_lib::to_multiset_len;
                }
                let h = history[k];
                if h.action == action {
                    if let Some(c) = h.choice {
                        proof {
                            broadcast use vstd::multiset::group_multiset_axioms, vstd::seq_lib::to_multiset_len;
                            assert(list@.to_multiset().count(c) <= list@.to_multiset().len());
                        }
                        counter_add(&mut counter, c);
                        proof {
                            vstd::seq_lib::to_multiset_build(list@, c);
                        }
                        list.push(c);
                    }
                }
                k = k + 1;
            }
            proof { assert(history@.take(history.len() as int) =~= history@); }
            let ghost choices = list@;
            let mut any = false;
            let mut j: usize = 0;
            while j < list.len()
                invariant
                    j <= list.len(),
                    list@ == choices,
                    choices == restrict_choices(history@, action),
                    counter_contents(counter) == choices.to_multiset(),
                    any == exists|i: int| 0 <= i < j && #[trigger] over_limit(history@, action, num, choices[i]),
                decreases list.len() - j,
            {
                let n = counter_get(&counter, list[j]);
                if n >= num && n > 0 {
                    any = true;
                }
                proof {
                    if over_limit(history@, action, num, choices[j as int]) {
                        assert(exists|i: int| 0 <= i < j + 1 && #[trigger] over_limit(history@, action, num, choices[i]));
                    }
                }
                j = j + 1;
            }
            if any {
                let v = decision.allowed.force_slice(self);
                let ghost src = v@;
                let ghost pred = |x: usize| !over_limit(history@, action, num, x);
                let mut out: Vec<usize> = Vec::new();
                let mut t: usize = 0;
                while t < v.len()
                    invariant
                        t <= v.len(),
                        v@ == src,
                        counter_contents(counter) == restrict_choices(history@, action).to_multiset(),
                        pred == (|x: usize| !over_limit(history@, action, num, x)),
                        out@ == src.take(t as int).filter(pred),
                    decreases v.len() - t,
                {
                    proof {
                        reveal_with_fuel(Seq::<_>::filter, 1);
                        assert(src.take(t + 1).drop_last() =~= src.take(t as int));
                    }
                    let n = counter_get(&counter, v[t]);
                    if !(n >= num && n > 0) {
                        out.push(v[t]);
                    }
                    t = t + 1;
                }
                proof { assert(src.take(src.len() as int) =~= src); }
                decision.allowed = Allowed::new_owned(out);
            }
            any
        } else {
            false
        }
    }
}

impl GameState {
    /// Changes a side's influence in a country by `n`.
    pub fn bump(&mut self, side: Side, country: usize, n: i8)
        requires
            old(self).wf(),
            side != Side::Neutral,
            country < NUM_COUNTRIES,
            0 <= influence_spec(old(self).countries_v()[country as int], side) + n <= i8::MAX,
        ensures
            final(self).wf(),
            final(self).countries_v() == old(self).countries_v().update(country as int,
                with_influence(old(self).countries_v()[country as int], side,
                    influence_spec(old(self).countries_v()[country as int], side) + n)),
            final(self).same_but_countries(old(self)),
    {
        let ghost s0 = *self;
        proof { lemma_wf_country(s0, country as int); }
        let mut c = self.countries[country];
        match side {
            Side::US => c.us = c.us + n,
            _ => c.ussr = c.ussr + n,
        }
        self.countries.set(country, c);
        proof { lemma_wf_update(s0, *self, country as int, c); }
    }

    /// The countries of a list that a side does not control, in list order.
    pub fn filter_not_controlled(&self, list: &Vec<usize>, side: Side) -> (r: Vec<usize>)
        requires
            self.wf(),
            forall|j: int| 0 <= j < list@.len() ==> #[trigger] list@[j] < NUM_COUNTRIES,
        ensures
            r@ == list@.filter(|i: usize| controller_spec(self.countries_v()[i as int]) != side),
    {
        let ghost m = self.countries_v();
        let ghost pred = |i: usize| controller_spec(m[i as int]) != side;
        let mut out: Vec<usize> = Vec::new();
        let mut k: usize = 0;
        while k < list.len()
            invariant
                k <= list.len(),
                self.wf(),
                m == self.countries_v(),
                pred == (|i: usize| controller_spec(m[i as int]) != side),
                forall|j: int| 0 <= j < list@.len() ==> #[trigger] list@[j] < NUM_COUNTRIES,
                out@ == list@.take(k as int).filter(pred),
            decreases list.len() - k,
        {
            proof {
                reveal_with_fuel(Seq::<_>::filter, 1);
                assert(list@.take(k + 1).drop_last() =~= list@.take(k as int));
                lemma_wf_country(*self, list@[k as int] as int);
            }
            let i = list[k];
            if self.countries[i].controller() != side {
                out.push(i);
            }
            k = k + 1;
        }
        proof { assert(list@.take(list.len() as int) =~= list@); }
        out
    }
}

/// The map indices from `lo` up to but not including `hi`.
pub fn index_range(lo: usize, hi: usize) -> (r: Vec<usize>)
    requires
        lo <= hi,
    ensures
        r@ == Seq::new((hi - lo) as nat, |i: int| (lo + i) as usize),
{
    let mut v: Vec<usize> = Vec::new();
    let mut i = lo;
    while i < hi
        invariant
            lo <= i <= hi,
            v@ == Seq::new((i - lo) as nat, |j: int| (lo + j) as usize),
        decreases hi - i,
    {
        proof {
            assert(Seq::new((i + 1 - lo) as nat, |j: int| (lo + j) as usize)
                =~= Seq::new((i - lo) as nat, |j: int| (lo + j) as usize).push(i));
        }
        v.push(i);
        i = i + 1;
    }
    v
}

} // verus!
