use vstd::prelude::*;
use crate::action::{Action, Allowed, AllowedView, Decision};
use crate::action::flow::{dview_opt, next_decision_spec};
use crate::card::{card_att, card_index, card_of, Card, Effect, NUM_CARDS};
use crate::card::event::{event_fits, event_side, special_fits, vp_room};
use crate::card::rules::{can_event_spec, influence_quantity_spec};
use crate::country::{
    cname_index, influence_spec, lemma_cname_index_inverse, opposite_spec, region_has, side_index,
    CName, Region, Side, NUM_COUNTRIES,
};
use crate::state::{
    add_cost, lemma_wf_country, clamp_defcon, coup_delta, coup_fits, coup_mil_ops, coup_result, dview, period_spec, realign_result,
    realign_totals, space_vp, war_flip_spec, war_wins, with_influence, GameState, TwilightRand,
};
use crate::card::board::{board, board_kept, bumped, event_board, simple_board, space_board, special_board, without};
use crate::tensor::DecodedChoice;

verus! {

/// Whether the event of a card can be played whatever the victory points lost to We Will
/// Bury You and Flower Power before it: its requirements hold for every total down to five
/// below the current one.
pub open(crate) spec fn event_robust(c: Card, s: GameState, side: Side) -> bool {
    forall|v: i8| s.vp_v() - 5 <= v <= s.vp_v() ==> #[trigger] event_fits(c, s.with_vp(v), side)
}

/// What an event asks of the randomness, whatever the hands look like when it resolves: die
/// rolls, and a source that can always pick a card where the event takes a random card.
pub open(crate) spec fn rng_robust<R: TwilightRand>(c: Card, rng: R) -> bool {
    match c {
        Card::Korean_War | Card::Arab_Israeli_War => rng.can_roll(Side::USSR),
        Card::Summit => rng.can_roll(Side::USSR) && rng.can_roll(Side::US),
        Card::Five_Year_Plan | Card::Grain_Sales | Card::Terrorism => rng.picks_freely(),
        _ => true,
    }
}

/// The side whose event a card is, as resolving it sees it: its own, or the phasing side.
pub open(crate) spec fn played_side(c: Card, s: GameState) -> Side {
    if card_att(c).side == Side::Neutral { s.side_v() } else { card_att(c).side }
}

/// Whether a card can be played out of a side's hand: the China Card is held by someone.
pub open(crate) spec fn card_ok(s: GameState, c: usize) -> bool {
    c < NUM_CARDS && (c == card_index(Card::The_China_Card) ==> s.deck_v().china_holder() != Side::Neutral)
}

/// Whether every coup of the given operations, for every die roll, stays within `i8`.
pub open(crate) spec fn coup_fits_all(s: GameState, side: Side, c: usize, ops: i8, free: bool) -> bool {
    forall|roll: i8| 1 <= roll <= 6 ==> #[trigger] coup_fits(s, side, c, ops, roll, free)
}

/// Whether every realignment roll-off stays within `i8`.
pub open(crate) spec fn realign_fits_all(s: GameState, c: usize) -> bool {
    forall|us: i8, ussr: i8| 1 <= us <= 6 && 1 <= ussr <= 6 ==> {
        let t = #[trigger] realign_totals(s, c, us, ussr);
        &&& t.0 <= i8::MAX
        &&& t.1 <= i8::MAX
        &&& t.0 - t.1 <= i8::MAX
        &&& t.1 - t.0 <= i8::MAX
    }
}

/// The side that places influence: the side of the resolving event's card, or the agent.
pub open(crate) spec fn place_side(s: GameState, agent: Side) -> Side {
    match s.event_v() {
        Some(card) => if card_att(card).side == Side::Neutral { agent } else { card_att(card).side },
        None => agent,
    }
}

/// How many influence one placement puts in.
pub open(crate) spec fn place_quantity(s: GameState, action: Action, c: usize) -> i8 {
    match s.event_v() {
        Some(card) => influence_quantity_spec(card, s, action, c),
        None => 1,
    }
}

/// Whether a choice of a decision can be resolved: the choice fits the kind of action, the
/// counters stay within `i8` whatever the dice show, the randomness can supply what the
/// action asks of it, and what the original leaves undefined is not asked for.
pub open(crate) spec fn resolve_fits<R: TwilightRand>(d: (Side, Action, AllowedView, i8), choice: Option<usize>, s: GameState, rng: R) -> bool {
    let (agent, action, allowed, q) = d;
    match choice {
        None => action != Action::Event,
        Some(c) => {
            &&& s.wf()
            &&& agent != Side::Neutral
            &&& !(allowed is Unknown)
            &&& q > i8::MIN + 3
            &&& (agent == Side::US && s.effects_v(Side::US).contains(Effect::WWBY)
                && !(action == Action::Event && c == card_index(Card::UN_Intervention)) ==> s.vp_v() - 3 >= i8::MIN)
            &&& match action {
                Action::EventOps | Action::OpsEvent => card_ok(s, c),
                Action::Ops => card_ok(s, c) && s.vp_v() - 5 >= i8::MIN,
                Action::Event => {
                    let card = card_of(c);
                    &&& card_ok(s, c)
                    &&& card != Card::OPEC && card != Card::Brezhnev_Doctrine && card != Card::Our_Man_In_Tehran && card != Card::Dummy
                    &&& s.vp_v() - 5 >= i8::MIN
                    &&& card != Card::The_China_Card ==> event_robust(card, s, played_side(card, s)) && rng_robust(card, rng)
                },
                Action::SpecialEvent => {
                    &&& s.event_v() is Some
                    &&& s.event_v()->0 != Card::OPEC
                    &&& forall|v: i8| s.vp_v() - 3 <= v <= s.vp_v() ==> #[trigger] special_fits(s.event_v()->0,
                        s.with_vp(v), event_side(s.event_v()->0, s), c)
                },
                Action::Space => card_ok(s, c) && rng.can_roll(agent)
                    && s.space_v()[side_index(agent) as int] < 8 && s.attempts_v()[side_index(agent) as int] < i8::MAX
                    && vp_room(s, space_vp(s, agent)) && vp_room(s, space_vp(s, agent) - 3),
                Action::Discard => card_ok(s, c)
                    && (agent == Side::US && s.effects_v(Side::US).contains(Effect::Quagmire) ==> rng.can_roll(Side::US))
                    && (agent == Side::USSR && s.effects_v(Side::USSR).contains(Effect::BearTrap) ==> rng.can_roll(Side::USSR)),
                Action::Coup => c < NUM_COUNTRIES && rng.can_roll(agent)
                    && coup_fits_all(s, agent, c, q, s.event_v() == Some(Card::Junta))
                    && coup_fits_all(s, agent, c, (q - 1) as i8, s.event_v() == Some(Card::Junta)),
                Action::Place => c < NUM_COUNTRIES
                    && influence_spec(s.countries_v()[c as int], place_side(s, agent)) + place_quantity(s, action, c) <= i8::MAX,
                Action::Influence => c < NUM_COUNTRIES && influence_spec(s.countries_v()[c as int], agent) < i8::MAX
                    && allowed is Known && forall|i: int| 0 <= i < allowed->Known_0.len() ==> #[trigger] allowed->Known_0[i] < NUM_COUNTRIES,
                Action::Remove => c < NUM_COUNTRIES && s.event_v() is Some,
                Action::War => c < NUM_COUNTRIES && s.event_v() is Some && rng.can_roll(agent)
                    && s.countries_v()[c as int].us + s.countries_v()[c as int].ussr <= i8::MAX,
                Action::Realignment => c < NUM_COUNTRIES && rng.can_roll(Side::US) && rng.can_roll(Side::USSR)
                    && realign_fits_all(s, c),
                Action::CubanMissile => s.effects_v(agent).contains(Effect::CubanMissileCrisis)
                    && (c == 0 ==> s.countries_v()[cname_index(CName::Cuba) as int].ussr >= 2)
                    && (c == 1 ==> s.countries_v()[cname_index(CName::WGermany) as int].us >= 2)
                    && (c > 1 ==> s.countries_v()[cname_index(CName::Turkey) as int].us >= 2),
                Action::RecoverCard => c < NUM_CARDS,
                Action::ChooseCard => (s.event_v() == Some(Card::Missile_Envy) && card_ok(s, c)
                    && card_att(card_of(c)).side != agent) || s.event_v() == Some(Card::Grain_Sales),
                Action::ChangeDefcon => true,
                _ => false,
            }
        },
    }
}

/// Whether Flower Power costs the US two points for a war card it plays: the card's event
/// could be played.
pub open(crate) spec fn flower_costs(card: Card, side: Side, s: GameState) -> bool {
    &&& crate::card::is_war_spec(card)
    &&& side == Side::US
    &&& can_event_spec(card, s, side)
    &&& s.effects_v(Side::USSR).contains(Effect::FlowerPower)
}

/// The board when a card is played for its event, before the event: the card is discarded,
/// which leaves the board alone, and Flower Power may take two points from the US for a war
/// card.
pub open(crate) spec fn before_event(s0: GameState, t: GameState, card: Card, side: Side) -> bool {
    &&& (t.vp_v() == s0.vp_v() || (t.vp_v() == s0.vp_v() - 2 && side == Side::US && crate::card::is_war_spec(card)
        && s0.effects_v(Side::USSR).contains(Effect::FlowerPower)))
    &&& board(t, s0.countries_v(), t.vp_v() as int, s0.defcon_v() as int, s0.mil_ops_v()@, s0.space_v()@,
        s0.attempts_v()@, s0.effects_v(Side::US), s0.effects_v(Side::USSR))
    &&& t.turn_v() == s0.turn_v()
    &&& t.ar_v() == s0.ar_v()
    &&& t.side_v() == s0.side_v()
    &&& t.event_v() == Some(card)
}

/// The board after a coup of a side in a country with some operations and roll: the
/// country changes as the coup says, a battleground lowers DEFCON, and military operations
/// count unless the coup is free, as one for Junta is.
pub open(crate) spec fn coup_board(s0: GameState, s1: GameState, side: Side, c: usize, ops: i8, roll: i8) -> bool {
    let free = s0.event_v() == Some(Card::Junta);
    let m = s0.countries_v();
    let k = side_index(side) as int;
    board(s1, m.update(c as int, coup_result(m[c as int], side, coup_delta(m[c as int], ops, roll))), s0.vp_v() as int,
        if m[c as int].bg { clamp_defcon(s0.defcon_v() - 1) as int } else { s0.defcon_v() as int },
        if free { s0.mil_ops_v()@ } else { s0.mil_ops_v()@.update(k, coup_mil_ops(s0.mil_ops_v()[k], ops)) },
        s0.space_v()@, s0.attempts_v()@, s0.effects_v(Side::US), s0.effects_v(Side::USSR))
}

/// The operations of a coup: one fewer outside Asia when they came from the China Card.
pub open(crate) spec fn coup_ops(s: GameState, c: usize, q: i8) -> i8 {
    if s.china_v() && !region_has(Region::Asia, c as int) { (q - 1) as i8 } else { q }
}

/// The board after a war of a side in a country with a roll: a won war flips the country.
pub open(crate) spec fn war_roll_board(s0: GameState, s1: GameState, side: Side, c: usize, roll: i8) -> bool {
    let m = s0.countries_v();
    simple_board(s0, s1, if war_wins(s0, side, c, roll) { m.update(c as int, war_flip_spec(m[c as int], side)) } else { m },
        s0.vp_v() as int, s0.defcon_v() as int, side, None)
}

/// The board after a realignment roll-off in a country.
pub open(crate) spec fn realign_board(s0: GameState, s1: GameState, c: usize, us_roll: i8, ussr_roll: i8) -> bool {
    let m = s0.countries_v();
    let t = realign_totals(s0, c, us_roll, ussr_roll);
    simple_board(s0, s1, m.update(c as int, realign_result(m[c as int], t.0, t.1)), s0.vp_v() as int,
        s0.defcon_v() as int, Side::US, None)
}

/// What the answer `c` to a decision does to the board, from `s0` to `s1`, once We Will Bury
/// You is settled. Playing a card for operations and its event, or recovering a card, leaves
/// the board (operations and events go on the stack); operations may cost the US two points
/// to Flower Power; an event changes the board as the event does; an option of a special event
/// as the option does. A space race attempt, a coup, a war and a realignment change it as their
/// dice say; discarding under Quagmire or the Bear Trap may end it. Placing and adding influence
/// put it in; removing takes it out as the resolving event says; resolving the Cuban Missile
/// Crisis takes two influence from the chosen country and ends the crisis for the side; Missile
/// Envy files its effect; DEFCON changes to the chosen level.
pub open(crate) spec fn answer_board(d: (Side, Action, AllowedView, i8), c: usize, s0: GameState, s1: GameState) -> bool {
    let side = d.0;
    let m = s0.countries_v();
    let vp = s0.vp_v() as int;
    let dc = s0.defcon_v() as int;
    let us = s0.effects_v(Side::US);
    let ussr = s0.effects_v(Side::USSR);
    match d.1 {
        Action::EventOps | Action::OpsEvent | Action::RecoverCard => board_kept(s0, s1),
        Action::Ops => simple_board(s0, s1, m, if flower_costs(card_of(c), side, s0) { vp - 2 } else { vp }, dc, side, None),
        Action::Event => exists|t: GameState, u: GameState| #![trigger before_event(s0, t, card_of(c), side), board_kept(u, s1)]
            before_event(s0, t, card_of(c), side)
            && (event_board(card_of(c), t, u, event_side(card_of(c), t)) || board_kept(t, u)) && board_kept(u, s1),
        Action::SpecialEvent => match s0.event_v() {
            Some(e) => if can_event_spec(e, s0, event_side(e, s0)) {
                special_board(e, s0, s1, event_side(e, s0), c)
            } else {
                board_kept(s0, s1)
            },
            None => board_kept(s0, s1),
        },
        Action::Space => exists|roll: i8| 1 <= roll <= 6 && #[trigger] space_board(s0, s1, side, s0.space_v()@, roll, space_vp(s0, side)),
        Action::Discard => {
            let e = if side == Side::US { Effect::Quagmire } else { Effect::BearTrap };
            ||| board_kept(s0, s1)
            ||| s0.effects_v(side).contains(e) && board(s1, m, vp, dc, s0.mil_ops_v()@, s0.space_v()@, s0.attempts_v()@,
                if side == Side::US { without(us, e) } else { us }, if side == Side::US { ussr } else { without(ussr, e) })
        },
        Action::Coup => exists|roll: i8| 1 <= roll <= 6 && #[trigger] coup_board(s0, s1, side, c,
            coup_ops(s0, c, d.3), roll),
        Action::War => exists|roll: i8| 1 <= roll <= 6 && #[trigger] war_roll_board(s0, s1, side, c, roll),
        Action::Realignment => exists|us_roll: i8, ussr_roll: i8| 1 <= us_roll <= 6 && 1 <= ussr_roll <= 6
            && #[trigger] realign_board(s0, s1, c, us_roll, ussr_roll),
        Action::Place => {
            let to = place_side(s0, side);
            let q = place_quantity(s0, Action::Place, c);
            simple_board(s0, s1, if q > 0 { m.update(c as int, with_influence(m[c as int], to, influence_spec(m[c as int], to) + q)) } else { m },
                vp, dc, side, None)
        },
        Action::Influence => simple_board(s0, s1, m.update(c as int, with_influence(m[c as int], side, influence_spec(m[c as int], side) + 1)),
            vp, dc, side, None),
        Action::Remove => {
            let (rs, rq) = crate::card::remove_quantity_spec(s0.event_v()->0, side, m[c as int], period_spec(s0.turn_v()));
            simple_board(s0, s1, m.update(c as int, with_influence(m[c as int], rs, influence_spec(m[c as int], rs) - rq)),
                vp, dc, side, None)
        },
        Action::CubanMissile => {
            let (n, who) = if c == 0 { (CName::Cuba, Side::USSR) } else if c == 1 { (CName::WGermany, Side::US) } else { (CName::Turkey, Side::US) };
            board(s1, bumped(m, who, n, -2), vp, dc, s0.mil_ops_v()@, s0.space_v()@, s0.attempts_v()@,
                if side == Side::US { without(us, Effect::CubanMissileCrisis) } else { us },
                if side == Side::US { ussr } else { without(ussr, Effect::CubanMissileCrisis) })
        },
        Action::ChooseCard => if s0.event_v() == Some(Card::Missile_Envy) {
            simple_board(s0, s1, m, vp, dc, side, Some(Effect::MissileEnvy))
        } else {
            board_kept(s0, s1)
        },
        Action::ChangeDefcon => simple_board(s0, s1, m, vp, clamp_defcon((c as i8) as int) as int, side, None),
        _ => true,
    }
}

/// The quantity left on a decision after one choice is resolved and before the next step: a
/// coup uses up all operations, and influence pays for breaking control and spends the
/// bonus operation of the China Card (outside Asia) or Vietnam Revolts (outside Southeast
/// Asia).
pub open(crate) spec fn resolved_quantity(d: (Side, Action, AllowedView, i8), c: usize, s: GameState) -> i8 {
    let (agent, action, allowed, q) = d;
    if action == Action::Coup {
        1
    } else if action == Action::Influence {
        let a: int = if s.china_v() && !region_has(Region::Asia, c as int) { 1 } else { 0 };
        let b: int = if s.vietnam_v() && !region_has(Region::SoutheastAsia, c as int) { 1 } else { 0 };
        let k: int = if add_cost(s.countries_v()[c as int], agent) == 2 { 1 } else { 0 };
        (q - a - b - k) as i8
    } else {
        q
    }
}

/// The We Will Bury You step before the US answers a decision: where the effect is in play,
/// it leaves play and the USSR gains three points, unless the answer plays UN Intervention
/// for its event; every other answer, and every USSR answer, leaves the position as it is.
pub open(crate) spec fn wwby_step(s0: GameState, s1: GameState, side: Side, action: Action, c: usize) -> bool {
    let safe = action == Action::Event && c == card_index(Card::UN_Intervention);
    if side == Side::US && s0.effects_v(Side::US).contains(Effect::WWBY) {
        &&& s1.same_but_effects(&s0.with_vp(s1.vp_v()))
        &&& s1.vp_v() == if safe { s0.vp_v() as int } else { s0.vp_v() - 3 }
        &&& s1.effects_v(Side::US) == without(s0.effects_v(Side::US), Effect::WWBY)
        &&& s1.effects_v(Side::USSR) == s0.effects_v(Side::USSR)
    } else {
        s1 == s0
    }
}

/// What answering `c` to a decision does to the board from `s0` to `s1`: the We Will Bury
/// You step, then the answer as `answer_board` says.
pub open(crate) spec fn answer_taken(s0: GameState, d: (Side, Action, AllowedView, i8), c: usize, s1: GameState) -> bool {
    exists|sw: GameState| #[trigger] wwby_step(s0, sw, d.0, d.1, c) && answer_board(d, c, sw, s1)
}

/// A position after the We Will Bury You step: the points may have dropped by three and the
/// effect may be gone, nothing else changed.
pub open(crate) spec fn after_wwby(s0: GameState, s1: GameState) -> bool {
    &&& s1.wf()
    &&& s1.same_but_effects(&s0.with_vp(s1.vp_v()))
    &&& s0.vp_v() - 3 <= s1.vp_v() <= s0.vp_v()
    &&& s1.effects_v(Side::USSR) == s0.effects_v(Side::USSR)
    &&& forall|e: Effect| e != Effect::WWBY ==> (#[trigger] s1.effects_v(Side::US).contains(e) <==> s0.effects_v(Side::US).contains(e))
}

/// The requirements of an event read nothing of a position but the map, the effects other
/// than We Will Bury You, the China Card's holder and the counters.
pub proof fn lemma_event_fits_transfer(c: Card, s: GameState, t: GameState, side: Side)
    requires
        t.countries_v() == s.countries_v(),
        forall|e: Effect| e != Effect::WWBY ==> (#[trigger] t.effects_v(Side::US).contains(e) <==> s.effects_v(Side::US).contains(e)),
        t.effects_v(Side::USSR) == s.effects_v(Side::USSR),
        t.deck_v().china_holder() == s.deck_v().china_holder(),
        t.vp_v() == s.vp_v(),
        t.defcon_v() == s.defcon_v(),
        t.mil_ops_v() == s.mil_ops_v(),
        t.space_v() == s.space_v(),
        t.attempts_v() == s.attempts_v(),
        t.turn_v() == s.turn_v(),
        t.ar_v() == s.ar_v(),
        t.side_v() == s.side_v(),
    ensures
        event_fits(c, t, side) == event_fits(c, s, side),
{
    assert(t.effects_v(Side::US).contains(Effect::ShuttleDiplomacy) == s.effects_v(Side::US).contains(Effect::ShuttleDiplomacy));
    assert(t.effects_v(Side::US).contains(Effect::FormosanResolution) == s.effects_v(Side::US).contains(Effect::FormosanResolution));
    assert(crate::card::event::alliance_count(t) == crate::card::event::alliance_count(s));
    assert(crate::card::event::small_step_vp(t, side) == crate::card::event::small_step_vp(s, side));
    assert(space_vp(t, side) == space_vp(s, side));
    assert forall|r: Region| #[trigger] crate::country::scoring::score_outcome(r, t) == crate::country::scoring::score_outcome(r, s) by {
        assert(crate::country::scoring::adjusted_tally(r, t, t.turn_v() <= 10) == crate::country::scoring::adjusted_tally(r, s, s.turn_v() <= 10));
        assert(crate::country::scoring::adjacency_points(r, t) == crate::country::scoring::adjacency_points(r, s));
    }
}

impl GameState {
    /// Resolves playing a card: for operations with its event before or after, for
    /// operations, for its event, or one option of a special event.
    fn resolve_card<R: TwilightRand>(&mut self, decision: &Decision, choice: usize, rng: &mut R, Ghost(s0): Ghost<GameState>)
        requires
            resolve_fits(dview(*decision), Some(choice), s0, *old(rng)),
            after_wwby(s0, *old(self)),
            decision.action == Action::EventOps || decision.action == Action::OpsEvent || decision.action == Action::Ops
                || decision.action == Action::Event || decision.action == Action::SpecialEvent,
        ensures
            final(self).wf(),
            answer_board(dview(*decision), choice, *old(self), *final(self)),
            final(self).turn_v() == old(self).turn_v(),
            final(self).ar_v() == old(self).ar_v(),
    {
        let side = decision.agent;
        match decision.action {
            Action::EventOps => {
                let card = Card::from_index(choice);
                let ops = card.modified_ops(side, self);
                let conduct = Decision::conduct_ops(side, ops);
                let event = Decision::new_event(side, card);
                self.add_pending(conduct);
                self.add_pending(event);
                self.discard_card(side, card);
            },
            Action::OpsEvent => {
                let card = Card::from_index(choice);
                let ops = card.modified_ops(side, self);
                let conduct = Decision::conduct_ops(side, ops);
                let event = Decision::new_event(side, card);
                self.add_pending(event);
                self.add_pending(conduct);
                if card == Card::The_China_Card {
                    self.china = true;
                }
                self.discard_card(side, card);
            },
            Action::Ops => {
                let card = Card::from_index(choice);
                let mut ops = card.modified_ops(side, self);
                if card == Card::The_China_Card {
                    ops = ops + 1;
                    self.china = true;
                } else if card.is_war() && side == Side::US && card.can_event(self, side)
                    && self.has_effect(Side::USSR, Effect::FlowerPower) {
                    self.vp = self.vp - 2;
                }
                self.add_pending(Decision::conduct_ops(side, ops));
                self.discard_card(side, card);
            },
            Action::Event => {
                let card = Card::from_index(choice);
                self.current_event = Some(card);
                self.discard_card(side, card);
                if card.is_war() && side == Side::US && card.can_event(self, side)
                    && self.has_effect(Side::USSR, Effect::FlowerPower) {
                    self.vp = self.vp - 2;
                }
                proof {
                    if card != Card::The_China_Card {
                        let v = self.vp_v();
                        assert(event_fits(card, s0.with_vp(v), played_side(card, s0)));
                        assert forall|e: Effect| e != Effect::WWBY implies (#[trigger] self.effects_v(Side::US).contains(e)
                            <==> s0.with_vp(v).effects_v(Side::US).contains(e)) by {
                            assert(self.effects_v(Side::US) == old(self).effects_v(Side::US));
                            assert(old(self).effects_v(Side::US).contains(e) <==> s0.effects_v(Side::US).contains(e));
                        }
                        lemma_event_fits_transfer(card, s0.with_vp(v), *self, played_side(card, s0));
                        if (*rng).picks_freely() {
                            (*rng).lemma_picks_freely(self.deck_v(), Side::USSR);
                            (*rng).lemma_picks_freely(self.deck_v(), Side::US);
                        }
                    }
                }
                let ghost t = *self;
                let fired = card.event(self, rng);
                let ghost u = *self;
                if fired && card.is_starred() {
                    self.deck.remove_card(card);
                }
                proof {
                    assert(before_event(*old(self), t, card, side));
                    assert(board_kept(u, *self));
                }
            },
            _ => {
                let card = self.current_event.unwrap();
                proof {
                    let v = self.vp_v();
                    assert(special_fits(card, s0.with_vp(v), event_side(card, s0), choice));
                }
                card.special_event(self, choice, rng);
            },
        }
    }
}

impl GameState {
    /// Resolves the actions that roll dice: the space race, a discard under Quagmire or Bear
    /// Trap, a coup, a war and a realignment.
    fn resolve_dice<R: TwilightRand>(&mut self, decision: &mut Decision, choice: usize, rng: &mut R, Ghost(s0): Ghost<GameState>)
        requires
            resolve_fits(dview(*old(decision)), Some(choice), s0, *old(rng)),
            after_wwby(s0, *old(self)),
            old(decision).action == Action::Space || old(decision).action == Action::Discard || old(decision).action == Action::Coup
                || old(decision).action == Action::War || old(decision).action == Action::Realignment,
            old(self).china_v() == s0.china_v(),
        ensures
            final(self).wf(),
            answer_board(dview(*old(decision)), choice, *old(self), *final(self)),
            final(self).turn_v() == old(self).turn_v(),
            final(self).ar_v() == old(self).ar_v(),
            final(decision).agent == old(decision).agent,
            final(decision).action == old(decision).action,
            final(decision).allowed@ == old(decision).allowed@,
            final(decision).quantity == resolved_quantity(dview(*old(decision)), choice, s0),
    {
        let side = decision.agent;
        match decision.action {
            Action::Space => {
                let card = Card::from_index(choice);
                let roll = rng.roll(side);
                self.space_card(side, roll);
                self.discard_card(side, card);
                proof {
                    assert(space_board(*old(self), *self, side, old(self).space_v()@, roll, space_vp(*old(self), side)));
                }
            },
            Action::Discard => {
                let card = Card::from_index(choice);
                if side == Side::US {
                    if let Some(index) = self.effect_pos(side, Effect::Quagmire) {
                        proof {
                            assert(self.effects_v(Side::US)[index as int] == Effect::Quagmire);
                            assert(old(self).effects_v(Side::US).contains(Effect::Quagmire));
                            assert(s0.effects_v(Side::US).contains(Effect::Quagmire));
                        }
                        let roll = rng.roll(side);
                        if roll <= 4 {
                            self.clear_effect(side, index);
                            proof { crate::country::scoring::lemma_first_pos(old(self).effects_v(Side::US), Effect::Quagmire, index as int); }
                        }
                    }
                } else {
                    if let Some(index) = self.effect_pos(side, Effect::BearTrap) {
                        proof {
                            assert(side == Side::USSR);
                            assert(self.effects_v(Side::USSR)[index as int] == Effect::BearTrap);
                            assert(s0.effects_v(Side::USSR).contains(Effect::BearTrap));
                        }
                        let roll = rng.roll(side);
                        if roll <= 4 {
                            self.clear_effect(side, index);
                            proof { crate::country::scoring::lemma_first_pos(old(self).effects_v(Side::USSR), Effect::BearTrap, index as int); }
                        }
                    }
                }
                self.discard_card(side, card);
            },
            Action::Coup => {
                let free_coup = match self.current_event {
                    Some(Card::Junta) => true,
                    _ => false,
                };
                let roll = rng.roll(side);
                let mut ops = decision.quantity;
                if self.china && !Region::Asia.has_country(choice) {
                    ops = ops - 1;
                    self.china = false;
                }
                proof { assert(coup_fits(s0, side, choice, ops, roll, free_coup)); }
                self.take_coup(side, choice, ops, roll, free_coup);
                decision.quantity = 1;
                proof { assert(coup_board(*old(self), *self, side, choice, coup_ops(*old(self), choice, old(decision).quantity), roll)); }
            },
            Action::War => {
                let _event = self.current_event.unwrap();
                let roll = rng.roll(side);
                self.war_target(side, choice, roll);
                proof { assert(war_roll_board(*old(self), *self, side, choice, roll)); }
            },
            _ => {
                let ussr_roll = rng.roll(Side::USSR);
                let us_roll = rng.roll(Side::US);
                proof {
                    let t = realign_totals(s0, choice, us_roll, ussr_roll);
                    assert(realign_totals(*self, choice, us_roll, ussr_roll) == t);
                }
                self.take_realign(choice, us_roll, ussr_roll);
                proof { assert(realign_board(*old(self), *self, choice, us_roll, ussr_roll)); }
            },
        }
    }

    /// Resolves the actions on the board and the deck that roll no dice.
    fn resolve_board<R: TwilightRand>(&mut self, decision: &mut Decision, choice: usize, Ghost(s0): Ghost<GameState>, Ghost(rng0): Ghost<R>)
        requires
            resolve_fits(dview(*old(decision)), Some(choice), s0, rng0),
            after_wwby(s0, *old(self)),
            old(decision).action == Action::Place || old(decision).action == Action::Influence || old(decision).action == Action::Remove
                || old(decision).action == Action::CubanMissile || old(decision).action == Action::RecoverCard
                || old(decision).action == Action::ChooseCard || old(decision).action == Action::ChangeDefcon,
        ensures
            final(self).wf(),
            answer_board(dview(*old(decision)), choice, *old(self), *final(self)),
            final(self).event_v() == old(self).event_v(),
            final(self).turn_v() == old(self).turn_v(),
            final(self).ar_v() == old(self).ar_v(),
            final(decision).agent == old(decision).agent,
            final(decision).action == old(decision).action,
            final(decision).allowed@ == old(decision).allowed@,
            final(decision).quantity == resolved_quantity(dview(*old(decision)), choice, s0),
    {
        let ghost s_in = *self;
        let ghost dv = dview(*decision);
        let side = decision.agent;
        match decision.action {
            Action::Place => {
                let (q, to) = match self.current_event {
                    Some(card) => {
                        let q = card.influence_quantity(self, &Action::Place, choice);
                        let to = match card.side() {
                            Side::US => Side::US,
                            Side::USSR => Side::USSR,
                            Side::Neutral => side,
                        };
                        (q, to)
                    },
                    None => (1i8, side),
                };
                let ghost start = influence_spec(self.countries_v()[choice as int], to);
                let mut k: i8 = 0;
                while k < q
                    invariant
                        0 <= k,
                        k <= q || k == 0,
                        self.wf(),
                        to != Side::Neutral,
                        choice < NUM_COUNTRIES,
                        start + q <= i8::MAX,
                        s_in.wf(),
                        start == influence_spec(s_in.countries_v()[choice as int], to),
                        influence_spec(self.countries_v()[choice as int], to) == start + k,
                        self.countries_v() == s_in.countries_v().update(choice as int,
                            with_influence(s_in.countries_v()[choice as int], to, start + k)),
                        self.vp_v() == s_in.vp_v(),
                        self.defcon_v() == s_in.defcon_v(),
                        self.mil_ops_v() == s_in.mil_ops_v(),
                        self.space_v() == s_in.space_v(),
                        self.attempts_v() == s_in.attempts_v(),
                        self.effects_v(Side::US) == s_in.effects_v(Side::US),
                        self.effects_v(Side::USSR) == s_in.effects_v(Side::USSR),
                        self.event_v() == old(self).event_v(),
                        self.turn_v() == old(self).turn_v(),
                        self.ar_v() == old(self).ar_v(),
                    decreases q - k,
                {
                    let ghost before = self.countries_v();
                    let ghost k0 = k;
                    self.add_influence(to, choice);
                    k = k + 1;
                    proof {
                        let x = s_in.countries_v()[choice as int];
                        lemma_wf_country(s_in, choice as int);
                        assert(before[choice as int] == with_influence(x, to, start + k0));
                        assert(influence_spec(before[choice as int], to) == start + k0);
                        assert(with_influence(before[choice as int], to, start + k0 + 1) == with_influence(x, to, start + k));
                        assert(self.countries_v() =~= s_in.countries_v().update(choice as int,
                            with_influence(s_in.countries_v()[choice as int], to, start + k)));
                    }
                }
                proof {
                    assert(with_influence(s_in.countries_v()[choice as int], to, start as int) == s_in.countries_v()[choice as int]);
                    assert(to == place_side(s_in, side));
                    assert(q == place_quantity(s_in, Action::Place, choice));
                    if q <= 0 {
                        assert(self.countries_v() =~= s_in.countries_v());
                    }
                }
            },
            Action::Influence => {
                let cost = self.add_influence(side, choice);
                if self.china && !Region::Asia.has_country(choice) {
                    decision.quantity = decision.quantity - 1;
                    self.china = false;
                }
                if self.vietnam && !Region::SoutheastAsia.has_country(choice) {
                    decision.quantity = decision.quantity - 1;
                    self.vietnam = false;
                }
                if cost == 2 {
                    decision.quantity = decision.quantity - 1;
                }
            },
            Action::Remove => {
                let event = self.current_event.unwrap();
                let period = self.period();
                let (rs, rq) = event.remove_quantity(side, &self.countries[choice], period);
                self.remove_influence(rs, choice, rq);
            },
            Action::CubanMissile => {
                let index = self.effect_pos(side, Effect::CubanMissileCrisis).unwrap();
                self.clear_effect(side, index);
                proof {
                    lemma_cname_index_inverse(CName::Cuba);
                    lemma_cname_index_inverse(CName::WGermany);
                    lemma_cname_index_inverse(CName::Turkey);
                }
                if choice == 0 {
                    self.remove_influence(Side::USSR, CName::Cuba.index(), 2);
                } else if choice == 1 {
                    self.remove_influence(Side::US, CName::WGermany.index(), 2);
                } else {
                    self.remove_influence(Side::US, CName::Turkey.index(), 2);
                }
            },
            Action::RecoverCard => {
                self.deck.recover_card(side, Card::from_index(choice));
            },
            Action::ChooseCard => {
                let event = self.current_event.unwrap();
                match event {
                    Card::Missile_Envy => {
                        let chosen = Card::from_index(choice);
                        self.discard_card(side, chosen);
                        let opp = side.opposite();
                        if chosen.side() == side {
                            let ops = chosen.modified_ops(opp, self);
                            self.add_pending(Decision::conduct_ops(opp, ops));
                        } else {
                            self.add_pending(Decision::new_event(opp, chosen));
                        }
                        self.add_effect(side, Effect::MissileEnvy);
                    },
                    _ => {
                        let ops = 2 + self.base_ops_offset(Side::US);
                        self.add_pending(Decision::conduct_ops(Side::US, ops));
                    },
                }
            },
            _ => {
                #[verifier::truncate]
                let level = choice as i8;
                self.set_defcon(level);
            },
        }
    }

    /// Resolves one choice of a decision and returns the decision that follows from it, if
    /// any. Without a choice, ending an action round clears the history of the ply and
    /// clearing an event clears it; anything else passes.
    pub fn resolve_action<R: TwilightRand>(&mut self, decision: Decision, choice: Option<usize>,
        history: &mut Vec<DecodedChoice>, rng: &mut R) -> (r: Option<Decision>)
        requires
            resolve_fits(dview(decision), choice, *old(self), *old(rng)),
        ensures
            choice is None ==> {
                &&& r is None
                &&& decision.action == Action::EndAr ==> final(history)@.len() == 0 && *final(self) == *old(self)
                &&& decision.action == Action::ClearEvent ==> *final(self) == old(self).with_event(None) && final(history)@ == old(history)@
                &&& decision.action != Action::EndAr && decision.action != Action::ClearEvent ==> *final(self) == *old(self) && final(history)@ == old(history)@
            },
            final(self).turn_v() == old(self).turn_v(),
            final(self).ar_v() == old(self).ar_v(),
            choice matches Some(c) ==> {
                &&& final(self).wf()
                &&& answer_taken(*old(self), dview(decision), c, *final(self))
                &&& final(history)@ == old(history)@.push(DecodedChoice { action: decision.action, choice: Some(c) })
                &&& dview_opt(r) == next_decision_spec((decision.agent, decision.action, decision.allowed@,
                    resolved_quantity(dview(decision), c, *old(self))), final(history)@, *final(self))
            },
    {
        let choice = match choice {
            Some(c) => c,
            None => {
                match decision.action {
                    Action::EndAr => {
                        history.clear();
                        return None;
                    },
                    Action::ClearEvent => {
                        self.current_event = None;
                        return None;
                    },
                    _ => return None,
                }
            },
        };
        let ghost s0 = *self;
        let side = decision.agent;
        if side == Side::US {
            self.wwby(decision.action == Action::Event && choice == Card::UN_Intervention.index());
        }
        let ghost sw = *self;
        let mut decision = decision;
        let ghost d0 = decision;
        match decision.action {
            Action::EventOps | Action::OpsEvent | Action::Ops | Action::Event | Action::SpecialEvent => {
                self.resolve_card(&decision, choice, rng, Ghost(s0));
            },
            Action::Space | Action::Discard | Action::Coup | Action::War | Action::Realignment => {
                self.resolve_dice(&mut decision, choice, rng, Ghost(s0));
            },
            _ => {
                self.resolve_board::<R>(&mut decision, choice, Ghost(s0), Ghost(*rng));
            },
        }
        proof {
            assert(wwby_step(s0, sw, d0.agent, d0.action, choice));
            assert(answer_board(dview(d0), choice, sw, *self));
        }
        history.push(DecodedChoice::new(decision.action, Some(choice)));
        decision.next_decision(history.as_slice(), self)
    }
}

} // verus!
