use vstd::prelude::*;
use crate::action::{Action, Allowed, AllowedView, Decision};
use crate::card::{card_att, card_of, Card, Effect, NUM_CARDS};
use crate::card::deck::{bits_to_cards, hand_pile, true_indices, CARD_BITS};
use crate::card::rules::can_event_spec;
use crate::country::scoring::score_outcome;
use crate::country::{
    cname_index, controller_spec, influence_spec, lemma_cname_index_inverse, opposite_spec,
    side_index, CName, Region, Side, NUM_COUNTRIES,
};
use crate::state::{clamp_defcon, dview, ops_offset_spec, space_vp, war_wins, GameState, TwilightRand};

verus! {

/// The side that plays a card's event: the card's own side, or for a neutral card the
/// phasing side (the US while Grain Sales resolves).
pub open(crate) spec fn event_side(c: Card, s: GameState) -> Side {
    match card_att(c).side {
        Side::US => Side::US,
        Side::USSR => Side::USSR,
        Side::Neutral => if s.event_v() == Some(Card::Grain_Sales) { Side::US } else { s.side_v() },
    }
}

/// A side's influence in a named country.
pub open(crate) spec fn inf(s: GameState, n: CName, side: Side) -> int {
    influence_spec(s.countries_v()[cname_index(n) as int], side) as int
}

/// Whether a side's influence in a named country can grow by `k` within `i8`.
pub open(crate) spec fn room(s: GameState, n: CName, side: Side, k: int) -> bool {
    inf(s, n, side) + k <= i8::MAX
}

/// Whether the victory points can change by `k` within `i8`.
pub open(crate) spec fn vp_room(s: GameState, k: int) -> bool {
    i8::MIN <= s.vp_v() + k <= i8::MAX
}

/// The victory points One Small Step earns: the side first moves one box up (unless it is
/// on the seventh), then the space race succeeds.
pub open(crate) spec fn small_step_vp(s: GameState, side: Side) -> int {
    let me = side_index(side) as int;
    let opp = side_index(opposite_spec(side)) as int;
    let start = if s.space_v()[me] < 7 { s.space_v()[me] + 1 } else { s.space_v()[me] as int };
    let level = start + 1;
    let points = crate::state::space_points(level, level > s.space_v()[opp]);
    if side == Side::US { points as int } else { -points }
}

/// The US battlegrounds of Latin America that count for the Alliance for Progress.
pub open(crate) spec fn alliance_count(s: GameState) -> int {
    crate::state::count_controlled_bg(s.countries_v(), crate::country::region_countries(Region::SouthAmerica)
        + crate::country::region_countries(Region::CentralAmerica), Side::US)
}

/// Whether an event can be played without leaving the range of the game's counters, and is
/// one whose event is defined: the placeholder card, the China Card, OPEC (whose playability cannot be asked) and Our Man
/// in Tehran (which needs a deck operation that does not exist) are not.
pub open(crate) spec fn event_fits(c: Card, s: GameState, side: Side) -> bool {
    match c {
        Card::Dummy | Card::The_China_Card | Card::OPEC | Card::Our_Man_In_Tehran => false,
        Card::Asia_Scoring => i8::MIN <= score_outcome(Region::Asia, s).0 <= i8::MAX && i8::MIN <= score_outcome(Region::Asia, s).1 <= i8::MAX,
        Card::Europe_Scoring => i8::MIN <= score_outcome(Region::Europe, s).0 <= i8::MAX && i8::MIN <= score_outcome(Region::Europe, s).1 <= i8::MAX,
        Card::Middle_East_Scoring => i8::MIN <= score_outcome(Region::MiddleEast, s).0 <= i8::MAX && i8::MIN <= score_outcome(Region::MiddleEast, s).1 <= i8::MAX,
        Card::Central_America_Scoring => i8::MIN <= score_outcome(Region::CentralAmerica, s).0 <= i8::MAX && i8::MIN <= score_outcome(Region::CentralAmerica, s).1 <= i8::MAX,
        Card::Southeast_Asia_Scoring => i8::MIN <= score_outcome(Region::SoutheastAsia, s).0 <= i8::MAX && i8::MIN <= score_outcome(Region::SoutheastAsia, s).1 <= i8::MAX,
        Card::Africa_Scoring => i8::MIN <= score_outcome(Region::Africa, s).0 <= i8::MAX && i8::MIN <= score_outcome(Region::Africa, s).1 <= i8::MAX,
        Card::South_America_Scoring => i8::MIN <= score_outcome(Region::SouthAmerica, s).0 <= i8::MAX && i8::MIN <= score_outcome(Region::SouthAmerica, s).1 <= i8::MAX,
        Card::Duck_and_Cover => vp_room(s, 5 - clamp_defcon(s.defcon_v() - 1)),
        Card::Five_Year_Plan | Card::Terrorism | Card::Ussuri_River_Skirmish => s.deck_v().china_holder() != Side::Neutral,
        Card::Vietnam_Revolts => room(s, CName::Vietnam, Side::USSR, 2),
        Card::Korean_War => s.mil_ops_v()[1] + 2 <= i8::MAX && vp_room(s, -2)
            && inf(s, CName::SKorea, Side::US) + inf(s, CName::SKorea, Side::USSR) <= i8::MAX,
        Card::Arab_Israeli_War => s.mil_ops_v()[1] + 2 <= i8::MAX && vp_room(s, -2)
            && inf(s, CName::Israel, Side::US) + inf(s, CName::Israel, Side::USSR) <= i8::MAX,
        Card::Nasser => room(s, CName::Egypt, Side::USSR, 2),
        Card::De_Gaulle_Leads_France => room(s, CName::France, Side::USSR, 1),
        Card::Captured_Nazi_Scientist => s.space_v()[side_index(side) as int] < 8
            && s.attempts_v()[side_index(side) as int] < i8::MAX && vp_room(s, space_vp(s, side)),
        Card::US_Japan_Mutual_Defense_Pact => crate::state::control_fits(s.countries_v()[cname_index(CName::Japan) as int], Side::US),
        Card::UN_Intervention => vp_room(s, -1),
        Card::Nuclear_Test_Ban => vp_room(s, if s.side_v() == Side::US { s.defcon_v() - 2 } else { 2 - s.defcon_v() }),
        Card::Arms_Race => vp_room(s, 3),
        Card::Summit => vp_room(s, 2) && vp_room(s, -2),
        Card::How_I_Learned_To_Stop_Worrying => s.mil_ops_v()[side_index(side) as int] + 5 <= i8::MAX,
        Card::Kitchen_Debates => vp_room(s, 2),
        Card::Portuguese_Empire_Crumbles => room(s, CName::Angola, Side::USSR, 2) && room(s, CName::SEAfricanStates, Side::USSR, 2),
        Card::Allende => room(s, CName::Chile, Side::USSR, 2),
        Card::Willy_Brandt => vp_room(s, -1) && room(s, CName::WGermany, Side::USSR, 1),
        Card::Cultural_Revolution | Card::U2_Incident | Card::Pershing_II_Deployed => vp_room(s, -1),
        Card::Panama_Canal_Returned => room(s, CName::Panama, Side::US, 1) && room(s, CName::CostaRica, Side::US, 1)
            && room(s, CName::Venezuela, Side::US, 1),
        Card::Camp_David_Accords => vp_room(s, 1) && room(s, CName::Israel, Side::US, 1)
            && room(s, CName::Jordan, Side::US, 1) && room(s, CName::Egypt, Side::US, 1),
        Card::John_Paul => room(s, CName::Poland, Side::US, 1),
        Card::Nixon_Plays_China => vp_room(s, 2),
        Card::Sadat_Expels_Soviets => room(s, CName::Egypt, Side::US, 1),
        Card::Alliance_For_Progress => vp_room(s, alliance_count(s)),
        Card::One_Small_Step => s.attempts_v()[side_index(side) as int] < i8::MAX && vp_room(s, small_step_vp(s, side)),
        Card::Iranian_Hostage_Crisis => room(s, CName::Iran, Side::USSR, 2),
        Card::The_Iron_Lady => room(s, CName::Argentina, Side::USSR, 1) && vp_room(s, 1),
        Card::Reagan_Bombs_Libya => vp_room(s, inf(s, CName::Libya, Side::USSR) / 2),
        Card::Soviets_Shoot_Down_KAL => vp_room(s, 2),
        Card::Glasnost => vp_room(s, -2),
        Card::Tear_Down_This_Wall => room(s, CName::EGermany, Side::US, 3),
        Card::An_Evil_Empire | Card::Defectors => vp_room(s, 1),
        Card::Solidarity => room(s, CName::Poland, Side::US, 3),
        Card::Special_Relationship => vp_room(s, 2),
        Card::AWACS => room(s, CName::SaudiaArabia, Side::US, 2),
        _ => true,
    }
}

/// Whether the source of randomness can supply what an event asks of it: a die roll for
/// each side that rolls, a random card for each card taken out of a hand.
pub open(crate) spec fn rng_fits<R: TwilightRand>(c: Card, s: GameState, side: Side, rng: R) -> bool {
    match c {
        Card::Korean_War | Card::Arab_Israeli_War => rng.can_roll(Side::USSR),
        Card::Summit => rng.can_roll(Side::USSR) && rng.can_roll(Side::US),
        Card::Five_Year_Plan | Card::Grain_Sales => rng.can_pick(s.deck_v(), Side::USSR),
        Card::Terrorism => rng.can_pick(s.deck_v(), opposite_spec(side))
            && (side == Side::USSR && s.effects_v(Side::USSR).contains(Effect::TerrorismPlus) ==> rng.picks_freely()),
        _ => true,
    }
}

impl Card {
    /// The events of the cards up to Decolonization.
    #[verifier::rlimit(50)]
    #[verifier::spinoff_prover]
    fn event_a<R: TwilightRand>(&self, state: &mut GameState, rng: &mut R, side: Side)
        requires
            old(state).wf(),
            side != Side::Neutral,
            event_fits(*self, *old(state), side),
            rng_fits(*self, *old(state), side, *old(rng)),
            old(state).event_v() == Some(*self),
            card_att(*self).side != Side::Neutral ==> side == card_att(*self).side,
            can_event_spec(*self, *old(state), side),
        ensures
            final(state).wf(),
            final(state).event_v() == old(state).event_v(),
            final(state).turn_v() == old(state).turn_v(),
            final(state).ar_v() == old(state).ar_v(),
            crate::card::board::board_a(*self, *old(state), *final(state), side),
            crate::card::card_index(*self) < 31 ==> crate::card::stack::deck_event(*self, *old(state), *final(state), side),
            crate::card::stack::stack_a(*self, *old(state), *final(state), side, old(state).pending_views()),
    {
        let ghost s0 = *state;
        match self {
            Card::Asia_Scoring => {
                Region::Asia.score(state);
            },
            Card::Europe_Scoring => {
                Region::Europe.score(state);
            },
            Card::Middle_East_Scoring => {
                Region::MiddleEast.score(state);
            },
            Card::Duck_and_Cover => {
                let d = state.defcon() - 1;
                state.set_defcon(d);
                state.vp = state.vp + (5 - state.defcon());
            },
            Card::Five_Year_Plan => {
                let card = state.deck.random_card(Side::USSR, rng);
                if let Some(card) = card {
                    if card.side() == Side::US {
                        let x = Decision::new_event(Side::USSR, card);
                        state.add_pending(x);
                        proof { crate::card::stack::lemma_push_one(s0, s0.pending_views(), dview(x)); }
                    }
                    state.discard_card(Side::USSR, card);
                    proof {
                        assert(crate::card::stack::five_year_drawn(s0, *state, s0.pending_views(), card));
                    }
                }
            },
            Card::Socialist_Governments => {
                let list = Region::WesternEurope.all_countries();
                let allowed = state.filter_with_inf(&list, Side::US);
                let x = Decision::with_quantity(Side::USSR, Action::Remove, Allowed::new_owned(allowed), 3);
                state.set_limit(2);
                state.add_pending(x);
                proof { crate::card::stack::lemma_push_one(s0, s0.pending_views(), dview(x)); }
            },
            Card::Fidel => {
                proof { lemma_cname_index_inverse(CName::Cuba); }
                state.remove_all(Side::US, CName::Cuba.index());
                proof { crate::state::lemma_wf_country(*state, cname_index(CName::Cuba) as int); }
                state.control(Side::USSR, CName::Cuba);
            },
            Card::Vietnam_Revolts => {
                proof { lemma_cname_index_inverse(CName::Vietnam); }
                state.add_effect(Side::USSR, Effect::VietnamRevolts);
                state.bump(Side::USSR, CName::Vietnam.index(), 2);
            },
            Card::Korean_War => {
                proof { lemma_cname_index_inverse(CName::SKorea); }
                let index = CName::SKorea.index();
                state.add_mil_ops(Side::USSR, 2);
                let roll = rng.roll(Side::USSR);
                let ghost s1 = *state;
                if state.war_target(Side::USSR, index, roll) {
                    state.vp = state.vp - 2;
                }
                proof {
                    assert(war_wins(s1, Side::USSR, index, roll) == war_wins(s0, Side::USSR, index, roll));
                    assert(crate::card::board::war_board(s0, *state, Side::USSR, CName::SKorea, roll));
                }
            },
            Card::Romanian_Abdication => {
                proof { lemma_cname_index_inverse(CName::Romania); }
                state.remove_all(Side::US, CName::Romania.index());
                proof { crate::state::lemma_wf_country(*state, cname_index(CName::Romania) as int); }
                state.control(Side::USSR, CName::Romania);
            },
            Card::Arab_Israeli_War => {
                proof { lemma_cname_index_inverse(CName::Israel); }
                let index = CName::Israel.index();
                let die = rng.roll(Side::USSR);
                let mut roll = die;
                if state.is_controlled(Side::US, index) {
                    roll = roll - 1;
                }
                state.add_mil_ops(Side::USSR, 2);
                let ghost s1 = *state;
                if state.war_target(Side::USSR, index, roll) {
                    state.vp = state.vp - 2;
                }
                proof {
                    assert(roll == crate::card::board::israel_roll(s0.countries_v(), die));
                    assert(war_wins(s1, Side::USSR, index, roll) == war_wins(s0, Side::USSR, index, roll));
                    assert(crate::card::board::war_board(s0, *state, Side::USSR, CName::Israel, crate::card::board::israel_roll(s0.countries_v(), die)));
                }
            },
            Card::Comecon => {
                let list = Region::EasternEurope.all_countries();
                let allowed = state.filter_not_controlled(&list, side.opposite());
                let x = Decision::with_quantity(Side::USSR, Action::Place, Allowed::new_owned(allowed), 4);
                state.set_limit(1);
                state.add_pending(x);
                proof { crate::card::stack::lemma_push_one(s0, s0.pending_views(), dview(x)); }
            },
            Card::Nasser => {
                proof { lemma_cname_index_inverse(CName::Egypt); }
                let e = CName::Egypt.index();
                state.bump(Side::USSR, e, 2);
                let us = state.countries[e].us;
                proof { crate::state::lemma_wf_country(*state, e as int); }
                state.bump(Side::US, e, us / 2 - us);
            },
            Card::De_Gaulle_Leads_France => {
                proof { lemma_cname_index_inverse(CName::France); }
                let f = CName::France.index();
                proof { crate::state::lemma_wf_country(*state, f as int); }
                let us = state.countries[f].us;
                let remove = if 2 < us { 2 } else { us };
                state.bump(Side::US, f, -remove);
                state.bump(Side::USSR, f, 1);
                state.add_effect(Side::USSR, Effect::DeGaulle);
            },
            Card::Captured_Nazi_Scientist => {
                state.space_card(side, 1);
            },
            Card::Truman_Doctrine => {
                let list = Region::Europe.all_countries();
                let allowed = state.filter_not_controlled(&list, side.opposite());
                let x = Decision::new(Side::US, Action::Remove, Allowed::new_owned(allowed));
                state.add_pending(x);
                proof { crate::card::stack::lemma_push_one(s0, s0.pending_views(), dview(x)); }
            },
            Card::NATO => state.add_effect(Side::US, Effect::Nato),
            Card::Independent_Reds => {
                let list = crate::country::ind_reds();
                proof {
                    lemma_cname_index_inverse(CName::Yugoslavia);
                    lemma_cname_index_inverse(CName::Romania);
                    lemma_cname_index_inverse(CName::Bulgaria);
                    lemma_cname_index_inverse(CName::Hungary);
                    lemma_cname_index_inverse(CName::Czechoslovakia);
                }
                let allowed = state.filter_with_inf(&list, Side::USSR);
                let x = Decision::new(Side::US, Action::Place, Allowed::new_owned(allowed));
                state.add_pending(x);
                proof { crate::card::stack::lemma_push_one(s0, s0.pending_views(), dview(x)); }
            },
            Card::Marshall_Plan => {
                if !state.has_effect(Side::US, Effect::AllowNato) {
                    state.add_effect(Side::US, Effect::AllowNato);
                }
                state.set_limit(1);
                let list = Region::WesternEurope.all_countries();
                let allowed = state.filter_not_controlled(&list, side.opposite());
                let x = Decision::with_quantity(Side::US, Action::Place, Allowed::new_owned(allowed), 7);
                state.add_pending(x);
                proof { crate::card::stack::lemma_push_one(s0, s0.pending_views(), dview(x)); }
            },
            Card::Indo_Pakistani_War => {
                let targets = crate::country::india_pakistan();
                let phasing = *state.side();
                let x = Decision::new(phasing, Action::War, Allowed::new_owned(targets));
                state.add_pending(x);
                proof { crate::card::stack::lemma_push_one(s0, s0.pending_views(), dview(x)); }
            },
            Card::Containment => state.add_effect(Side::US, Effect::Containment),
            Card::CIA_Created => {
                let o = state.base_ops_offset(Side::US);
                let offset = if o > 0 { o } else { 0 };
                state.add_effect(Side::US, Effect::USSR_Hand_Revealed);
                let x = Decision::conduct_ops(Side::US, 1 + offset);
                proof {
                    assert(state.effects_v(Side::US).contains(Effect::CubanMissileCrisis) == s0.effects_v(Side::US).contains(Effect::CubanMissileCrisis)) by {
                        assert(state.effects_v(Side::US) == s0.effects_v(Side::US).push(Effect::USSR_Hand_Revealed));
                        if s0.effects_v(Side::US).contains(Effect::CubanMissileCrisis) {
                            let k = choose|k: int| 0 <= k < s0.effects_v(Side::US).len() && s0.effects_v(Side::US)[k] == Effect::CubanMissileCrisis;
                            assert(state.effects_v(Side::US)[k] == Effect::CubanMissileCrisis);
                        }
                    }
                }
                state.add_pending(x);
                proof { crate::card::stack::lemma_push_one(s0, s0.pending_views(), dview(x)); }
            },
            Card::US_Japan_Mutual_Defense_Pact => {
                proof { lemma_cname_index_inverse(CName::Japan); }
                state.control(Side::US, CName::Japan);
                state.add_effect(Side::US, Effect::US_Japan);
            },
            Card::Suez_Crisis => {
                let list = crate::country::suez();
                proof {
                    lemma_cname_index_inverse(CName::France);
                    lemma_cname_index_inverse(CName::UK);
                    lemma_cname_index_inverse(CName::Israel);
                }
                let allowed = state.filter_with_inf(&list, side.opposite());
                let x = Decision::with_quantity(Side::USSR, Action::Remove, Allowed::new_owned(allowed), 4);
                state.set_limit(2);
                state.add_pending(x);
                proof { crate::card::stack::lemma_push_one(s0, s0.pending_views(), dview(x)); }
            },
            Card::East_European_Unrest => {
                state.set_limit(1);
                let list = Region::EasternEurope.all_countries();
                let allowed = state.filter_with_inf(&list, side.opposite());
                let x = Decision::with_quantity(Side::US, Action::Remove, Allowed::new_owned(allowed), 3);
                state.add_pending(x);
                proof { crate::card::stack::lemma_push_one(s0, s0.pending_views(), dview(x)); }
            },
            Card::Decolonization => {
                state.set_limit(1);
                let x = Decision::with_quantity(Side::USSR, Action::Place, Allowed::new_owned(crate::country::decol()), 4);
                state.add_pending(x);
                proof { crate::card::stack::lemma_push_one(s0, s0.pending_views(), dview(x)); }
            },
            _ => {},
        }
        proof { crate::card::stack::lemma_push_none(s0, s0.pending_views()); }
    }
}

impl Card {
    /// The events of the cards from Red Scare/Purge to the U2 Incident.
    #[verifier::rlimit(100)]
    #[verifier::spinoff_prover]
    fn event_b<R: TwilightRand>(&self, state: &mut GameState, rng: &mut R, side: Side)
        requires
            old(state).wf(),
            side != Side::Neutral,
            event_fits(*self, *old(state), side),
            rng_fits(*self, *old(state), side, *old(rng)),
            old(state).event_v() == Some(*self),
            card_att(*self).side != Side::Neutral ==> side == card_att(*self).side,
            can_event_spec(*self, *old(state), side),
        ensures
            final(state).wf(),
            final(state).event_v() == old(state).event_v(),
            final(state).turn_v() == old(state).turn_v(),
            final(state).ar_v() == old(state).ar_v(),
            crate::card::board::board_b(*self, *old(state), *final(state), side),
            31 <= crate::card::card_index(*self) < 61 ==> crate::card::stack::deck_event(*self, *old(state), *final(state), side),
            crate::card::stack::stack_b(*self, *old(state), *final(state), side, old(state).pending_views()),
    {
        let ghost s0 = *state;
        match self {
            Card::Red_Scare_Purge => {
                let phasing = *state.side();
                state.add_effect(phasing, Effect::RedScarePurge);
            },
            Card::UN_Intervention => {
                let hand = state.deck.hand(side).card_vec();
                let opp = side.opposite();
                let ghost idx = true_indices(s0.deck_v().pile(hand_pile(side)));
                let ghost pred = |i: usize| card_att(card_of(i)).side == opposite_spec(side);
                proof { crate::card::deck::lemma_true_indices_bound(s0.deck_v().pile(hand_pile(side))); }
                let mut vec: Vec<usize> = Vec::new();
                let mut i: usize = 0;
                while i < hand.len()
                    invariant
                        i <= hand.len(),
                        hand@.len() == idx.len(),
                        opp == opposite_spec(side),
                        pred == (|i: usize| card_att(card_of(i)).side == opposite_spec(side)),
                        forall|j: int| 0 <= j < idx.len() ==> #[trigger] idx[j] < NUM_CARDS && hand@[j] == card_of(idx[j]),
                        vec@ == idx.take(i as int).filter(pred),
                    decreases hand.len() - i,
                {
                    proof {
                        reveal_with_fuel(Seq::<_>::filter, 1);
                        assert(idx.take(i + 1).drop_last() =~= idx.take(i as int));
                        crate::card::lemma_card_of_inverse(idx[i as int]);
                    }
                    if hand[i].side() == opp {
                        vec.push(hand[i].index());
                    }
                    i = i + 1;
                }
                proof { assert(idx.take(hand.len() as int) =~= idx); }
                if state.has_effect(Side::USSR, Effect::U2) {
                    state.vp = state.vp - 1;
                }
                let x = Decision::new(side, Action::Ops, Allowed::new_owned(vec));
                state.add_pending(x);
                proof { crate::card::stack::lemma_push_one(s0, s0.pending_views(), dview(x)); }
            },
            Card::De_Stalinization => {
                state.set_limit(2);
                let all = crate::state::index_range(0, NUM_COUNTRIES - 2);
                let dest = state.filter_not_controlled(&all, Side::US);
                let x = Decision::with_quantity(Side::USSR, Action::Place, Allowed::new_owned(dest), 4);
                let source = state.filter_with_inf(&all, Side::USSR);
                let y = Decision::with_quantity(Side::USSR, Action::Remove, Allowed::new_owned(source), 4);
                state.add_pending(x);
                state.add_pending(y);
                proof {
                    crate::card::stack::lemma_push_one(s0, s0.pending_views(), dview(x));
                    crate::card::stack::lemma_push_next(s0, s0.pending_views(), seq![dview(x)], dview(y));
                    assert(seq![dview(x)].push(dview(y)) =~= seq![dview(x), dview(y)]);
                    assert(all@ =~= crate::card::stack::all_but_superpowers());
                }
            },
            Card::Nuclear_Test_Ban => {
                let vps = state.defcon() - 2;
                match state.side() {
                    Side::US => state.vp = state.vp + vps,
                    _ => state.vp = state.vp - vps,
                }
                let d = state.defcon() + 2;
                state.set_defcon(d);
            },
            Card::Formosan_Resolution => state.add_effect(Side::US, Effect::FormosanResolution),
            Card::Brush_War => {
                let targets = state.legal_war(side);
                let x = Decision::new(side, Action::War, targets);
                state.add_pending(x);
                proof { crate::card::stack::lemma_push_one(s0, s0.pending_views(), dview(x)); }
            },
            Card::Central_America_Scoring => {
                Region::CentralAmerica.score(state);
            },
            Card::Southeast_Asia_Scoring => {
                Region::SoutheastAsia.score(state);
            },
            Card::Arms_Race => {
                let mine = state.mil_ops(side);
                if mine > state.mil_ops(side.opposite()) {
                    if mine >= state.defcon() {
                        state.vp = state.vp + 3;
                    } else {
                        state.vp = state.vp + 1;
                    }
                }
            },
            Card::Cuban_Missile_Crisis => {
                state.set_defcon(2);
                state.add_effect(side.opposite(), Effect::CubanMissileCrisis);
            },
            Card::Nuclear_Subs => state.add_effect(side, Effect::NuclearSubs),
            Card::Quagmire => {
                state.add_effect(side.opposite(), Effect::Quagmire);
                if let Some(i) = state.effect_pos(Side::US, Effect::Norad) {
                    state.clear_effect(Side::US, i);
                }
            },
            Card::SALT_Negotiations => {
                state.add_effect(side, Effect::SALT);
                state.add_effect(side.opposite(), Effect::SALT);
                let allowed = state.deck.discard_pile().iter_indices();
                let x = Decision::new(side, Action::RecoverCard, Allowed::new_owned(allowed));
                state.add_pending(x);
                proof { crate::card::stack::lemma_push_one(s0, s0.pending_views(), dview(x)); }
            },
            Card::Bear_Trap => state.add_effect(side.opposite(), Effect::BearTrap),
            Card::Summit => {
                let mut ussr_roll = rng.roll(Side::USSR);
                let mut us_roll = rng.roll(Side::US);
                let ghost ussr_die = ussr_roll;
                let ghost us_die = us_roll;
                let regions = Region::major_regions();
                let mut k: usize = 0;
                while k < regions.len()
                    invariant
                        k <= regions.len(),
                        regions.len() == 6,
                        regions@ == crate::card::stack::summit_regions(),
                        state.wf(),
                        *state == s0,
                        1 <= us_die <= 6,
                        1 <= ussr_die <= 6,
                        us_roll == us_die + crate::card::stack::summit_bonus(s0, k as nat, true),
                        ussr_roll == ussr_die + crate::card::stack::summit_bonus(s0, k as nat, false),
                        crate::card::stack::summit_bonus(s0, k as nat, true) <= k,
                        crate::card::stack::summit_bonus(s0, k as nat, false) <= k,
                        crate::card::stack::summit_bonus(s0, k as nat, true) >= 0,
                        crate::card::stack::summit_bonus(s0, k as nat, false) >= 0,
                    decreases regions.len() - k,
                {
                    let (status, _) = regions[k].status(state, false);
                    match status[0] {
                        crate::country::Status::Domination | crate::country::Status::Control => us_roll = us_roll + 1,
                        _ => {},
                    }
                    match status[1] {
                        crate::country::Status::Domination | crate::country::Status::Control => ussr_roll = ussr_roll + 1,
                        _ => {},
                    }
                    k = k + 1;
                }
                let d = state.defcon();
                let mut defcon: Vec<usize> = Vec::new();
                if 1 <= d - 1 && d - 1 <= 5 {
                    defcon.push((d - 1) as usize);
                }
                if 1 <= d && d <= 5 {
                    defcon.push(d as usize);
                }
                if 1 <= d + 1 && d + 1 <= 5 {
                    defcon.push((d + 1) as usize);
                }
                proof { assert(defcon@ =~= crate::card::stack::defcon_steps(s0.defcon_v())); }
                if us_roll > ussr_roll {
                    state.vp = state.vp + 2;
                    let x = Decision::new(Side::US, Action::ChangeDefcon, Allowed::new_owned(defcon));
                    state.add_pending(x);
                    proof { crate::card::stack::lemma_push_one(s0, s0.pending_views(), dview(x)); }
                } else if ussr_roll > us_roll {
                    state.vp = state.vp - 2;
                    let x = Decision::new(Side::USSR, Action::ChangeDefcon, Allowed::new_owned(defcon));
                    state.add_pending(x);
                    proof { crate::card::stack::lemma_push_one(s0, s0.pending_views(), dview(x)); }
                }
                proof {
                    crate::card::stack::lemma_push_none(s0, s0.pending_views());
                    assert(crate::card::stack::summit_rolled(s0, *state, s0.pending_views(), us_die, ussr_die));
                }
            },
            Card::How_I_Learned_To_Stop_Worrying => {
                let d = Decision::new(side, Action::ChangeDefcon, Allowed::new_owned(vec![1, 2, 3, 4, 5]));
                state.add_mil_ops(side, 5);
                state.add_pending(d);
                proof { crate::card::stack::lemma_push_one(s0, s0.pending_views(), dview(d)); }
            },
            Card::Kitchen_Debates => state.vp = state.vp + 2,
            Card::Missile_Envy => {
                let opp = side.opposite();
                let high = state.deck.highest_ops(opp);
                proof {
                    assert forall|i: int| 0 <= i < CARD_BITS implies #[trigger] high@[i] == crate::card::stack::highest_bits(s0, opp)[i] by {
                        if i < NUM_CARDS {
                            crate::card::lemma_card_of_inverse(i as usize);
                            assert(crate::card::deck::holds(high@, card_of(i as usize)) == high@[i]);
                        }
                    }
                    assert(high@ =~= crate::card::stack::highest_bits(s0, opp));
                }
                let allowed = high.iter_indices();
                let x = Decision::new(opp, Action::ChooseCard, Allowed::new_owned(allowed));
                state.add_pending(x);
                proof { crate::card::stack::lemma_push_one(s0, s0.pending_views(), dview(x)); }
            },
            Card::We_Will_Bury_You => {
                let d = state.defcon() - 1;
                state.set_defcon(d);
                state.add_effect(Side::US, Effect::WWBY);
            },
            Card::Portuguese_Empire_Crumbles => {
                proof {
                    lemma_cname_index_inverse(CName::Angola);
                    lemma_cname_index_inverse(CName::SEAfricanStates);
                }
                state.bump(Side::USSR, CName::Angola.index(), 2);
                state.bump(Side::USSR, CName::SEAfricanStates.index(), 2);
            },
            Card::Allende => {
                proof { lemma_cname_index_inverse(CName::Chile); }
                state.bump(Side::USSR, CName::Chile.index(), 2);
            },
            Card::Willy_Brandt => {
                proof { lemma_cname_index_inverse(CName::WGermany); }
                state.vp = state.vp - 1;
                state.bump(Side::USSR, CName::WGermany.index(), 1);
                state.add_effect(Side::USSR, Effect::WillyBrandt);
            },
            Card::Muslim_Revolution => {
                let d = Decision::new(Side::USSR, Action::Remove, Allowed::new_lazy(crate::action::LazyRule::MuslimRevolution));
                let e = d.clone();
                state.add_pending(e);
                state.add_pending(d);
                proof {
                    crate::card::stack::lemma_push_one(s0, s0.pending_views(), dview(e));
                    crate::card::stack::lemma_push_next(s0, s0.pending_views(), seq![dview(e)], dview(d));
                    assert(seq![dview(e)].push(dview(d)) =~= seq![dview(e), dview(d)]);
                }
            },
            Card::ABM_Treaty => {
                let d = state.defcon() + 1;
                state.set_defcon(d);
                let ops = self.modified_ops(side, state);
                let x = Decision::conduct_ops(side, ops);
                proof { assert(ops_offset_spec(*state, side) == ops_offset_spec(s0, side)); }
                state.add_pending(x);
                proof { crate::card::stack::lemma_push_one(s0, s0.pending_views(), dview(x)); }
            },
            Card::Cultural_Revolution => {
                if let Side::US = state.deck.china() {
                    state.deck.play_china();
                    state.deck.turn_china_up();
                } else {
                    state.vp = state.vp - 1;
                }
            },
            Card::Flower_Power => state.add_effect(Side::USSR, Effect::FlowerPower),
            Card::Brezhnev_Doctrine => state.add_effect(Side::USSR, Effect::Brezhnev),
            Card::U2_Incident => {
                state.vp = state.vp - 1;
                state.add_effect(Side::USSR, Effect::U2);
            },
            _ => {},
        }
        proof { crate::card::stack::lemma_push_none(s0, s0.pending_views()); }
    }
}

impl Card {
    /// The events of the cards from OPEC to the Ussuri River Skirmish.
    #[verifier::rlimit(50)]
    #[verifier::spinoff_prover]
    fn event_c<R: TwilightRand>(&self, state: &mut GameState, rng: &mut R, side: Side)
        requires
            old(state).wf(),
            side != Side::Neutral,
            event_fits(*self, *old(state), side),
            rng_fits(*self, *old(state), side, *old(rng)),
            old(state).event_v() == Some(*self),
            card_att(*self).side != Side::Neutral ==> side == card_att(*self).side,
            can_event_spec(*self, *old(state), side),
        ensures
            final(state).wf(),
            final(state).event_v() == old(state).event_v(),
            final(state).turn_v() == old(state).turn_v(),
            final(state).ar_v() == old(state).ar_v(),
            crate::card::board::board_c(*self, *old(state), *final(state), side),
            61 <= crate::card::card_index(*self) < 77 ==> crate::card::stack::deck_event(*self, *old(state), *final(state), side),
            crate::card::stack::stack_c(*self, *old(state), *final(state), old(state).pending_views()),
    {
        let ghost s0 = *state;
        match self {
            Card::Lone_Gunman => {
                let ops = self.modified_ops(Side::USSR, state);
                state.add_effect(Side::USSR, Effect::US_Hand_Revealed);
                let x = Decision::conduct_ops(Side::USSR, ops);
                proof {
                    assert(state.effects_v(Side::USSR).contains(Effect::CubanMissileCrisis) == s0.effects_v(Side::USSR).contains(Effect::CubanMissileCrisis)) by {
                        if s0.effects_v(Side::USSR).contains(Effect::CubanMissileCrisis) {
                            let k = choose|k: int| 0 <= k < s0.effects_v(Side::USSR).len() && s0.effects_v(Side::USSR)[k] == Effect::CubanMissileCrisis;
                            assert(state.effects_v(Side::USSR)[k] == Effect::CubanMissileCrisis);
                        }
                    }
                }
                state.add_pending(x);
                proof { crate::card::stack::lemma_push_one(s0, s0.pending_views(), dview(x)); }
            },
            Card::Colonial_Rear_Guards => {
                state.set_limit(1);
                let x = Decision::with_quantity(Side::US, Action::Place, Allowed::new_owned(crate::country::decol()), 4);
                state.add_pending(x);
                proof { crate::card::stack::lemma_push_one(s0, s0.pending_views(), dview(x)); }
            },
            Card::Panama_Canal_Returned => {
                proof {
                    lemma_cname_index_inverse(CName::Panama);
                    lemma_cname_index_inverse(CName::CostaRica);
                    lemma_cname_index_inverse(CName::Venezuela);
                }
                state.bump(Side::US, CName::Panama.index(), 1);
                state.bump(Side::US, CName::CostaRica.index(), 1);
                state.bump(Side::US, CName::Venezuela.index(), 1);
            },
            Card::Camp_David_Accords => {
                proof {
                    lemma_cname_index_inverse(CName::Israel);
                    lemma_cname_index_inverse(CName::Jordan);
                    lemma_cname_index_inverse(CName::Egypt);
                }
                state.vp = state.vp + 1;
                state.bump(Side::US, CName::Israel.index(), 1);
                state.bump(Side::US, CName::Jordan.index(), 1);
                state.bump(Side::US, CName::Egypt.index(), 1);
                state.add_effect(Side::US, Effect::CampDavid);
            },
            Card::Puppet_Governments => {
                state.set_limit(1);
                let mut legal: Vec<usize> = Vec::new();
                let mut i: usize = 0;
                let ghost all = crate::card::stack::all_but_superpowers();
                let ghost m = s0.countries_v();
                let ghost pred = |i: usize| m[i as int].us == 0 && m[i as int].ussr == 0;
                while i < NUM_COUNTRIES - 2
                    invariant
                        i <= NUM_COUNTRIES - 2,
                        state.countries_v().len() == NUM_COUNTRIES,
                        state.countries_v() == m,
                        all == crate::card::stack::all_but_superpowers(),
                        pred == (|i: usize| m[i as int].us == 0 && m[i as int].ussr == 0),
                        legal@ == all.take(i as int).filter(pred),
                    decreases NUM_COUNTRIES - 2 - i,
                {
                    proof {
                        reveal_with_fuel(Seq::<_>::filter, 1);
                        assert(all.take(i + 1).drop_last() =~= all.take(i as int));
                        assert(all[i as int] == i);
                    }
                    let c = state.countries[i];
                    if c.us == 0 && c.ussr == 0 {
                        legal.push(i);
                    }
                    i = i + 1;
                }
                proof {
                    assert(all.take((NUM_COUNTRIES - 2) as int) =~= all);
                    assert(legal@ =~= crate::card::stack::empty_countries(s0));
                }
                let d = Decision::with_quantity(Side::US, Action::Place, Allowed::new_owned(legal), 3);
                state.add_pending(d);
                proof { crate::card::stack::lemma_push_one(s0, s0.pending_views(), dview(d)); }
            },
            Card::Grain_Sales => {
                let hit = rng.card_from_hand(&state.deck, Side::USSR);
                if let Some(card) = hit {
                    let d = Decision::new(Side::US, Action::ChooseCard,
                        Allowed::new_owned(vec![Card::Dummy.index(), card.index()]));
                    state.add_pending(d);
                    proof {
                        crate::card::stack::lemma_push_one(s0, s0.pending_views(), dview(d));
                        assert(d.allowed@ == AllowedView::Known(seq![0usize, crate::card::card_index(card)]));
                        assert(crate::card::stack::grain_choice(s0, *state, s0.pending_views(), card));
                    }
                } else {
                    let ops = 2 + state.base_ops_offset(Side::US);
                    let x = Decision::conduct_ops(Side::US, ops);
                    state.add_pending(x);
                    proof { crate::card::stack::lemma_push_one(s0, s0.pending_views(), dview(x)); }
                }
            },
            Card::John_Paul => {
                proof { lemma_cname_index_inverse(CName::Poland); }
                let p = CName::Poland.index();
                proof { crate::state::lemma_wf_country(*state, p as int); }
                let ussr = state.countries[p].ussr;
                let cut = if ussr < 2 { ussr } else { 2 };
                state.bump(Side::USSR, p, -cut);
                state.bump(Side::US, p, 1);
                state.add_effect(Side::US, Effect::AllowSolidarity);
            },
            Card::Latin_American_Death_Squads => {
                state.add_effect(side, Effect::LatinAmericanPlus);
                state.add_effect(side.opposite(), Effect::LatinAmericanMinus);
            },
            Card::OAS_Founded => {
                let d = Decision::with_quantity(Side::US, Action::Place, Allowed::new_owned(crate::country::latin_america()), 2);
                state.add_pending(d);
                proof { crate::card::stack::lemma_push_one(s0, s0.pending_views(), dview(d)); }
            },
            Card::Nixon_Plays_China => {
                if let Side::USSR = state.deck.china() {
                    state.deck.play_china();
                } else {
                    state.vp = state.vp + 2;
                }
            },
            Card::Sadat_Expels_Soviets => {
                proof { lemma_cname_index_inverse(CName::Egypt); }
                let e = CName::Egypt.index();
                state.remove_all(Side::USSR, e);
                state.bump(Side::US, e, 1);
            },
            Card::Shuttle_Diplomacy => state.add_effect(Side::US, Effect::ShuttleDiplomacy),
            Card::The_Voice_Of_America => {
                state.set_limit(2);
                let europe = Region::Europe.all_countries();
                let start = europe[europe.len() - 1] + 1;
                let list = crate::state::index_range(start, NUM_COUNTRIES - 2);
                let legal = state.filter_with_inf(&list, Side::USSR);
                let d = Decision::with_quantity(Side::US, Action::Remove, Allowed::new_owned(legal), 4);
                proof { assert(list@ =~= crate::card::stack::beyond_europe()); }
                state.add_pending(d);
                proof { crate::card::stack::lemma_push_one(s0, s0.pending_views(), dview(d)); }
            },
            Card::Liberation_Theology => {
                state.set_limit(2);
                let d = Decision::with_quantity(Side::USSR, Action::Place,
                    Allowed::new_owned(Region::CentralAmerica.all_countries()), 3);
                state.add_pending(d);
                proof { crate::card::stack::lemma_push_one(s0, s0.pending_views(), dview(d)); }
            },
            Card::Ussuri_River_Skirmish => {
                if let Side::US = state.deck.china() {
                    state.set_limit(2);
                    let d = Decision::with_quantity(Side::USSR, Action::Place,
                        Allowed::new_owned(Region::Asia.all_countries()), 4);
                    state.add_pending(d);
                    proof { crate::card::stack::lemma_push_one(s0, s0.pending_views(), dview(d)); }
                } else {
                    state.deck.play_china();
                    state.deck.turn_china_up();
                }
            },
            _ => {},
        }
        proof { crate::card::stack::lemma_push_none(s0, s0.pending_views()); }
    }

    /// The events of the cards from Ask Not to Glasnost.
    #[verifier::rlimit(50)]
    #[verifier::spinoff_prover]
    fn event_d<R: TwilightRand>(&self, state: &mut GameState, rng: &mut R, side: Side)
        requires
            old(state).wf(),
            side != Side::Neutral,
            event_fits(*self, *old(state), side),
            rng_fits(*self, *old(state), side, *old(rng)),
            old(state).event_v() == Some(*self),
            card_att(*self).side != Side::Neutral ==> side == card_att(*self).side,
            can_event_spec(*self, *old(state), side),
        ensures
            final(state).wf(),
            final(state).event_v() == old(state).event_v(),
            final(state).turn_v() == old(state).turn_v(),
            final(state).ar_v() == old(state).ar_v(),
            crate::card::board::board_d(*self, *old(state), *final(state), side),
            77 <= crate::card::card_index(*self) < 91 ==> crate::card::stack::deck_event(*self, *old(state), *final(state), side),
            crate::card::stack::stack_d(*self, *old(state), *final(state), old(state).pending_views()),
    {
        let ghost s0 = *state;
        match self {
            Card::Ask_Not => {
                let allowed = state.deck.hand(Side::US).iter_indices();
                #[verifier::truncate]
                let q = allowed.len() as i8;
                let d = Decision::with_quantity(Side::US, Action::ChooseCard, Allowed::new_owned(allowed), q);
                state.add_pending(d);
                proof { crate::card::stack::lemma_push_one(s0, s0.pending_views(), dview(d)); }
            },
            Card::Alliance_For_Progress => {
                let list = crate::country::latin_america();
                let ghost m = state.countries_v();
                let mut count: i8 = 0;
                let mut k: usize = 0;
                while k < list.len()
                    invariant
                        k <= list.len(),
                        state.wf(),
                        m == state.countries_v(),
                        list@ == crate::country::region_countries(Region::SouthAmerica)
                            + crate::country::region_countries(Region::CentralAmerica),
                        list.len() <= 20,
                        count == crate::state::count_controlled_bg(m, list@.take(k as int), Side::US),
                    decreases list.len() - k,
                {
                    proof {
                        assert(list@.take(k + 1).drop_last() =~= list@.take(k as int));
                        crate::state::lemma_count_controlled_bg_bound(m, list@.take(k as int), Side::US);
                        crate::state::lemma_wf_country(*state, list@[k as int] as int);
                    }
                    let c = state.countries[list[k]];
                    if c.bg && c.controller() == Side::US {
                        count = count + 1;
                    }
                    k = k + 1;
                }
                proof { assert(list@.take(list.len() as int) =~= list@); }
                state.vp = state.vp + count;
            },
            Card::Africa_Scoring => {
                Region::Africa.score(state);
            },
            Card::One_Small_Step => {
                let index = side.index();
                if state.space[index] < 7 {
                    state.space[index] = state.space[index] + 1;
                }
                state.space_card(side, 1);
            },
            Card::South_America_Scoring => {
                Region::SouthAmerica.score(state);
            },
            Card::Iranian_Hostage_Crisis => {
                proof { lemma_cname_index_inverse(CName::Iran); }
                let iran = CName::Iran.index();
                state.remove_all(Side::US, iran);
                state.bump(Side::USSR, iran, 2);
                state.add_effect(Side::USSR, Effect::TerrorismPlus);
            },
            Card::The_Iron_Lady => {
                proof {
                    lemma_cname_index_inverse(CName::UK);
                    lemma_cname_index_inverse(CName::Argentina);
                }
                state.remove_all(Side::USSR, CName::UK.index());
                let arg = CName::Argentina.index();
                if state.countries[arg].ussr == 0 {
                    state.iron_lady = true;
                }
                state.bump(Side::USSR, arg, 1);
                state.vp = state.vp + 1;
                state.add_effect(Side::US, Effect::IronLady);
            },
            Card::Reagan_Bombs_Libya => {
                proof {
                    lemma_cname_index_inverse(CName::Libya);
                    crate::state::lemma_wf_country(*state, cname_index(CName::Libya) as int);
                }
                state.vp = state.vp + state.countries[CName::Libya.index()].ussr / 2;
            },
            Card::Star_Wars => {
                proof {
                    state.deck_v().lemma_wf_piles(crate::card::deck::Pile::Discard);
                    state.deck_v().lemma_wf_piles(crate::card::deck::Pile::PendingDiscard);
                }
                let discards = state.deck.discard_pile().card_vec();
                let ghost idx1 = true_indices(s0.deck_v().pile(crate::card::deck::Pile::Discard));
                let ghost idx2 = true_indices(s0.deck_v().pile(crate::card::deck::Pile::PendingDiscard));
                let ghost pred = |i: usize| s0.ar_v() != 0 || !(card_of(i) == Card::The_China_Card || card_of(i) == Card::UN_Intervention);
                proof {
                    crate::card::deck::lemma_true_indices_bound(s0.deck_v().pile(crate::card::deck::Pile::Discard));
                    crate::card::deck::lemma_true_indices_bound(s0.deck_v().pile(crate::card::deck::Pile::PendingDiscard));
                }
                let mut allowed: Vec<usize> = Vec::new();
                let mut i: usize = 0;
                while i < discards.len()
                    invariant
                        i <= discards.len(),
                        discards@.len() == idx1.len(),
                        state.ar_v() == s0.ar_v(),
                        pred == (|i: usize| s0.ar_v() != 0 || !(card_of(i) == Card::The_China_Card || card_of(i) == Card::UN_Intervention)),
                        forall|k: int| 0 <= k < idx1.len() ==> #[trigger] idx1[k] < NUM_CARDS && discards@[k] == card_of(idx1[k]),
                        allowed@ == idx1.take(i as int).filter(pred),
                    decreases discards.len() - i,
                {
                    proof {
                        reveal_with_fuel(Seq::<_>::filter, 1);
                        assert(idx1.take(i + 1).drop_last() =~= idx1.take(i as int));
                        crate::card::lemma_card_of_inverse(idx1[i as int]);
                    }
                    let c = discards[i];
                    if state.ar != 0 || c.can_headline() {
                        allowed.push(c.index());
                    }
                    i = i + 1;
                }
                proof { assert(idx1.take(discards.len() as int) =~= idx1); }
                let ghost first = allowed@;
                let pending = state.deck.pending_discard().card_vec();
                let ghost x = crate::card::card_index(Card::Star_Wars);
                let mut found = false;
                let mut j: usize = 0;
                proof { assert(idx2.skip(0) =~= idx2); }
                while j < pending.len() && !found
                    invariant
                        j <= pending.len(),
                        pending@.len() == idx2.len(),
                        *self == Card::Star_Wars,
                        x == crate::card::card_index(Card::Star_Wars),
                        forall|k: int| 0 <= k < idx2.len() ==> #[trigger] idx2[k] < NUM_CARDS && pending@[k] == card_of(idx2[k]),
                        !found ==> allowed@ == first
                            && crate::card::stack::first_other(idx2, x) == crate::card::stack::first_other(idx2.skip(j as int), x),
                        found ==> allowed@ == first + crate::card::stack::first_other(idx2, x),
                    decreases pending.len() - j + if found { 0int } else { 1int },
                {
                    proof {
                        crate::card::lemma_card_of_inverse(idx2[j as int]);
                        assert(idx2.skip(j as int)[0] == idx2[j as int]);
                        assert(idx2.skip(j as int).drop_first() =~= idx2.skip(j + 1));
                    }
                    if pending[j] != *self {
                        allowed.push(pending[j].index());
                        found = true;
                    } else {
                        j = j + 1;
                    }
                }
                proof {
                    if !found {
                        assert(idx2.skip(j as int) =~= Seq::<usize>::empty());
                        assert(first + crate::card::stack::first_other(idx2, x) =~= first);
                    }
                    assert(allowed@ =~= crate::card::stack::star_wars_choices(s0));
                }
                let x = Decision::new(Side::US, Action::Event, Allowed::new_owned(allowed));
                state.add_pending(x);
                proof { crate::card::stack::lemma_push_one(s0, s0.pending_views(), dview(x)); }
            },
            Card::North_Sea_Oil => {
                state.add_effect(Side::US, Effect::NorthSeaOil);
                state.add_effect(Side::USSR, Effect::NoOpec);
            },
            Card::The_Reformer => {
                state.add_effect(Side::USSR, Effect::Reformer);
                state.set_limit(2);
                let q: i8 = if state.vp < 0 { 6 } else { 4 };
                let d = Decision::with_quantity(Side::USSR, Action::Place, Allowed::new_owned(Region::Europe.all_countries()), q);
                state.add_pending(d);
                proof { crate::card::stack::lemma_push_one(s0, s0.pending_views(), dview(d)); }
            },
            Card::Marine_Barracks_Bombing => {
                proof { lemma_cname_index_inverse(CName::Lebanon); }
                state.remove_all(Side::US, CName::Lebanon.index());
                let list = Region::MiddleEast.all_countries();
                let allowed = state.filter_with_inf(&list, Side::US);
                let d = Decision::with_quantity(Side::USSR, Action::Remove, Allowed::new_owned(allowed), 2);
                proof {
                    assert(state.countries_v() == crate::card::board::cleared(s0.countries_v(), Side::US, CName::Lebanon));
                    assert(allowed@ == crate::card::stack::barracks_choices(s0));
                }
                state.add_pending(d);
                proof { crate::card::stack::lemma_push_one(s0, s0.pending_views(), dview(d)); }
            },
            Card::Soviets_Shoot_Down_KAL => {
                let d = state.defcon() - 1;
                state.set_defcon(d);
                state.vp = state.vp + 2;
                proof {
                    lemma_cname_index_inverse(CName::SKorea);
                    crate::state::lemma_wf_country(*state, cname_index(CName::SKorea) as int);
                }
                if let Side::US = state.countries[CName::SKorea.index()].controller() {
                    let ops = self.modified_ops(Side::US, state);
                    let x = Decision::conduct_ops(Side::US, ops);
                    proof { assert(ops_offset_spec(*state, Side::US) == ops_offset_spec(s0, Side::US)); }
                    state.add_pending(x);
                    proof { crate::card::stack::lemma_push_one(s0, s0.pending_views(), dview(x)); }
                }
            },
            Card::Glasnost => {
                let d = state.defcon() + 1;
                state.set_defcon(d);
                state.vp = state.vp - 2;
                if state.has_effect(Side::USSR, Effect::Reformer) {
                    let ops = self.modified_ops(Side::USSR, state);
                    let x = Decision::conduct_ops(Side::USSR, ops);
                    proof { assert(ops_offset_spec(*state, Side::USSR) == ops_offset_spec(s0, Side::USSR)); }
                    state.add_pending(x);
                    proof { crate::card::stack::lemma_push_one(s0, s0.pending_views(), dview(x)); }
                }
            },
            _ => {},
        }
        proof { crate::card::stack::lemma_push_none(s0, s0.pending_views()); }
    }
}

impl Card {
    /// The events of the cards from Ortega Elected to AWACS.
    #[verifier::rlimit(100)]
    #[verifier::spinoff_prover]
    fn event_e<R: TwilightRand>(&self, state: &mut GameState, rng: &mut R, side: Side)
        requires
            old(state).wf(),
            side != Side::Neutral,
            event_fits(*self, *old(state), side),
            rng_fits(*self, *old(state), side, *old(rng)),
            old(state).event_v() == Some(*self),
            card_att(*self).side != Side::Neutral ==> side == card_att(*self).side,
            can_event_spec(*self, *old(state), side),
        ensures
            final(state).wf(),
            final(state).event_v() == old(state).event_v(),
            final(state).turn_v() == old(state).turn_v(),
            final(state).ar_v() == old(state).ar_v(),
            crate::card::board::board_e(*self, *old(state), *final(state), side),
            91 <= crate::card::card_index(*self) ==> crate::card::stack::deck_event(*self, *old(state), *final(state), side),
            crate::card::stack::stack_e(*self, *old(state), *final(state), side, old(state).pending_views()),
    {
        let ghost s0 = *state;
        match self {
            Card::Ortega_Elected => {
                proof { lemma_cname_index_inverse(CName::Nicaragua); }
                let nic = CName::Nicaragua.index();
                state.remove_all(Side::US, nic);
                let list = crate::country::neighbors_of(nic);
                proof { crate::country::lemma_neighbors_bound(crate::country::edge_list(), nic); }
                let allowed = state.filter_with_inf(&list, Side::US);
                let ops = self.modified_ops(Side::USSR, state);
                let d = Decision::with_quantity(Side::USSR, Action::Coup, Allowed::new_owned(allowed), ops);
                proof {
                    assert(state.countries_v() == crate::card::board::cleared(s0.countries_v(), Side::US, CName::Nicaragua));
                    assert(allowed@ == crate::card::stack::ortega_choices(s0));
                    assert(ops_offset_spec(*state, Side::USSR) == ops_offset_spec(s0, Side::USSR));
                }
                state.add_pending(d);
                proof { crate::card::stack::lemma_push_one(s0, s0.pending_views(), dview(d)); }
            },
            Card::Terrorism => {
                terrorism(state, rng, side);
            },
            Card::Iran_Contra_Scandal => state.add_effect(Side::USSR, Effect::IranContra),
            Card::Chernobyl => {
                let allowed = crate::state::index_range(0, 6);
                proof { assert(allowed@ =~= Seq::new(6, |i: int| i as usize)); }
                let x = Decision::new(Side::US, Action::BlockRegion, Allowed::new_owned(allowed));
                state.add_pending(x);
                proof { crate::card::stack::lemma_push_one(s0, s0.pending_views(), dview(x)); }
            },
            Card::Tear_Down_This_Wall => {
                proof { lemma_cname_index_inverse(CName::EGermany); }
                state.bump(Side::US, CName::EGermany.index(), 3);
                let ops = self.modified_ops(Side::US, state);
                let d = Decision::conduct_ops(Side::US, ops);
                if let Some(i) = state.effect_pos(Side::USSR, Effect::WillyBrandt) {
                    state.clear_effect(Side::USSR, i);
                }
                state.add_effect(Side::US, Effect::TearDown);
                proof {
                    assert(state.effects_v(Side::US).contains(Effect::CubanMissileCrisis) == s0.effects_v(Side::US).contains(Effect::CubanMissileCrisis)) by {
                        assert(state.effects_v(Side::US) == s0.effects_v(Side::US).push(Effect::TearDown));
                        if s0.effects_v(Side::US).contains(Effect::CubanMissileCrisis) {
                            let k = choose|k: int| 0 <= k < s0.effects_v(Side::US).len() && s0.effects_v(Side::US)[k] == Effect::CubanMissileCrisis;
                            assert(state.effects_v(Side::US)[k] == Effect::CubanMissileCrisis);
                        }
                    }
                }
                state.add_pending(d);
                proof { crate::card::stack::lemma_push_one(s0, s0.pending_views(), dview(d)); }
            },
            Card::An_Evil_Empire => {
                state.vp = state.vp + 1;
                if let Some(i) = state.effect_pos(Side::USSR, Effect::FlowerPower) {
                    state.clear_effect(Side::USSR, i);
                }
                state.add_effect(Side::US, Effect::EvilEmpire);
            },
            Card::Aldrich_Ames_Remix => {
                state.add_effect(Side::USSR, Effect::AldrichAmes);
                let allowed = state.deck.hand(Side::US).iter_indices();
                let x = Decision::new(Side::USSR, Action::Discard, Allowed::new_owned(allowed));
                state.add_pending(x);
                proof { crate::card::stack::lemma_push_one(s0, s0.pending_views(), dview(x)); }
            },
            Card::Pershing_II_Deployed => {
                state.vp = state.vp - 1;
                let list = Region::WesternEurope.all_countries();
                let allowed = state.filter_with_inf(&list, Side::US);
                let d = Decision::with_quantity(Side::USSR, Action::Remove, Allowed::new_owned(allowed), 3);
                state.add_pending(d);
                proof { crate::card::stack::lemma_push_one(s0, s0.pending_views(), dview(d)); }
            },
            Card::Solidarity => {
                proof { lemma_cname_index_inverse(CName::Poland); }
                state.bump(Side::US, CName::Poland.index(), 3);
            },
            Card::Iran_Iraq_War => {
                let targets = crate::country::iran_iraq();
                let x = Decision::new(side, Action::War, Allowed::new_owned(targets));
                state.add_pending(x);
                proof { crate::card::stack::lemma_push_one(s0, s0.pending_views(), dview(x)); }
            },
            Card::Defectors => {
                if *state.side() == Side::USSR && state.ar != 0 {
                    state.vp = state.vp + 1;
                }
            },
            Card::The_Cambridge_Five => {
                state.add_effect(Side::USSR, Effect::US_Scoring_Revealed);
                let scoring = state.deck.scoring_cards(Side::US);
                if !scoring.is_empty() {
                    let cards = scoring.card_vec();
                    let mut vec: Vec<usize> = Vec::new();
                    let mut i: usize = 0;
                    while i < cards.len()
                        invariant
                            i <= cards.len(),
                            vec@ == crate::card::stack::scored_regions(cards@.take(i as int)),
                        decreases cards.len() - i,
                    {
                        proof { assert(cards@.take(i + 1).drop_last() =~= cards@.take(i as int)); }
                        match cards[i].scoring_region() {
                            Some(region) => {
                                let mut more = region.all_countries();
                                vec.append(&mut more);
                            },
                            None => {},
                        }
                        i = i + 1;
                    }
                    proof { assert(cards@.take(cards.len() as int) =~= cards@); }
                    let x = Decision::new(Side::US, Action::Place, Allowed::new_owned(vec));
                    state.add_pending(x);
                    proof { crate::card::stack::lemma_push_one(s0, s0.pending_views(), dview(x)); }
                }
            },
            Card::Special_Relationship => {
                if state.has_effect(Side::US, Effect::Nato) {
                    state.vp = state.vp + 2;
                    let allowed = Region::WesternEurope.all_countries();
                    let x = Decision::new(Side::US, Action::Place, Allowed::new_owned(allowed));
                    state.add_pending(x);
                    proof { crate::card::stack::lemma_push_one(s0, s0.pending_views(), dview(x)); }
                } else {
                    proof { lemma_cname_index_inverse(CName::UK); }
                    let allowed = crate::country::neighbors_of(CName::UK.index());
                    let x = Decision::new(Side::US, Action::Place, Allowed::new_owned(allowed));
                    state.add_pending(x);
                    proof { crate::card::stack::lemma_push_one(s0, s0.pending_views(), dview(x)); }
                }
            },
            Card::NORAD => state.add_effect(Side::US, Effect::Norad),
            Card::Che => {
                state.set_limit(1);
                let mut list = crate::country::latin_america();
                let mut africa = Region::Africa.all_countries();
                list.append(&mut africa);
                let mut allowed: Vec<usize> = Vec::new();
                let mut k: usize = 0;
                let ghost m = s0.countries_v();
                let ghost pred = |i: usize| !m[i as int].bg && crate::country::influence_spec(m[i as int], Side::US) > 0;
                while k < list.len()
                    invariant
                        k <= list.len(),
                        state.wf(),
                        state.countries_v() == m,
                        pred == (|i: usize| !m[i as int].bg && crate::country::influence_spec(m[i as int], Side::US) > 0),
                        list@ == crate::country::region_countries(Region::SouthAmerica)
                            + crate::country::region_countries(Region::CentralAmerica)
                            + crate::country::region_countries(Region::Africa),
                        allowed@ == list@.take(k as int).filter(pred),
                    decreases list.len() - k,
                {
                    proof {
                        reveal_with_fuel(Seq::<_>::filter, 1);
                        assert(list@.take(k + 1).drop_last() =~= list@.take(k as int));
                    }
                    let c = state.countries[list[k]];
                    if !c.bg && c.has_influence(Side::US) {
                        allowed.push(list[k]);
                    }
                    k = k + 1;
                }
                let ops = self.modified_ops(Side::USSR, state);
                let d = Decision::with_quantity(Side::USSR, Action::Coup, Allowed::new_owned(allowed), ops);
                proof {
                    assert(list@.take(list.len() as int) =~= list@);
                    assert(allowed@ == crate::card::stack::che_choices(s0));
                }
                state.add_pending(d);
                proof { crate::card::stack::lemma_push_one(s0, s0.pending_views(), dview(d)); }
            },
            Card::Yuri_And_Samantha => state.add_effect(Side::USSR, Effect::Yuri),
            Card::AWACS => {
                proof { lemma_cname_index_inverse(CName::SaudiaArabia); }
                state.add_effect(Side::US, Effect::AWACS);
                state.bump(Side::US, CName::SaudiaArabia.index(), 2);
            },
            _ => {},
        }
        proof { crate::card::stack::lemma_push_none(s0, s0.pending_views()); }
    }
}

/// Terrorism: a card drawn at random leaves the opponent's hand, and a second one when the
/// USSR plays it under the Iranian Hostage Crisis.
fn terrorism<R: TwilightRand>(state: &mut GameState, rng: &mut R, side: Side)
    requires
        old(state).wf(),
        side != Side::Neutral,
        old(state).event_v() == Some(Card::Terrorism),
        old(state).deck_v().china_holder() != Side::Neutral,
        rng_fits(Card::Terrorism, *old(state), side, *old(rng)),
    ensures
        final(state).wf(),
        final(state).countries_v() == old(state).countries_v(),
        final(state).vp_v() == old(state).vp_v(),
        final(state).defcon_v() == old(state).defcon_v(),
        final(state).mil_ops_v() == old(state).mil_ops_v(),
        final(state).space_v() == old(state).space_v(),
        final(state).attempts_v() == old(state).attempts_v(),
        final(state).effects_v(Side::US) == old(state).effects_v(Side::US),
        final(state).effects_v(Side::USSR) == old(state).effects_v(Side::USSR),
        final(state).event_v() == old(state).event_v(),
        final(state).turn_v() == old(state).turn_v(),
        final(state).ar_v() == old(state).ar_v(),
        final(state).restrict_v() == old(state).restrict_v(),
        final(state).pending_views() == old(state).pending_views(),
        crate::card::stack::deck_event(Card::Terrorism, *old(state), *final(state), side),
{
    let ghost s0 = *state;
    let opp = side.opposite();
    let card = state.deck.random_card(opp, rng);
    if let Some(c) = card {
        state.discard_card(opp, c);
    }
    let ghost dm = state.deck_v();
    proof { assert(crate::card::stack::random_discard(s0.deck_v(), dm, opp)); }
    if side == Side::USSR && state.has_effect(Side::USSR, Effect::TerrorismPlus) {
        proof { (*rng).lemma_picks_freely(state.deck_v(), opp); }
        let card2 = state.deck.random_card(opp, rng);
        if let Some(c) = card2 {
            state.discard_card(opp, c);
        }
        proof { assert(crate::card::stack::random_discard(dm, state.deck_v(), opp)); }
    }
}

/// Whether a card has an event with options, resolved by a special decision.
pub open spec fn is_special_card(c: Card) -> bool {
    crate::card::max_e_choices_spec(c) > 1
}

/// Whether the chosen option of a special event can be carried out: the options are those
/// of the cards with two, Olympic Games' boycott roll-off repeats on ties as long as it takes
/// and so is not offered here, and the counters stay within `i8`.
pub open(crate) spec fn special_fits(c: Card, s: GameState, side: Side, choice: usize) -> bool {
    &&& is_special_card(c)
    &&& c == Card::Olympic_Games ==> choice != 0
    &&& c == Card::South_African_Unrest && choice == 0 ==> room(s, CName::SouthAfrica, Side::USSR, 2)
    &&& c == Card::Wargames && choice != 0 ==> vp_room(s, if side == Side::USSR { 6 } else { -6 })
}

/// What an event reads of a position does not include the resolving event or the pending
/// decisions.
pub proof fn lemma_event_frame<R: TwilightRand>(c: Card, s: GameState, t: GameState, side: Side, rng: R)
    requires
        t.countries_v() == s.countries_v(),
        t.effects_v(Side::US) == s.effects_v(Side::US),
        t.effects_v(Side::USSR) == s.effects_v(Side::USSR),
        t.deck_v() == s.deck_v(),
        t.vp_v() == s.vp_v(),
        t.defcon_v() == s.defcon_v(),
        t.mil_ops_v() == s.mil_ops_v(),
        t.space_v() == s.space_v(),
        t.attempts_v() == s.attempts_v(),
        t.turn_v() == s.turn_v(),
        t.ar_v() == s.ar_v(),
        t.side_v() == s.side_v(),
    ensures
        event_fits(c, t, side) == event_fits(c, s, side),
        rng_fits(c, t, side, rng) == rng_fits(c, s, side, rng),
        can_event_spec(c, t, side) == can_event_spec(c, s, side),
{
    assert(crate::card::rules::holds_opp_event(t) == crate::card::rules::holds_opp_event(s));
    assert(alliance_count(t) == alliance_count(s));
    assert(small_step_vp(t, side) == small_step_vp(s, side));
    assert(space_vp(t, side) == space_vp(s, side));
    assert(forall|r: Region| #[trigger] score_outcome(r, t) == score_outcome(r, s)) by {
        assert forall|r: Region| #[trigger] score_outcome(r, t) == score_outcome(r, s) by {
            assert(crate::country::scoring::adjusted_tally(r, t, t.turn_v() <= 10) == crate::country::scoring::adjusted_tally(r, s, s.turn_v() <= 10));
            assert(crate::country::scoring::adjacency_points(r, t) == crate::country::scoring::adjacency_points(r, s));
        }
    }
}

impl Card {
    /// Plays this card's event for the side it belongs to (or the phasing side for a neutral
    /// card). Returns whether the event could be played; if not, nothing changes. An event
    /// with options pushes a decision between them; any other pushes the clearing of the
    /// event and above it the decisions the event asks for, and may set a limit on repeated
    /// choices.
    pub fn event<R: TwilightRand>(&self, state: &mut GameState, rng: &mut R) -> (r: bool)
        requires
            old(state).wf(),
            *self != Card::OPEC,
            can_event_spec(*self, *old(state), event_side(*self, *old(state)))
                ==> event_fits(*self, *old(state), event_side(*self, *old(state)))
                    && rng_fits(*self, *old(state), event_side(*self, *old(state)), *old(rng)),
        ensures
            r == can_event_spec(*self, *old(state), event_side(*self, *old(state))),
            !r ==> *final(state) == *old(state),
            !r ==> *final(rng) == *old(rng),
            r ==> final(state).wf(),
            r ==> final(state).event_v() == Some(*self),
            r ==> crate::card::board::event_board(*self, *old(state), *final(state), event_side(*self, *old(state))),
            r && !is_special_card(*self) ==> crate::card::stack::event_stack(*self, *old(state), *final(state), event_side(*self, *old(state))),
            r && !is_special_card(*self) ==> crate::card::stack::deck_event(*self, *old(state), *final(state), event_side(*self, *old(state))),
            r && is_special_card(*self) ==> final(state).deck_v() == old(state).deck_v(),
            final(state).turn_v() == old(state).turn_v(),
            final(state).ar_v() == old(state).ar_v(),
            r && is_special_card(*self) ==> final(state).pending_views() == old(state).pending_views() + seq![
                (Side::Neutral, Action::ClearEvent, AllowedView::Known(Seq::empty()), 1i8),
                (if *self == Card::Olympic_Games { opposite_spec(event_side(*self, *old(state))) } else { event_side(*self, *old(state)) },
                    Action::SpecialEvent, AllowedView::Known(crate::card::rules::e_choices_spec(*self, *old(state))->0), 1i8),
            ],
    {
        let side = match self.side() {
            Side::US => Side::US,
            Side::USSR => Side::USSR,
            Side::Neutral => match state.current_event() {
                Some(Card::Grain_Sales) => Side::US,
                _ => *state.side(),
            },
        };
        if !self.can_event(state, side) {
            return false;
        }
        self.play_event(state, rng, side);
        true
    }

    /// Plays an event that can be played, for the given side.
    fn play_event<R: TwilightRand>(&self, state: &mut GameState, rng: &mut R, side: Side)
        requires
            old(state).wf(),
            side != Side::Neutral,
            can_event_spec(*self, *old(state), side),
            event_fits(*self, *old(state), side),
            rng_fits(*self, *old(state), side, *old(rng)),
            card_att(*self).side != Side::Neutral ==> side == card_att(*self).side,
        ensures
            final(state).wf(),
            final(state).event_v() == Some(*self),
            final(state).turn_v() == old(state).turn_v(),
            final(state).ar_v() == old(state).ar_v(),
            crate::card::board::event_board(*self, *old(state), *final(state), side),
            !is_special_card(*self) ==> crate::card::stack::event_stack(*self, *old(state), *final(state), side),
            !is_special_card(*self) ==> crate::card::stack::deck_event(*self, *old(state), *final(state), side),
            is_special_card(*self) ==> final(state).deck_v() == old(state).deck_v(),
            is_special_card(*self) ==> final(state).pending_views() == old(state).pending_views() + seq![
                (Side::Neutral, Action::ClearEvent, AllowedView::Known(Seq::empty()), 1i8),
                (if *self == Card::Olympic_Games { opposite_spec(side) } else { side },
                    Action::SpecialEvent, AllowedView::Known(crate::card::rules::e_choices_spec(*self, *old(state))->0), 1i8),
            ],
    {
        let ghost s0 = *state;
        state.set_event(*self);
        if self.max_e_choices() > 1 {
            let legal = self.e_choices(state).unwrap();
            let d = if *self == Card::Olympic_Games {
                Decision::new(side.opposite(), Action::SpecialEvent, Allowed::new_owned(legal))
            } else {
                Decision::new(side, Action::SpecialEvent, Allowed::new_owned(legal))
            };
            let clear = Decision::new(Side::Neutral, Action::ClearEvent, Allowed::new_empty());
            proof {
                assert(crate::card::rules::e_choices_spec(*self, *state) == crate::card::rules::e_choices_spec(*self, s0));
            }
            state.add_pending(clear);
            state.add_pending(d);
            proof {
                assert(crate::card::board::event_board(*self, s0, *state, side));
            }
            return;
        }
        let clear = Decision::new(Side::Neutral, Action::ClearEvent, Allowed::new_empty());
        state.add_pending(clear);
        proof { lemma_event_frame(*self, s0, *state, side, *rng); }
        let ghost s1 = *state;
        let i = self.index();
        if i < 31 {
            self.event_a(state, rng, side);
            proof {
                let base = s0.pending_views() + seq![(Side::Neutral, Action::ClearEvent, AllowedView::Known(Seq::empty()), 1i8)];
                assert(s1.pending_views() =~= base);
                crate::card::stack::lemma_stack_a_frame(*self, s0, s1, *state, side, base);
            }
        } else if i < 61 {
            self.event_b(state, rng, side);
            proof {
                let base = s0.pending_views() + seq![(Side::Neutral, Action::ClearEvent, AllowedView::Known(Seq::empty()), 1i8)];
                assert(s1.pending_views() =~= base);
                crate::card::stack::lemma_stack_b_frame(*self, s0, s1, *state, side, base);
            }
        } else if i < 77 {
            self.event_c(state, rng, side);
            proof {
                let base = s0.pending_views() + seq![(Side::Neutral, Action::ClearEvent, AllowedView::Known(Seq::empty()), 1i8)];
                assert(s1.pending_views() =~= base);
                crate::card::stack::lemma_stack_c_frame(*self, s0, s1, *state, base);
            }
        } else if i < 91 {
            self.event_d(state, rng, side);
            proof {
                let base = s0.pending_views() + seq![(Side::Neutral, Action::ClearEvent, AllowedView::Known(Seq::empty()), 1i8)];
                assert(s1.pending_views() =~= base);
                crate::card::stack::lemma_stack_d_frame(*self, s0, s1, *state, base);
            }
        } else {
            self.event_e(state, rng, side);
            proof {
                let base = s0.pending_views() + seq![(Side::Neutral, Action::ClearEvent, AllowedView::Known(Seq::empty()), 1i8)];
                assert(s1.pending_views() =~= base);
                crate::card::stack::lemma_stack_e_frame(*self, s0, s1, *state, side, base);
            }
        }
        proof {
            crate::card::board::lemma_board_frame(*self, s0, s1, *state, side);
        }
    }
}

impl Card {
    /// Carries out the chosen option of this card's event, for the side it belongs to (or the
    /// phasing side for a neutral card). Returns whether the event could be played; if not,
    /// nothing changes.
    pub fn special_event<R: TwilightRand>(&self, state: &mut GameState, choice: usize, rng: &mut R) -> (r: bool)
        requires
            old(state).wf(),
            *self != Card::OPEC,
            can_event_spec(*self, *old(state), event_side(*self, *old(state)))
                ==> special_fits(*self, *old(state), event_side(*self, *old(state)), choice),
        ensures
            r == can_event_spec(*self, *old(state), event_side(*self, *old(state))),
            !r ==> *final(state) == *old(state),
            !r ==> *final(rng) == *old(rng),
            r ==> final(state).wf(),
            r ==> crate::card::board::special_board(*self, *old(state), *final(state), event_side(*self, *old(state)), choice),
            r ==> crate::card::stack::stack_after(*old(state), *final(state), old(state).pending_views(),
                crate::card::stack::special_pushes(*self, *old(state), event_side(*self, *old(state)), choice),
                crate::card::stack::special_limit(*self, choice)),
            final(state).turn_v() == old(state).turn_v(),
            final(state).ar_v() == old(state).ar_v(),
    {
        let side = match self.side() {
            Side::US => Side::US,
            Side::USSR => Side::USSR,
            Side::Neutral => match state.current_event() {
                Some(Card::Grain_Sales) => Side::US,
                _ => *state.side(),
            },
        };
        if !self.can_event(state, side) {
            return false;
        }
        let ghost s0 = *state;
        match self {
            Card::Blockade => {
                if choice == 0 {
                    proof { lemma_cname_index_inverse(CName::WGermany); }
                    state.remove_all(Side::US, CName::WGermany.index());
                } else {
                    let cards = crate::tensor::encode::cards_to_indices(&state.cards_at_least(Side::US, 3));
                    let x = Decision::new(Side::US, Action::Discard, Allowed::new_owned(cards));
                    state.add_pending(x);
                    proof { crate::card::stack::lemma_push_one(s0, s0.pending_views(), dview(x)); }
                }
            },
            Card::Latin_American_Debt_Crisis => {
                if choice == 0 {
                    state.set_limit(1);
                    let (sa_start, _) = Region::SouthAmerica.low_high();
                    let list = Region::SouthAmerica.all_countries();
                    let mut allowed: Vec<usize> = Vec::new();
                    let mut k: usize = 0;
                    let ghost m = s0.countries_v();
                    let ghost pred = |i: usize| crate::country::influence_spec(m[i as int], Side::USSR) > 0;
                    let ghost f = |i: usize| (i - crate::country::low_high_spec(Region::SouthAmerica).0) as usize;
                    while k < list.len()
                        invariant
                            k <= list.len(),
                            state.wf(),
                            state.countries_v() == m,
                            pred == (|i: usize| crate::country::influence_spec(m[i as int], Side::USSR) > 0),
                            f == (|i: usize| (i - crate::country::low_high_spec(Region::SouthAmerica).0) as usize),
                            list@ == crate::country::region_countries(Region::SouthAmerica),
                            sa_start == crate::country::low_high_spec(Region::SouthAmerica).0,
                            allowed@ == list@.take(k as int).filter(pred).map_values(f),
                        decreases list.len() - k,
                    {
                        proof {
                            reveal_with_fuel(Seq::<_>::filter, 1);
                            assert(list@.take(k + 1).drop_last() =~= list@.take(k as int));
                            crate::state::lemma_wf_country(*state, list@[k as int] as int);
                        }
                        let x = list[k];
                        if state.countries[x].has_influence(Side::USSR) {
                            allowed.push(x - sa_start);
                            proof {
                                assert(list@.take(k + 1).filter(pred).map_values(f)
                                    =~= list@.take(k as int).filter(pred).map_values(f).push(f(x)));
                            }
                        } else {
                            proof {
                                assert(list@.take(k + 1).filter(pred) =~= list@.take(k as int).filter(pred));
                            }
                        }
                        k = k + 1;
                    }
                    proof {
                        assert(list@.take(list.len() as int) =~= list@);
                        assert(allowed@ =~= crate::card::stack::debt_crisis_choices(s0));
                    }
                    let d = Decision::with_quantity(Side::USSR, Action::DoubleInf, Allowed::new_owned(allowed), 2);
                    state.add_pending(d);
                    proof { crate::card::stack::lemma_push_one(s0, s0.pending_views(), dview(d)); }
                } else {
                    let cards = crate::tensor::encode::cards_to_indices(&state.cards_at_least(Side::US, 3));
                    let x = Decision::new(Side::US, Action::Discard, Allowed::new_owned(cards));
                    state.add_pending(x);
                    proof { crate::card::stack::lemma_push_one(s0, s0.pending_views(), dview(x)); }
                }
            },
            Card::Warsaw_Pact_Formed => {
                if !state.has_effect(Side::US, Effect::AllowNato) {
                    state.add_effect(Side::US, Effect::AllowNato);
                }
                let list = Region::EasternEurope.all_countries();
                if choice == 0 {
                    let allowed = state.filter_not_controlled(&list, side.opposite());
                    let x = Decision::with_quantity(Side::USSR, Action::Remove, Allowed::new_owned(allowed), 4);
                    state.add_pending(x);
                    proof { crate::card::stack::lemma_push_one(s0, s0.pending_views(), dview(x)); }
                } else {
                    state.set_limit(2);
                    let x = Decision::with_quantity(Side::USSR, Action::Place, Allowed::new_owned(list), 5);
                    state.add_pending(x);
                    proof { crate::card::stack::lemma_push_one(s0, s0.pending_views(), dview(x)); }
                }
            },
            Card::Olympic_Games => {
                let d = state.defcon() - 1;
                state.set_defcon(d);
                let modifier = state.base_ops_offset(side);
                let x = if modifier < 0 {
                    Decision::conduct_ops(side, 4 + modifier)
                } else {
                    Decision::conduct_ops(side, 4)
                };
                proof { assert(ops_offset_spec(*state, side) == ops_offset_spec(s0, side)); }
                state.add_pending(x);
                proof { crate::card::stack::lemma_push_one(s0, s0.pending_views(), dview(x)); }
            },
            Card::Junta => {
                let action = if choice == 0 { Action::Coup } else { Action::Realignment };
                let list = crate::country::latin_america();
                let legal = state.filter_with_inf(&list, side.opposite());
                let ops = self.modified_ops(side, state);
                let d2 = Decision::with_quantity(side, action, Allowed::new_owned(legal), ops);
                state.add_pending(d2);
                let d1 = Decision::new(side, Action::Place, Allowed::new_owned(crate::country::latin_america()));
                state.add_pending(d1);
                proof {
                    crate::card::stack::lemma_push_one(s0, s0.pending_views(), dview(d2));
                    crate::card::stack::lemma_push_next(s0, s0.pending_views(), seq![dview(d2)], dview(d1));
                    assert(seq![dview(d2)].push(dview(d1)) =~= seq![dview(d2), dview(d1)]);
                }
            },
            Card::South_African_Unrest => {
                if choice == 0 {
                    proof { lemma_cname_index_inverse(CName::SouthAfrica); }
                    state.bump(Side::USSR, CName::SouthAfrica.index(), 2);
                } else {
                    let allowed = vec![CName::Angola.index(), CName::Botswana.index()];
                    proof {
                        lemma_cname_index_inverse(CName::Angola);
                        lemma_cname_index_inverse(CName::Botswana);
                    }
                    let d = Decision::with_quantity(Side::USSR, Action::Place, Allowed::new_owned(allowed), 2);
                    state.add_pending(d);
                    proof { crate::card::stack::lemma_push_one(s0, s0.pending_views(), dview(d)); }
                }
            },
            _ => {
                if choice != 0 {
                    if let Side::USSR = side {
                        state.vp = state.vp + 6;
                    } else {
                        state.vp = state.vp - 6;
                    }
                    if state.vp < 0 {
                        state.vp = -20;
                    } else {
                        state.vp = 20;
                    }
                }
            },
        }
        proof { crate::card::stack::lemma_push_none(s0, s0.pending_views()); }
        true
    }
}

} // verus!
