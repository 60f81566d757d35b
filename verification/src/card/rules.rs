use vstd::prelude::*;
use crate::action::Action;
use crate::card::{card_att, ops_spec, Card, Effect};
use crate::card::deck::{bits_to_cards, hand_pile};
use crate::country::{
    cname_index, controller_spec, lemma_cname_index_inverse, opposite_spec, side_index, CName,
    Country, Side, NUM_COUNTRIES,
};
use crate::state::{lemma_wf_country, ops_offset_spec, period_spec, GameState, Period};

verus! {

/// The battleground lead of the US among the first `n` map entries: one for each
/// battleground it controls, less one for each the USSR controls.
pub open spec fn bg_lead(m: Seq<Country>, n: int) -> int
    decreases n,
{
    if n <= 0 {
        0
    } else {
        let c = m[n - 1];
        bg_lead(m, n - 1) + if c.bg && controller_spec(c) == Side::US {
            1int
        } else if c.bg && controller_spec(c) == Side::USSR {
            -1int
        } else {
            0int
        }
    }
}

/// The battleground lead is bounded by the number of entries counted.
pub proof fn lemma_bg_lead_bound(m: Seq<Country>, n: int)
    ensures
        n >= 0 ==> -n <= bg_lead(m, n) <= n,
    decreases n,
{
    if n > 0 {
        lemma_bg_lead_bound(m, n - 1);
    }
}

/// Whether the phasing side holds a card whose event belongs to its opponent.
pub open(crate) spec fn holds_opp_event(s: GameState) -> bool {
    let hand = bits_to_cards(s.deck_v().pile(hand_pile(s.side_v())));
    exists|i: int| 0 <= i < hand.len() && card_att(#[trigger] hand[i]).side == opposite_spec(s.side_v())
}

/// Whether a card's event may be played by a side in a position.
pub open(crate) spec fn can_event_spec(c: Card, s: GameState, eventer: Side) -> bool {
    match c {
        Card::The_China_Card => false,
        Card::Socialist_Governments => !s.effects_v(Side::US).contains(Effect::IronLady),
        Card::Arab_Israeli_War => !s.effects_v(Side::US).contains(Effect::CampDavid),
        Card::NATO => s.effects_v(Side::US).contains(Effect::AllowNato),
        Card::UN_Intervention => holds_opp_event(s),
        Card::Kitchen_Debates => bg_lead(s.countries_v(), (NUM_COUNTRIES - 2) as int) > 0,
        Card::Willy_Brandt => !s.effects_v(Side::US).contains(Effect::TearDown),
        Card::Muslim_Revolution => !s.effects_v(Side::US).contains(Effect::AWACS),
        Card::Flower_Power => !s.effects_v(Side::US).contains(Effect::EvilEmpire),
        Card::One_Small_Step => s.space_v()[side_index(eventer) as int] < s.space_v()[side_index(opposite_spec(eventer)) as int],
        Card::Wargames => s.defcon_v() == 2,
        Card::Solidarity => s.effects_v(Side::US).contains(Effect::AllowSolidarity),
        Card::The_Cambridge_Five => period_spec(s.turn_v()) != Period::Late,
        Card::Special_Relationship => controller_spec(s.countries_v()[cname_index(CName::UK) as int]) == Side::US,
        _ => true,
    }
}

/// How much influence one placement of a card's event puts in (or takes out of) a country.
pub open(crate) spec fn influence_quantity_spec(c: Card, s: GameState, action: Action, choice: usize) -> i8 {
    match c {
        Card::Independent_Reds => s.countries_v()[choice as int].ussr,
        Card::East_European_Unrest => if s.ar_v() >= 8 { 2 } else { 1 },
        Card::Warsaw_Pact_Formed => if action == Action::Place { 1 } else { s.countries_v()[choice as int].us },
        Card::Junta => 2,
        _ => 1,
    }
}

/// The event options of a card with more than one: Blockade and the Latin American Debt
/// Crisis offer their second option only when the US holds a card worth three operations.
pub open(crate) spec fn e_choices_spec(c: Card, s: GameState) -> Option<Seq<usize>> {
    match c {
        Card::Blockade | Card::Latin_American_Debt_Crisis => {
            let strong = bits_to_cards(s.deck_v().pile(hand_pile(Side::US))).filter(
                |x: Card| ops_spec(x, ops_offset_spec(s, Side::US) as i8) >= 3);
            if strong.len() == 0 { Some(seq![0usize]) } else { Some(seq![0usize, 1]) }
        },
        Card::Olympic_Games | Card::Warsaw_Pact_Formed | Card::Junta | Card::South_African_Unrest
        | Card::Wargames => Some(seq![0usize, 1]),
        _ => None,
    }
}

impl Card {
    /// How much influence one placement of this card's event puts in (or, for the Warsaw
    /// Pact, takes out of) the chosen country.
    pub fn influence_quantity(&self, state: &GameState, action: &Action, choice: usize) -> (r: i8)
        requires
            choice < NUM_COUNTRIES,
            state.countries_v().len() == NUM_COUNTRIES,
        ensures
            r == influence_quantity_spec(*self, *state, *action, choice),
    {
        match self {
            Card::Independent_Reds => state.countries[choice].ussr,
            Card::East_European_Unrest => {
                if state.ar >= 8 { 2 } else { 1 }
            },
            Card::Warsaw_Pact_Formed => {
                if let Action::Place = action {
                    1
                } else {
                    state.countries[choice].us
                }
            },
            Card::Junta => 2,
            _ => 1,
        }
    }

    /// Returns the list of event options an agent can select from this card, or None where
    /// the single option 0 is all there is.
    pub fn e_choices(&self, state: &GameState) -> (r: Option<Vec<usize>>)
        requires
            state.wf(),
        ensures
            r matches Some(v) ==> e_choices_spec(*self, *state) == Some(v@),
            r is None ==> e_choices_spec(*self, *state) is None,
    {
        match self {
            Card::Blockade | Card::Latin_American_Debt_Crisis => {
                if state.cards_at_least(Side::US, 3).len() == 0 {
                    let v = vec![0usize];
                    proof { assert(v@ =~= seq![0usize]); }
                    Some(v)
                } else {
                    let v = vec![0usize, 1];
                    proof { assert(v@ =~= seq![0usize, 1]); }
                    Some(v)
                }
            },
            Card::Olympic_Games | Card::Warsaw_Pact_Formed | Card::Junta | Card::South_African_Unrest
            | Card::Wargames => {
                let v = vec![0usize, 1];
                proof { assert(v@ =~= seq![0usize, 1]); }
                Some(v)
            },
            _ => None,
        }
    }

    /// Whether this card's event may be played by a side in a position. Asking about OPEC
    /// looks for No OPEC among the US effects, where it can never be, which is refused.
    pub fn can_event(&self, state: &GameState, eventer: Side) -> (r: bool)
        requires
            state.wf(),
            *self != Card::OPEC,
            *self == Card::One_Small_Step ==> eventer != Side::Neutral,
        ensures
            r == can_event_spec(*self, *state, eventer),
    {
        match self {
            Card::The_China_Card => false,
            Card::Socialist_Governments => !state.has_effect(Side::US, Effect::IronLady),
            Card::Arab_Israeli_War => !state.has_effect(Side::US, Effect::CampDavid),
            Card::NATO => state.has_effect(Side::US, Effect::AllowNato),
            Card::UN_Intervention => {
                let side = *state.side();
                let opp = side.opposite();
                let hand = state.deck.hand(side).card_vec();
                let mut found = false;
                let mut i: usize = 0;
                while i < hand.len()
                    invariant
                        i <= hand.len(),
                        side == state.side_v(),
                        opp == opposite_spec(side),
                        hand@ == bits_to_cards(state.deck_v().pile(hand_pile(side))),
                        found == exists|j: int| 0 <= j < i && card_att(#[trigger] hand@[j]).side == opp,
                    decreases hand.len() - i,
                {
                    if hand[i].side() == opp {
                        found = true;
                    }
                    proof {
                        if card_att(hand@[i as int]).side == opp {
                            assert(exists|j: int| 0 <= j < i + 1 && card_att(#[trigger] hand@[j]).side == opp);
                        }
                    }
                    i = i + 1;
                }
                found
            },
            Card::Kitchen_Debates => {
                let mut lead: i8 = 0;
                let mut i: usize = 0;
                while i < NUM_COUNTRIES - 2
                    invariant
                        i <= NUM_COUNTRIES - 2,
                        state.wf(),
                        lead == bg_lead(state.countries_v(), i as int),
                    decreases NUM_COUNTRIES - 2 - i,
                {
                    proof {
                        lemma_bg_lead_bound(state.countries_v(), i as int);
                        lemma_wf_country(*state, i as int);
                    }
                    let c = state.countries[i];
                    if c.bg {
                        match c.controller() {
                            Side::US => lead = lead + 1,
                            Side::USSR => lead = lead - 1,
                            _ => {},
                        }
                    }
                    i = i + 1;
                }
                lead > 0
            },
            Card::Willy_Brandt => !state.has_effect(Side::US, Effect::TearDown),
            Card::Muslim_Revolution => !state.has_effect(Side::US, Effect::AWACS),
            Card::Flower_Power => !state.has_effect(Side::US, Effect::EvilEmpire),
            Card::One_Small_Step => {
                state.space[eventer.index()] < state.space[eventer.opposite().index()]
            },
            Card::Wargames => state.defcon() == 2,
            Card::Solidarity => state.has_effect(Side::US, Effect::AllowSolidarity),
            Card::The_Cambridge_Five => state.period() != Period::Late,
            Card::Special_Relationship => {
                proof {
                    lemma_cname_index_inverse(CName::UK);
                    lemma_wf_country(*state, cname_index(CName::UK) as int);
                }
                state.countries[CName::UK.index()].controller() == Side::US
            },
            _ => true,
        }
    }

    /// The operations value of this card when played by a side, under the effects in play.
    pub fn modified_ops(&self, side: Side, state: &GameState) -> (r: i8)
        requires
            side != Side::Neutral,
        ensures
            r == ops_spec(*self, ops_offset_spec(*state, side) as i8),
    {
        let offset = state.base_ops_offset(side);
        proof { crate::card::lemma_card_ops_range(*self); }
        self.ops(offset)
    }
}

/// Whether asking for a card's event along a filter would reach OPEC, which cannot be asked.
pub open spec fn asks_opec(hand: Seq<Card>, side: Side, opp_only: bool) -> bool {
    hand.contains(Card::OPEC) && (opp_only ==> card_att(Card::OPEC).side == opposite_spec(side))
}

impl crate::card::Deck {
    /// Returns the cards which, if played by the given side, cause the opponent's event to
    /// fire, in card order.
    pub fn opp_events_fire(&self, side: Side, state: &GameState) -> (r: Vec<Card>)
        requires
            self.wf(),
            state.wf(),
            side != Side::Neutral,
            !asks_opec(bits_to_cards(self.pile(hand_pile(side))), side, true),
        ensures
            r@ == bits_to_cards(self.pile(hand_pile(side))).filter(
                |c: Card| card_att(c).side == opposite_spec(side) && can_event_spec(c, *state, side)),
    {
        let hand = self.hand(side).card_vec();
        let opp = side.opposite();
        let ghost pred = |c: Card| card_att(c).side == opposite_spec(side) && can_event_spec(c, *state, side);
        let mut out: Vec<Card> = Vec::new();
        let mut i: usize = 0;
        while i < hand.len()
            invariant
                i <= hand.len(),
                state.wf(),
                side != Side::Neutral,
                opp == opposite_spec(side),
                !asks_opec(hand@, side, true),
                pred == (|c: Card| card_att(c).side == opposite_spec(side) && can_event_spec(c, *state, side)),
                out@ == hand@.take(i as int).filter(pred),
            decreases hand.len() - i,
        {
            proof {
                reveal_with_fuel(Seq::<_>::filter, 1);
                assert(hand@.take(i + 1).drop_last() =~= hand@.take(i as int));
                if hand@[i as int] == Card::OPEC { assert(hand@.contains(Card::OPEC)); }
            }
            let c = hand[i];
            if c.side() == opp && c.can_event(state, side) {
                out.push(c);
            }
            i = i + 1;
        }
        proof { assert(hand@.take(hand.len() as int) =~= hand@); }
        out
    }

    /// Returns the cards of a side's hand whose event that side may play itself, in card
    /// order.
    pub fn can_event(&self, side: Side, state: &GameState) -> (r: Vec<Card>)
        requires
            self.wf(),
            state.wf(),
            side != Side::Neutral,
            !(bits_to_cards(self.pile(hand_pile(side))).contains(Card::OPEC) && side == Side::USSR),
        ensures
            r@ == bits_to_cards(self.pile(hand_pile(side))).filter(
                |c: Card| card_att(c).side != opposite_spec(side) && can_event_spec(c, *state, side)),
    {
        let hand = self.hand(side).card_vec();
        let opp = side.opposite();
        let ghost pred = |c: Card| card_att(c).side != opposite_spec(side) && can_event_spec(c, *state, side);
        let mut out: Vec<Card> = Vec::new();
        let mut i: usize = 0;
        while i < hand.len()
            invariant
                i <= hand.len(),
                state.wf(),
                side != Side::Neutral,
                opp == opposite_spec(side),
                !(hand@.contains(Card::OPEC) && side == Side::USSR),
                pred == (|c: Card| card_att(c).side != opposite_spec(side) && can_event_spec(c, *state, side)),
                out@ == hand@.take(i as int).filter(pred),
            decreases hand.len() - i,
        {
            proof {
                reveal_with_fuel(Seq::<_>::filter, 1);
                assert(hand@.take(i + 1).drop_last() =~= hand@.take(i as int));
                if hand@[i as int] == Card::OPEC { assert(hand@.contains(Card::OPEC)); }
            }
            let c = hand[i];
            if c.side() != opp && c.can_event(state, side) {
                out.push(c);
            }
            i = i + 1;
        }
        proof { assert(hand@.take(hand.len() as int) =~= hand@); }
        out
    }

    /// Returns the cards a side can play for operations alone: cards that are not scoring
    /// cards and are not opponent events that would fire, and the China Card when it may
    /// play it.
    pub fn can_play_ops(&self, side: Side, state: &GameState) -> (r: Vec<Card>)
        requires
            self.wf(),
            state.wf(),
            side != Side::Neutral,
            !asks_opec(bits_to_cards(self.pile(hand_pile(side))), side, true),
        ensures
            r@ == {
                let playable = bits_to_cards(self.pile(hand_pile(side))).filter(|c: Card| !card_att(c).scoring
                    && (card_att(c).side != opposite_spec(side) || !can_event_spec(c, *state, side)));
                if self.china_holder() == side && self.china_face_up() {
                    playable.push(Card::The_China_Card)
                } else {
                    playable
                }
            },
    {
        let hand = self.hand(side).card_vec();
        let opp = side.opposite();
        let ghost pred = |c: Card| !card_att(c).scoring
            && (card_att(c).side != opposite_spec(side) || !can_event_spec(c, *state, side));
        let mut out: Vec<Card> = Vec::new();
        let mut i: usize = 0;
        while i < hand.len()
            invariant
                i <= hand.len(),
                state.wf(),
                side != Side::Neutral,
                opp == opposite_spec(side),
                !asks_opec(hand@, side, true),
                pred == (|c: Card| !card_att(c).scoring
                    && (card_att(c).side != opposite_spec(side) || !can_event_spec(c, *state, side))),
                out@ == hand@.take(i as int).filter(pred),
            decreases hand.len() - i,
        {
            proof {
                reveal_with_fuel(Seq::<_>::filter, 1);
                assert(hand@.take(i + 1).drop_last() =~= hand@.take(i as int));
                if hand@[i as int] == Card::OPEC { assert(hand@.contains(Card::OPEC)); }
            }
            let c = hand[i];
            if !c.is_scoring() && (c.side() != opp || !c.can_event(state, side)) {
                out.push(c);
            }
            i = i + 1;
        }
        proof { assert(hand@.take(hand.len() as int) =~= hand@); }
        if self.china_available(side) {
            out.push(Card::The_China_Card);
        }
        out
    }
}

} // verus!
