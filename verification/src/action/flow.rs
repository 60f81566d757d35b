use vstd::prelude::*;
use crate::action::{Action, Allowed, AllowedView, Decision};
use crate::card::{card_index, remove_quantity_spec, Card};
use crate::card::deck::{bits_to_cards, hand_pile};
use crate::country::{controller_spec, influence_spec, opposite_spec, Side, NUM_COUNTRIES};
use crate::state::{
    dview, forced_choices, limit_of, over_limit, period_spec, restriction_bites, GameState,
};
use crate::tensor::DecodedChoice;
use crate::tensor::encode::card_idx;

verus! {

/// The choices of a decision after the restriction on repeated choices.
pub open(crate) spec fn restricted(a: AllowedView, s: GameState, history: Seq<DecodedChoice>, action: Action) -> AllowedView {
    if restriction_bites(s, history, action) {
        AllowedView::Known(forced_choices(a, s).filter(|x: usize| !over_limit(history, action, limit_of(s.restrict_v()), x)))
    } else {
        a
    }
}

/// The next step of an influence placement: with one placement left, the countries the
/// opponent controls drop out, since breaking control costs two.
pub open(crate) spec fn next_influence_spec(d: (Side, Action, AllowedView, i8), s: GameState) -> Option<(Side, Action, AllowedView, i8)> {
    if d.3 == 0 {
        None
    } else if d.3 == 1 {
        let opp = opposite_spec(d.0);
        let kept = forced_choices(d.2, s).filter(|x: usize| controller_spec(s.countries_v()[x as int]) != opp);
        Some((d.0, d.1, AllowedView::Known(kept), d.3))
    } else {
        Some(d)
    }
}

/// The choice made last, if any.
pub open spec fn last_choice(history: Seq<DecodedChoice>) -> Option<usize> {
    if history.len() == 0 { None } else { history.last().choice }
}

/// The choices of the Ask Not What Your Country Can Do For You discard: none (0), or the
/// US cards other than the placeholder.
pub open(crate) spec fn ask_not_choices(s: GameState) -> Seq<usize> {
    seq![0usize] + card_idx(bits_to_cards(s.deck_v().pile(hand_pile(Side::US))).filter(|c: Card| c != Card::Dummy))
}

/// The decision that follows one choice of a decision made `quantity` times, or None when
/// it is used up. Influence placements drop countries they can no longer afford; removals
/// drop a country once it has nothing left to remove; Ask Not lists the US hand; and the
/// restriction on repeated choices applies otherwise.
pub open(crate) spec fn next_decision_spec(d: (Side, Action, AllowedView, i8), history: Seq<DecodedChoice>, s: GameState) -> Option<(Side, Action, AllowedView, i8)> {
    let q = (d.3 - 1) as i8;
    let d1 = (d.0, d.1, d.2, q);
    if q == 0 {
        None
    } else if d.1 == Action::Influence {
        next_influence_spec(d1, s)
    } else if d.1 == Action::Remove {
        let bites = restriction_bites(s, history, Action::Remove);
        if !bites && last_choice(history) is Some {
            let last = last_choice(history)->0;
            let card = s.event_v()->0;
            let (remove_side, _) = remove_quantity_spec(card, d.0, s.countries_v()[last as int], period_spec(s.turn_v()));
            if influence_spec(s.countries_v()[last as int], remove_side) > 0 {
                Some(d1)
            } else {
                Some((d.0, d.1, AllowedView::Known(forced_choices(d.2, s).filter(|x: usize| x != last)), q))
            }
        } else {
            Some((d.0, d.1, restricted(d.2, s, history, Action::Remove), q))
        }
    } else if d.1 == Action::ChooseCard && s.event_v() == Some(Card::Ask_Not) {
        Some((d.0, d.1, AllowedView::Known(ask_not_choices(s)), q))
    } else {
        Some((d.0, d.1, restricted(d.2, s, history, d.1), q))
    }
}

/// A decision made `q` times is over after its last choice; otherwise the next step is the
/// same agent and kind of action, one time fewer.
pub proof fn lemma_next_decision_steps(d: (Side, Action, AllowedView, i8), history: Seq<DecodedChoice>, s: GameState)
    requires
        d.3 > i8::MIN,
    ensures
        next_decision_spec(d, history, s) is None <==> d.3 == 1,
        next_decision_spec(d, history, s) matches Some(n) ==> n.0 == d.0 && n.1 == d.1 && n.3 == d.3 - 1,
{
}

/// Whether the next step of a decision can be computed: the quantity can go down, lists
/// that have to be read can be, countries named are on the map, and an event is resolving
/// where removals and card choices need one.
pub open(crate) spec fn next_decision_ok(d: (Side, Action, AllowedView, i8), history: Seq<DecodedChoice>, s: GameState) -> bool {
    let q = d.3 - 1;
    &&& s.wf()
    &&& d.3 > i8::MIN
    &&& q != 0 ==> {
        if d.1 == Action::Influence {
            q == 1 ==> !(d.2 is Unknown) && d.0 != Side::Neutral
                && forall|i: int| 0 <= i < forced_choices(d.2, s).len() ==> #[trigger] forced_choices(d.2, s)[i] < NUM_COUNTRIES
        } else if d.1 == Action::Remove {
            &&& restriction_bites(s, history, Action::Remove) ==> !(d.2 is Unknown)
            &&& !restriction_bites(s, history, Action::Remove) && last_choice(history) is Some ==> {
                &&& s.event_v() is Some
                &&& last_choice(history)->0 < NUM_COUNTRIES
                &&& s.event_v()->0 != Card::De_Stalinization ==> d.0 != Side::Neutral
                &&& !(d.2 is Unknown)
            }
        } else if d.1 == Action::ChooseCard {
            s.event_v() is Some && (s.event_v() != Some(Card::Ask_Not) ==> (restriction_bites(s, history, d.1) ==> !(d.2 is Unknown)))
        } else {
            restriction_bites(s, history, d.1) ==> !(d.2 is Unknown)
        }
    }
}

/// The decisions that follow from one choice, as their parts.
pub open spec fn dview_opt(d: Option<Decision>) -> Option<(Side, Action, AllowedView, i8)> {
    match d {
        Some(x) => Some(dview(x)),
        None => None,
    }
}

impl Decision {
    /// A decision of influence, coup or realignment targets for `q` operations.
    pub fn determine(agent: Side, action: Action, q: i8, state: &GameState) -> (r: Decision)
        requires
            state.wf(),
            agent != Side::Neutral,
            action == Action::Influence || action == Action::Coup || action == Action::Realignment,
            action == Action::Influence ==> q > 0,
        ensures
            r.agent == agent,
            r.action == action,
            r.quantity == q,
            r.allowed@ == AllowedView::Known(if action == Action::Influence {
                crate::country::access_spec(*state, agent).filter(|i: usize| crate::state::influence_ok(*state, agent, q, i))
            } else {
                crate::state::coup_targets(*state, agent)
            }),
    {
        let allowed = match action {
            Action::Influence => state.legal_influence(agent, q),
            _ => state.legal_coup_realign(agent),
        };
        Decision::with_quantity(agent, action, Allowed::new_owned(allowed), q)
    }

    /// The headline decision: the cards of a side's hand it may headline, which excludes the
    /// China Card and UN Intervention.
    pub fn headline(agent: Side, state: &GameState) -> (r: Self)
        requires
            state.wf(),
            agent != Side::Neutral,
        ensures
            r.agent == agent,
            r.action == Action::ChooseCard,
            r.quantity == 1,
            r.allowed@ == AllowedView::Known(card_idx(bits_to_cards(state.deck_v().pile(hand_pile(agent))).filter(
                |c: Card| !(c == Card::The_China_Card || c == Card::UN_Intervention)))),
    {
        let hand = state.deck.hand(agent).card_vec();
        let ghost pred = |c: Card| !(c == Card::The_China_Card || c == Card::UN_Intervention);
        let mut vec: Vec<usize> = Vec::new();
        let mut i: usize = 0;
        while i < hand.len()
            invariant
                i <= hand.len(),
                pred == (|c: Card| !(c == Card::The_China_Card || c == Card::UN_Intervention)),
                vec@ == card_idx(hand@.take(i as int).filter(pred)),
            decreases hand.len() - i,
        {
            proof {
                reveal_with_fuel(Seq::<_>::filter, 1);
                assert(hand@.take(i + 1).drop_last() =~= hand@.take(i as int));
            }
            let c = hand[i];
            if c.can_headline() {
                proof {
                    assert(card_idx(hand@.take(i + 1).filter(pred)) =~= card_idx(hand@.take(i as int).filter(pred)).push(card_index(c)));
                }
                vec.push(c.index());
            }
            i = i + 1;
        }
        proof { assert(hand@.take(hand.len() as int) =~= hand@); }
        Decision::new(agent, Action::ChooseCard, Allowed::new_owned(vec))
    }

    /// The next step of an influence placement.
    pub fn next_influence(self, state: &GameState) -> (r: Option<Decision>)
        requires
            state.wf(),
            self.action == Action::Influence,
            self.quantity == 1 ==> !self.allowed.is_unknown() && self.agent != Side::Neutral
                && forall|i: int| 0 <= i < forced_choices(self.allowed@, *state).len()
                    ==> #[trigger] forced_choices(self.allowed@, *state)[i] < NUM_COUNTRIES,
        ensures
            dview_opt(r) == next_influence_spec(dview(self), *state),
    {
        let mut d = self;
        if d.quantity == 0 {
            None
        } else if d.quantity == 1 {
            let opp = d.agent.opposite();
            let src = d.allowed.force_slice(state);
            let ghost s = src@;
            let ghost pred = |x: usize| controller_spec(state.countries_v()[x as int]) != opp;
            let mut out: Vec<usize> = Vec::new();
            let mut i: usize = 0;
            while i < src.len()
                invariant
                    i <= src.len(),
                    src@ == s,
                    state.wf(),
                    forall|j: int| 0 <= j < s.len() ==> #[trigger] s[j] < NUM_COUNTRIES,
                    pred == (|x: usize| controller_spec(state.countries_v()[x as int]) != opp),
                    out@ == s.take(i as int).filter(pred),
                decreases src.len() - i,
            {
                proof {
                    reveal_with_fuel(Seq::<_>::filter, 1);
                    assert(s.take(i + 1).drop_last() =~= s.take(i as int));
                }
                if !state.is_controlled(opp, src[i]) {
                    out.push(src[i]);
                }
                i = i + 1;
            }
            proof { assert(s.take(s.len() as int) =~= s); }
            d.allowed = Allowed::new_owned(out);
            Some(d)
        } else {
            Some(d)
        }
    }

    /// The decision that follows one choice of this decision, or None when it is used up.
    pub fn next_decision(self, history: &[DecodedChoice], state: &GameState) -> (r: Option<Decision>)
        requires
            next_decision_ok(dview(self), history@, *state),
        ensures
            dview_opt(r) == next_decision_spec(dview(self), history@, *state),
    {
        let mut d = self;
        d.quantity = d.quantity - 1;
        if d.quantity == 0 {
            return None;
        }
        match d.action {
            Action::Influence => d.next_influence(state),
            Action::Remove => {
                let changed_last = state.apply_restriction(history, &mut d);
                if !changed_last {
                    let n = history.len();
                    if n > 0 {
                        if let Some(last) = history[n - 1].choice {
                            let card = state.current_event().unwrap();
                            let country = &state.countries[last];
                            let period = state.period();
                            let (remove_side, _) = card.remove_quantity(d.agent, country, period);
                            if !state.countries[last].has_influence(remove_side) {
                                let src = d.allowed.force_slice(state);
                                let ghost s = src@;
                                let ghost pred = |x: usize| x != last;
                                let mut out: Vec<usize> = Vec::new();
                                let mut i: usize = 0;
                                while i < src.len()
                                    invariant
                                        i <= src.len(),
                                        src@ == s,
                                        pred == (|x: usize| x != last),
                                        out@ == s.take(i as int).filter(pred),
                                    decreases src.len() - i,
                                {
                                    proof {
                                        reveal_with_fuel(Seq::<_>::filter, 1);
                                        assert(s.take(i + 1).drop_last() =~= s.take(i as int));
                                    }
                                    if src[i] != last {
                                        out.push(src[i]);
                                    }
                                    i = i + 1;
                                }
                                proof { assert(s.take(s.len() as int) =~= s); }
                                d.allowed = Allowed::new_owned(out);
                            }
                        }
                    }
                }
                Some(d)
            },
            Action::ChooseCard => {
                if state.current_event().unwrap() == Card::Ask_Not {
                    let hand = state.deck.hand(Side::US).card_vec();
                    let mut allowed: Vec<usize> = vec![0];
                    let ghost pred = |c: Card| c != Card::Dummy;
                    proof { assert(allowed@ =~= seq![0usize] + card_idx(hand@.take(0).filter(pred))); }
                    let mut i: usize = 0;
                    while i < hand.len()
                        invariant
                            i <= hand.len(),
                            pred == (|c: Card| c != Card::Dummy),
                            allowed@ == seq![0usize] + card_idx(hand@.take(i as int).filter(pred)),
                        decreases hand.len() - i,
                    {
                        proof {
                            reveal_with_fuel(Seq::<_>::filter, 1);
                            assert(hand@.take(i + 1).drop_last() =~= hand@.take(i as int));
                        }
                        let c = hand[i];
                        if c != Card::Dummy {
                            proof {
                                assert(card_idx(hand@.take(i + 1).filter(pred)) =~= card_idx(hand@.take(i as int).filter(pred)).push(card_index(c)));
                                assert(seq![0usize] + card_idx(hand@.take(i + 1).filter(pred))
                                    =~= (seq![0usize] + card_idx(hand@.take(i as int).filter(pred))).push(card_index(c)));
                            }
                            allowed.push(c.index());
                        }
                        i = i + 1;
                    }
                    proof { assert(hand@.take(hand.len() as int) =~= hand@); }
                    d.allowed = Allowed::new_owned(allowed);
                    Some(d)
                } else {
                    state.apply_restriction(history, &mut d);
                    Some(d)
                }
            },
            _ => {
                state.apply_restriction(history, &mut d);
                Some(d)
            },
        }
    }
}

} // verus!
