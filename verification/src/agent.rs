use vstd::prelude::*;
use crate::action::{Action, AllowedView, Decision, CUBAN_OFFSET, PASS};
use crate::card::Card;
use crate::card::deck::{bits_to_cards, hand_pile};
use crate::country::Side;
use crate::state::GameState;
use crate::tensor::encode::{card_idx, encode_spec, positions};
use crate::tensor::{decode_spec, DecodedChoice, OutputIndex};

verus! {

/// Whether a list of output positions holds a given one.
fn holds_index(legal: &Vec<OutputIndex>, x: OutputIndex) -> (r: bool)
    ensures
        r == legal@.contains(x),
{
    let mut i: usize = 0;
    while i < legal.len()
        invariant
            i <= legal@.len(),
            forall|j: int| 0 <= j < i ==> legal@[j] != x,
        decreases legal@.len() - i,
    {
        if legal[i] == x {
            return true;
        }
        i = i + 1;
    }
    false
}

/// The first position of a list, from `i` on, that is not passing.
pub open spec fn first_non_pass(legal: Seq<OutputIndex>, i: int) -> Option<OutputIndex>
    decreases legal.len() - i,
{
    if 0 <= i < legal.len() {
        if legal[i]@ != PASS {
            Some(legal[i])
        } else {
            first_non_pass(legal, i + 1)
        }
    } else {
        None
    }
}

/// Whether a list of legal positions is the choice of resolving the Cuban Missile Crisis:
/// two to four positions whose first one that is not passing removes influence for it.
pub open spec fn cuban_choice(legal: Seq<OutputIndex>) -> bool {
    &&& 2 <= legal.len() <= 4
    &&& first_non_pass(legal, 0) matches Some(x) && CUBAN_OFFSET <= x@ <= CUBAN_OFFSET + 3
}

/// Whether a list of legal positions is the choice of resolving the Cuban Missile Crisis.
pub fn is_cuban_choice(legal: &Vec<OutputIndex>) -> (r: bool)
    ensures
        r == cuban_choice(legal@),
{
    if 2 <= legal.len() && legal.len() <= 4 {
        let mut k: usize = 0;
        while k < legal.len() && legal[k].inner() == PASS
            invariant
                k <= legal@.len(),
                first_non_pass(legal@, k as int) == first_non_pass(legal@, 0),
            decreases legal@.len() - k,
        {
            k = k + 1;
        }
        if k < legal.len() {
            let x = legal[k].inner();
            return CUBAN_OFFSET <= x && x <= CUBAN_OFFSET + 3;
        }
    }
    false
}

/// An agent that plays a script of output positions, for replaying a recorded game. The
/// script is kept with the next choice last.
pub struct ScriptedAgent {
    pub choices: Vec<OutputIndex>,
}

impl ScriptedAgent {
    /// An agent that answers with the given positions, first to last.
    pub fn new(choices: &Vec<OutputIndex>) -> (r: Self)
        ensures
            r.choices@ == choices@.reverse(),
    {
        let mut v: Vec<OutputIndex> = Vec::new();
        let mut i: usize = choices.len();
        while i > 0
            invariant
                i <= choices@.len(),
                v@ == choices@.subrange(i as int, choices@.len() as int).reverse(),
            decreases i,
        {
            i = i - 1;
            v.push(choices[i]);
            proof {
                assert(v@ =~= choices@.subrange(i as int, choices@.len() as int).reverse());
            }
        }
        proof {
            assert(choices@.subrange(0, choices@.len() as int) =~= choices@);
        }
        ScriptedAgent { choices: v }
    }

    /// Takes the next position off the script when it is the one taken by a decision that
    /// had a single legal answer, and says whether it did.
    pub fn trivial_action(&mut self, action: Option<OutputIndex>) -> (r: bool)
        ensures
            r == (old(self).choices@.len() > 0 && action == Some(old(self).choices@.last())),
            r ==> final(self).choices@ == old(self).choices@.drop_last(),
            !r ==> final(self).choices@ == old(self).choices@,
    {
        let should_pop = match (self.peek(), action) {
            (Some(next), Some(taken)) => taken == next,
            _ => false,
        };
        if should_pop {
            self.choices.pop();
        }
        should_pop
    }

    /// Takes the next position off the script.
    fn next(&mut self) -> (r: Option<OutputIndex>)
        ensures
            old(self).choices@.len() == 0 ==> r is None && final(self).choices@ == old(self).choices@,
            old(self).choices@.len() > 0 ==> r == Some(old(self).choices@.last())
                && final(self).choices@ == old(self).choices@.drop_last(),
    {
        self.choices.pop()
    }

    /// The next position of the script.
    fn peek(&self) -> (r: Option<OutputIndex>)
        ensures
            self.choices@.len() == 0 ==> r is None,
            self.choices@.len() > 0 ==> r == Some(self.choices@.last()),
    {
        let n = self.choices.len();
        if n == 0 {
            None
        } else {
            Some(self.choices[n - 1])
        }
    }

    /// Answers a decision with the next position of the script, which must be legal. For the
    /// choice of resolving the Cuban Missile Crisis the script may not have recorded an
    /// answer: the agent then passes and keeps its script.
    pub fn decide(&mut self, _state: &GameState, legal: Vec<OutputIndex>) -> (r: DecodedChoice)
        requires
            old(self).choices@.len() > 0,
            !cuban_choice(legal@) ==> legal@.contains(old(self).choices@.last()),
        ensures
            cuban_choice(legal@) && !legal@.contains(old(self).choices@.last()) ==> {
                &&& r == decode_spec(PASS)
                &&& final(self).choices@ == old(self).choices@
            },
            !(cuban_choice(legal@) && !legal@.contains(old(self).choices@.last())) ==> {
                &&& r == decode_spec(old(self).choices@.last()@)
                &&& final(self).choices@ == old(self).choices@.drop_last()
            },
    {
        if is_cuban_choice(&legal) {
            let peek = self.peek().unwrap();
            if holds_index(&legal, peek) {
                return self.next().unwrap().decode();
            } else {
                return OutputIndex::new(PASS).decode();
            }
        }
        let next = self.next().unwrap();
        next.decode()
    }
}

/// The legal output positions of a side's headline: the cards of its hand but the China Card
/// and UN Intervention.
pub fn legal_headline(agent: Side, state: &GameState) -> (r: Vec<OutputIndex>)
    requires
        state.wf(),
        agent != Side::Neutral,
    ensures
        positions(r@) == encode_spec((agent, Action::ChooseCard, AllowedView::Known(card_idx(
            bits_to_cards(state.deck_v().pile(hand_pile(agent))).filter(
            |c: Card| !(c == Card::The_China_Card || c == Card::UN_Intervention)))), 1), *state),
{
    let mut d = Decision::headline(agent, state);
    proof {
        let hand = bits_to_cards(state.deck_v().pile(hand_pile(agent)));
        let pred = |c: Card| !(c == Card::The_China_Card || c == Card::UN_Intervention);
        crate::tensor::encode::lemma_card_idx_below(hand.filter(pred));
        crate::tensor::encode::lemma_small_fits(card_idx(hand.filter(pred)), Action::ChooseCard);
    }
    d.encode(state)
}

} // verus!
