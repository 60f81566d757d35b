use vstd::prelude::*;
use crate::action::{action_index_of, decision_ok, offset_spec, Action, Allowed, AllowedView, Decision, LazyRule, NUM_ACTIONS};
use crate::card::{Card, Effect};
use crate::card::deck::{bits_to_cards, hand_pile, held_scoring_spec, true_indices, Pile};
use crate::country::{region_countries, Region, Side};
use crate::country::scoring::score_outcome;
use crate::state::{dview, four_four_two_on, headlines_ready, last_event_below, ordered_headlines, GameState, TwilightRand, Win};
use crate::state::random::drawn_from;
use crate::state::resolve::{answer_taken, resolve_fits};
use crate::tensor::{DecodedChoice, OutputIndex};
use crate::tensor::encode::{card_idx, encode_ok, encode_spec, positions};

verus! {

/// Where a game stands: before the opening placement is done, choosing headlines,
/// resolving headlines, or in the action rounds.
#[derive(Clone, Copy, PartialEq, Eq, Structural, Debug)]
pub enum Status {
    Start,
    ChooseHL,
    ResolveHL,
    AR,
}

/// Where to start a game: at the very beginning, at the headline of a turn, or at the first
/// action round of a turn.
#[derive(Clone, Copy, PartialEq, Eq, Structural, Debug)]
pub enum Start {
    Beginning,
    HL(i8),
    FirstAR(i8),
}

/// A decision as its parts: agent, action, choices and quantity.
pub type DView = (Side, Action, AllowedView, i8);

/// The last action round of a turn for a side: the sixth in the early war; later the
/// seventh, or the eighth for a side ahead at the end of the space race, or for the US with
/// North Sea Oil.
pub open spec fn goal_ar_spec(s: GameState, side: Side) -> i8 {
    if s.turn_v() <= 3 {
        6
    } else {
        let us = s.space_v()[0];
        let ussr = s.space_v()[1];
        if side == Side::US {
            if (us == 8 && us > ussr) || s.effects_v(Side::US).contains(Effect::NorthSeaOil) { 8 } else { 7 }
        } else {
            if ussr == 8 && ussr > us { 8 } else { 7 }
        }
    }
}

/// The headline decision of a side, as its parts.
pub open spec fn headline_view(s: GameState, side: Side) -> DView {
    (side, Action::ChooseCard, AllowedView::Known(card_idx(bits_to_cards(s.deck_v().pile(hand_pile(side))).filter(
        |c: Card| !(c == Card::The_China_Card || c == Card::UN_Intervention)))), 1i8)
}

/// The two headline decisions as they go on the stack, the first to choose last: the US
/// chooses first when the USSR is ahead in the space race with at least four, else the USSR.
pub open spec fn hl_order_spec(s: GameState) -> Seq<DView> {
    let us = s.space_v()[0];
    let ussr = s.space_v()[1];
    if ussr > us && ussr >= 4 {
        seq![headline_view(s, Side::USSR), headline_view(s, Side::US)]
    } else {
        seq![headline_view(s, Side::US), headline_view(s, Side::USSR)]
    }
}

/// The decisions of the opening placement as they go on the stack: the USSR places six in
/// Eastern Europe, then the US seven in Western Europe, then two bonus influence.
pub open spec fn opening_spec() -> Seq<DView> {
    seq![
        (Side::US, Action::Place, AllowedView::Lazy(LazyRule::BonusInfluence), 1i8),
        (Side::US, Action::Place, AllowedView::Lazy(LazyRule::BonusInfluence), 1i8),
        (Side::US, Action::Place, AllowedView::Known(region_countries(Region::WesternEurope)), 7i8),
        (Side::USSR, Action::Place, AllowedView::Known(region_countries(Region::EasternEurope)), 6i8),
    ]
}

/// The views of a list of decisions.
pub open spec fn dviews(v: Seq<Decision>) -> Seq<DView> {
    v.map_values(|d: Decision| dview(d))
}

/// How many cards a hand is filled to at the start of a turn: eight in the early war, then
/// nine.
pub open spec fn hand_goal(turn: i8) -> usize {
    if turn <= 3 { 8 } else { 9 }
}

/// The choices of a list of output positions that belong to one kind of action, relative
/// to the first position of that kind.
pub open spec fn relative_choices(v: Seq<usize>, lower: nat, upper: nat) -> Seq<usize> {
    v.filter(|x: usize| lower <= x && x < upper).map_values(|x: usize| (x - lower) as usize)
}

/// The decision an answer turns the next decision into: the same one, or, for an answer of
/// another kind of action, a decision of that kind for the same agent and quantity whose
/// choices are the legal positions of that kind.
pub open spec fn reformed(d: DView, action: Action, s: GameState) -> DView {
    if action == d.1 {
        d
    } else {
        (d.0, action, AllowedView::Known(relative_choices(encode_spec(d, s),
            offset_spec(action_index_of(action) as nat), offset_spec((action_index_of(action) + 1) as nat))), d.3)
    }
}

/// A state that is another with its next decision taken off the stack.
pub open spec fn popped(s: GameState, s1: GameState) -> bool {
    &&& s1.same_but_pending(&s)
    &&& s1.pending_v() == s.pending_v().drop_last()
}

/// Whether the decision at the top of the stack is for neither side and is not an event,
/// such as the end of an action round or the clearing of an event.
pub open spec fn neutral_top(s: GameState) -> bool {
    s.pending_v().len() > 0 && s.pending_v().last().agent == Side::Neutral && s.pending_v().last().action != Action::Event
}

/// Whether an answer to the next decision can be taken once the decision is off the stack:
/// the decision can be listed where the answer is of another kind; the decision the answer
/// makes is well formed; a headline is chosen by a superpower with a card before the first
/// action round while the other headline waits; and anything else resolves.
pub open spec fn answer_fits<R: TwilightRand>(status: Status, rng: R, d: DView, decoded: DecodedChoice, s1: GameState) -> bool {
    let d2 = reformed(d, decoded.action, s1);
    &&& decoded.action != d.1 ==> encode_ok(d, s1) && action_index_of(decoded.action) + 1 < NUM_ACTIONS
    &&& decision_ok(d2.0, d2.1, d2.2)
    &&& if status == Status::ChooseHL {
        &&& s1.ar_v() == 0
        &&& d2.0 != Side::Neutral
        &&& decoded.choice is Some
        &&& s1.pending_v().len() > 0
    } else {
        resolve_fits(d2, decoded.choice, s1, rng)
    }
}

/// Whether a game can take an answer: its state is well formed with room for another action
/// round, a decision is pending, and
/// unless the answer passes it fits whatever the stack looks like once the decision is off.
pub open spec fn consume_fits<R: TwilightRand>(g: Game<R>, decoded: DecodedChoice) -> bool {
    &&& g.state.wf()
    &&& g.state.ar_v() < i8::MAX
    &&& g.state.pending_v().len() > 0
    &&& decoded.action != Action::Pass ==> forall|s1: GameState| #[trigger] popped(g.state, s1)
        ==> answer_fits(g.status, g.rng, dview(g.state.pending_v().last()), decoded, s1)
}

/// Whether the next decision, if any, waits for an agent: it is not one of neither side
/// that resolves without a choice.
pub open spec fn awaiting_agent(s: GameState) -> bool {
    !(s.pending_v().len() > 0 && s.pending_v().last().agent == Side::Neutral
        && s.pending_v().last().action != Action::Event)
}

/// The nearest event below a position is an event below it.
proof fn lemma_last_event_below(p: Seq<DView>, n: int)
    requires
        0 <= n <= p.len(),
    ensures
        last_event_below(p, n) < n,
        last_event_below(p, n) >= 0 ==> p[last_event_below(p, n)].1 == Action::Event,
    decreases n,
{
    if n > 0 && p[n - 1].1 != Action::Event {
        lemma_last_event_below(p, n - 1);
    }
}

/// The views of the stack end with the view of its last decision.
proof fn lemma_views_last(s: GameState)
    ensures
        s.pending_views().len() == s.pending_v().len(),
        s.pending_v().len() > 0 ==> s.pending_views().last() == dview(s.pending_v().last()),
{
}

/// Ordering the headlines keeps an event, or what was there, at the top of the stack.
proof fn lemma_ordered_top(p: Seq<DView>)
    requires
        headlines_ready(p),
        p.len() > 0,
        !(p.last().0 == Side::Neutral && p.last().1 != Action::Event),
    ensures
        ordered_headlines(p).len() == p.len(),
        !(ordered_headlines(p).last().0 == Side::Neutral && ordered_headlines(p).last().1 != Action::Event),
{
    let i1 = last_event_below(p, p.len() as int);
    lemma_last_event_below(p, p.len() as int);
    lemma_last_event_below(p, i1);
}

/// The regions in the order of final scoring: Europe last, so that its control can set the
/// track to twenty.
pub open spec fn final_order() -> Seq<Region> {
    seq![Region::Asia, Region::MiddleEast, Region::Africa, Region::CentralAmerica, Region::SouthAmerica, Region::Europe]
}

/// The victory points after final scoring of the first `k` regions of the final order,
/// starting from a position: each region is scored on the points left by the ones before it,
/// and a region whose scoring would take the points beyond `i8` is passed.
pub open(crate) spec fn final_vp(s: GameState, k: nat) -> i8
    decreases k,
{
    if k == 0 {
        s.vp_v()
    } else {
        let v = final_vp(s, (k - 1) as nat);
        let o = score_outcome(final_order()[k - 1], s.with_vp(v));
        if i8::MIN <= o.0 <= i8::MAX && i8::MIN <= o.1 <= i8::MAX { o.0 as i8 } else { v }
    }
}

/// How a game can end in a position: a win on the board (DEFCON below two loses for the
/// phasing side, twenty points win), a scoring card held once the turn's action rounds are
/// over (the side holding one loses, and the US wins when both do), or final scoring after
/// the tenth turn, won on points.
pub open(crate) spec fn game_over(s: GameState, w: Win) -> bool {
    ||| s.check_win_spec() == Err::<(), Win>(w)
    ||| s.ar_v() > global_goal(s.turn_v())
        && (held_scoring_spec(s.deck_v(), Side::US) || held_scoring_spec(s.deck_v(), Side::USSR))
        && w == Win::HeldScoring(if held_scoring_spec(s.deck_v(), Side::USSR) { Side::US } else { Side::USSR })
    ||| s.turn_v() > 10 && w == (if s.vp_v() >= 0 { Win::Vp(Side::US) } else { Win::Vp(Side::USSR) })
}

/// Whether an answer chooses a headline while the other side's headline choice waits under
/// it; no die decides what follows.
pub open(crate) spec fn other_headline_waits<R: TwilightRand>(g: Game<R>, decoded: DecodedChoice) -> bool {
    let p = g.state.pending_v();
    &&& g.status == Status::ChooseHL
    &&& decoded.action != Action::Pass
    &&& p.len() >= 2
    &&& p[p.len() - 2].action == Action::ChooseCard
    &&& p[p.len() - 2].agent != Side::Neutral
}

/// Whether an answer is carried out by resolving it: it is no pass, outside the choice of
/// headlines, with a choice.
pub open(crate) spec fn answer_resolves<R: TwilightRand>(g: Game<R>, decoded: DecodedChoice) -> bool {
    &&& decoded.action != Action::Pass
    &&& g.status != Status::ChooseHL
    &&& decoded.choice is Some
}

/// The position `t` and history `h` after an answer is taken from a game: the decision is
/// taken off the stack, read as the answer's kind of action, and resolved on the board as
/// `answer_taken` says; the answer joins the history.
pub open(crate) spec fn answered<R: TwilightRand>(g: Game<R>, decoded: DecodedChoice, t: GameState, h: Seq<DecodedChoice>) -> bool {
    exists|s1: GameState| #[trigger] popped(g.state, s1)
        && answer_taken(s1, reformed(dview(g.state.pending_v().last()), decoded.action, s1), decoded.choice->0, t)
        && h == g.history().push(DecodedChoice { action: decoded.action, choice: decoded.choice })
}

/// A position after an answer is taken: it is, but for the stack of decisions, the position
/// `answered` describes.
pub open(crate) spec fn taken<R: TwilightRand>(g: Game<R>, decoded: DecodedChoice, c: GameState) -> bool {
    exists|t: GameState, h: Seq<DecodedChoice>| #[trigger] answered(g, decoded, t, h) && c.same_but_pending(&t)
}

/// Whether no headline choice is pending.
pub open spec fn headlines_chosen(p: Seq<Decision>) -> bool {
    forall|i: int| 0 <= i < p.len() ==> #[trigger] p[i].action != Action::ChooseCard
}

/// The last action round of the turn for both sides together: the sixth in the early war,
/// then the eighth.
pub open spec fn global_goal(turn: i8) -> i8 {
    if turn <= 3 { 6 } else { 8 }
}

/// A game: its state, its randomness, the choices of the current ply, and where it stands.
pub struct Game<R: TwilightRand> {
    pub state: GameState,
    pub rng: R,
    pub ply_history: Vec<DecodedChoice>,
    pub status: Status,
}

impl<R: TwilightRand> Game<R> {
    /// The choices made so far in the current ply.
    pub open spec fn history(&self) -> Seq<DecodedChoice> {
        self.ply_history@
    }

    /// A game at the start from a state and a source of randomness.
    pub fn new(state: GameState, rng: R) -> (r: Game<R>)
        ensures
            r.state == state,
            r.rng == rng,
            r.status == Status::Start,
            r.history().len() == 0,
    {
        Game { state, rng, ply_history: Vec::new(), status: Status::Start }
    }

    /// Adds the usual opening placement to the map.
    pub fn four_four_two(&mut self)
        requires
            old(self).state.wf(),
        ensures
            final(self).state.wf(),
            forall|i: int| 0 <= i < crate::country::NUM_COUNTRIES ==> #[trigger] final(self).state.countries_v()[i]
                == four_four_two_on(i as usize, old(self).state.countries_v()[i]),
            final(self).state.same_but_countries(&old(self).state),
            final(self).rng == old(self).rng,
            final(self).status == old(self).status,
            final(self).history() == old(self).history(),
    {
        self.state.place_four_four_two();
    }

    /// The last action round of the turn for a side.
    fn goal_ar(&self, side: Side) -> (r: i8)
        requires
            side != Side::Neutral,
        ensures
            r == goal_ar_spec(self.state, side),
    {
        if self.state.turn <= 3 {
            6
        } else {
            let mut goal: i8 = 7;
            let us_space = self.state.space[0];
            let ussr_space = self.state.space[1];
            match side {
                Side::US => {
                    if (us_space == 8 && us_space > ussr_space) || self.state.has_effect(Side::US, Effect::NorthSeaOil) {
                        goal = goal + 1;
                    }
                },
                _ => {
                    if ussr_space == 8 && ussr_space > us_space {
                        goal = goal + 1;
                    }
                },
            }
            goal
        }
    }

    /// The two headline decisions, the first to choose last.
    fn hl_order(&self) -> (r: Vec<Decision>)
        requires
            self.state.wf(),
        ensures
            dviews(r@) == hl_order_spec(self.state),
    {
        let us_hl = Decision::headline(Side::US, &self.state);
        let ussr_hl = Decision::headline(Side::USSR, &self.state);
        let us_space = self.state.space[0];
        let ussr_space = self.state.space[1];
        let v = if ussr_space > us_space && ussr_space >= 4 {
            vec![ussr_hl, us_hl]
        } else {
            vec![us_hl, ussr_hl]
        };
        proof {
            assert(dviews(v@) =~= hl_order_spec(self.state));
        }
        v
    }

    /// Fills both hands for the turn: eight cards in the early war, then nine. Answers false
    /// when the randomness could not draw a card it was asked for.
    pub fn draw_hands(&mut self) -> (r: bool)
        requires
            old(self).state.wf(),
        ensures
            final(self).state == old(self).state.with_deck(final(self).state.deck_v()),
            drawn_from(old(self).state.deck_v(), final(self).state.deck_v()),
            final(self).state.wf(),
            r ==> true_indices(final(self).state.deck_v().pile(Pile::UsHand)).len() >= hand_goal(old(self).state.turn_v())
                && true_indices(final(self).state.deck_v().pile(Pile::UssrHand)).len() >= hand_goal(old(self).state.turn_v()),
            !r ==> true_indices(final(self).state.deck_v().pile(Pile::UsHand)).len() < hand_goal(old(self).state.turn_v())
                || true_indices(final(self).state.deck_v().pile(Pile::UssrHand)).len() < hand_goal(old(self).state.turn_v()),
            !r ==> !final(self).rng.can_draw(final(self).state.deck_v(), Side::US)
                || !final(self).rng.can_draw(final(self).state.deck_v(), Side::USSR),
            final(self).status == old(self).status,
            final(self).history() == old(self).history(),
    {
        let goal: usize = if self.state.turn <= 3 { 8 } else { 9 };
        self.state.deck.draw_cards(goal, &mut self.rng)
    }

    /// Puts the opening placement on the stack: the USSR places six in Eastern Europe, then
    /// the US seven in Western Europe, then two bonus influence.
    fn initial_placement(&mut self)
        requires
            old(self).state.pending_v().len() == 0,
        ensures
            dviews(final(self).state.pending_v()) == opening_spec(),
            final(self).state.same_but_pending(&old(self).state),
            old(self).state.wf() ==> final(self).state.wf(),
            final(self).rng == old(self).rng,
            final(self).status == old(self).status,
            final(self).history() == old(self).history(),
    {
        let east = Region::EasternEurope.all_countries();
        let west = Region::WesternEurope.all_countries();
        let ussr = Decision::with_quantity(Side::USSR, Action::Place, Allowed::new_owned(east), 6);
        let us = Decision::with_quantity(Side::US, Action::Place, Allowed::new_owned(west), 7);
        let bonus1 = Decision::new(Side::US, Action::Place, Allowed::new_lazy(LazyRule::BonusInfluence));
        let bonus2 = Decision::new(Side::US, Action::Place, Allowed::new_lazy(LazyRule::BonusInfluence));
        let pending = vec![bonus1, bonus2, us, ussr];
        proof {
            assert(dviews(pending@) =~= opening_spec());
        }
        self.state.set_pending(pending);
    }

    /// Sets a game up to start: at the very beginning with the opening placement to make, at
    /// the headline of a turn, or at the first action round of a turn, the USSR phasing.
    /// Fills both hands first, and answers whether they could be filled.
    pub fn setup(&mut self, start: Start) -> (r: bool)
        requires
            old(self).state.wf(),
            old(self).state.pending_v().len() == 0,
        ensures
            final(self).state.wf(),
            drawn_from(old(self).state.deck_v(), final(self).state.deck_v()),
            r ==> true_indices(final(self).state.deck_v().pile(Pile::UsHand)).len() >= hand_goal(final(self).state.turn_v())
                && true_indices(final(self).state.deck_v().pile(Pile::UssrHand)).len() >= hand_goal(final(self).state.turn_v()),
            final(self).state.countries_v() == old(self).state.countries_v(),
            final(self).state.vp_v() == old(self).state.vp_v(),
            final(self).state.defcon_v() == old(self).state.defcon_v(),
            final(self).history() == old(self).history(),
            match start {
                Start::Beginning => {
                    &&& final(self).status == Status::Start
                    &&& final(self).state.turn_v() == 0
                    &&& final(self).state.ar_v() == 0
                    &&& final(self).state.side_v() == old(self).state.side_v()
                    &&& dviews(final(self).state.pending_v()) == opening_spec()
                },
                Start::HL(turn) => {
                    &&& final(self).status == Status::ChooseHL
                    &&& final(self).state.turn_v() == turn
                    &&& final(self).state.ar_v() == 0
                    &&& final(self).state.side_v() == old(self).state.side_v()
                    &&& dviews(final(self).state.pending_v()) == hl_order_spec(final(self).state)
                },
                Start::FirstAR(turn) => {
                    &&& final(self).status == Status::AR
                    &&& final(self).state.turn_v() == turn
                    &&& final(self).state.ar_v() == 1
                    &&& final(self).state.side_v() == Side::USSR
                    &&& dviews(final(self).state.pending_v()) == seq![(Side::USSR, Action::BeginAr, AllowedView::Unknown, 1i8)]
                },
            },
    {
        match start {
            Start::Beginning => {
                self.status = Status::Start;
                self.state.turn = 0;
                self.state.ar = 0;
                let filled = self.draw_hands();
                self.initial_placement();
                filled
            },
            Start::HL(turn) => {
                self.status = Status::ChooseHL;
                self.state.turn = turn;
                self.state.ar = 0;
                let filled = self.draw_hands();
                let order = self.hl_order();
                self.state.set_pending(order);
                filled
            },
            Start::FirstAR(turn) => {
                self.status = Status::AR;
                self.state.turn = turn;
                self.state.ar = 1;
                self.state.side = Side::USSR;
                let d = Decision::begin_ar(Side::USSR);
                let filled = self.draw_hands();
                let v = vec![d];
                proof {
                    assert(dviews(v@) =~= seq![(Side::USSR, Action::BeginAr, AllowedView::Unknown, 1i8)]);
                }
                self.state.set_pending(v);
                filled
            },
        }
    }

    /// The legal answers to the next decision as output positions; passing when none is
    /// pending.
    pub fn legal(&mut self) -> (r: Vec<OutputIndex>)
        requires
            old(self).state.pending_v().len() > 0 ==> encode_ok(dview(old(self).state.pending_v().last()), old(self).state),
        ensures
            old(self).state.pending_v().len() == 0 ==> positions(r@) == seq![offset_spec(action_index_of(Action::Pass) as nat) as usize],
            old(self).state.pending_v().len() > 0 ==> positions(r@) == encode_spec(dview(old(self).state.pending_v().last()), old(self).state),
            final(self).state.same_but_pending(&old(self).state),
            final(self).state.pending_v().len() == old(self).state.pending_v().len(),
            final(self).status == old(self).status,
    {
        self.state.next_legal()
    }

    /// Takes an agent's answer to the next decision. A pass just takes the decision off. An
    /// answer of another kind of action than the decision's becomes a decision of that kind
    /// over the legal choices of that kind. A headline choice puts the chosen event on the
    /// stack, below the other side's headline choice while that waits; any other answer is
    /// resolved, and what follows from it goes on the stack.
    fn consume(&mut self, decoded: DecodedChoice)
        requires
            consume_fits(*old(self), decoded),
        ensures
            final(self).state.wf(),
            final(self).status == old(self).status,
            final(self).state.turn_v() == old(self).state.turn_v(),
            final(self).state.ar_v() == old(self).state.ar_v(),
            decoded.action == Action::Pass ==> popped(old(self).state, final(self).state)
                && final(self).rng == old(self).rng && final(self).history() == old(self).history(),
            other_headline_waits(*old(self), decoded) ==> final(self).state.pending_v().len() > 0
                && final(self).state.pending_views().last() == dview(old(self).state.pending_v()[old(self).state.pending_v().len() - 2])
                && final(self).state.vp_v() == old(self).state.vp_v(),
            answer_resolves(*old(self), decoded) ==> taken(*old(self), decoded, final(self).state)
                && exists|t: GameState| #[trigger] answered(*old(self), decoded, t, final(self).history()),
    {
        let ghost g0 = *self;
        let mut decision = self.state.remove_pending().unwrap();
        proof {
            assert(popped(g0.state, self.state));
        }
        let choice = decoded.choice;
        if decoded.action == Action::Pass {
            return;
        }
        let ghost s1 = self.state;
        let ghost d = dview(decision);
        if decoded.action != decision.action {
            let lower = decoded.action.offset();
            let upper = Action::from_index(decoded.action.index() + 1).offset();
            let encoded = decision.encode(&self.state);
            let ghost pred = |x: usize| lower <= x && x < upper;
            let mut legal: Vec<usize> = Vec::new();
            let mut k: usize = 0;
            while k < encoded.len()
                invariant
                    k <= encoded@.len(),
                    pred == (|x: usize| lower <= x && x < upper),
                    legal@ == positions(encoded@).take(k as int).filter(pred).map_values(|x: usize| (x - lower) as usize),
                decreases encoded@.len() - k,
            {
                proof {
                    reveal_with_fuel(Seq::<_>::filter, 1);
                    assert(positions(encoded@).take(k + 1).drop_last() =~= positions(encoded@).take(k as int));
                }
                let x = encoded[k].inner();
                if lower <= x && x < upper {
                    legal.push(x - lower);
                    proof {
                        assert(positions(encoded@).take(k + 1).filter(pred).map_values(|x: usize| (x - lower) as usize)
                            =~= positions(encoded@).take(k as int).filter(pred).map_values(|x: usize| (x - lower) as usize).push((x - lower) as usize));
                    }
                } else {
                    proof {
                        assert(positions(encoded@).take(k + 1).filter(pred) =~= positions(encoded@).take(k as int).filter(pred));
                    }
                }
                k = k + 1;
            }
            proof {
                assert(positions(encoded@).take(encoded@.len() as int) =~= positions(encoded@));
            }
            decision = Decision::with_quantity(decision.agent, decoded.action, Allowed::new_owned(legal), decision.quantity);
        }
        proof {
            assert(dview(decision) == reformed(d, decoded.action, s1));
        }
        match self.status {
            Status::ChooseHL => {
                let chosen = vec![decoded.choice.unwrap()];
                let chosen_hl = Decision::new(decision.agent, Action::Event, Allowed::new_owned(chosen));
                let waiting = match self.state.peek_pending() {
                    Some(d) => d.action == Action::ChooseCard,
                    None => false,
                };
                if waiting {
                    let pending_hl_choice = self.state.remove_pending().unwrap();
                    self.state.add_pending(chosen_hl);
                    self.state.add_pending(pending_hl_choice);
                    proof {
                        lemma_views_last(self.state);
                        if other_headline_waits(g0, decoded) {
                            assert(g0.state.pending_v().drop_last().last() == g0.state.pending_v()[g0.state.pending_v().len() - 2]);
                        }
                    }
                } else {
                    self.state.add_pending(chosen_hl);
                }
            },
            _ => {
                let ghost d2 = dview(decision);
                let next_d = self.state.resolve_action(decision, choice, &mut self.ply_history, &mut self.rng);
                let ghost t0 = self.state;
                if let Some(x) = next_d {
                    self.state.add_pending(x);
                }
                proof {
                    if answer_resolves(g0, decoded) {
                        assert(popped(g0.state, s1));
                        assert(answered(g0, decoded, t0, self.history()));
                    }
                }
            },
        }
    }

    /// Whether the next decision belongs to neither side and resolves without a choice; an
    /// event never does.
    fn neutral_next(&self) -> (r: bool)
        ensures
            r == neutral_top(self.state),
    {
        match self.state.peek_pending() {
            Some(d) => d.agent == Side::Neutral && d.action != Action::Event,
            None => false,
        }
    }

    /// Resolves the decisions of neither side at the top of the stack, such as ending an
    /// action round or clearing an event, and checks for a win after each.
    fn resolve_neutral(&mut self) -> (r: Result<(), Win>)
        requires
            old(self).state.wf(),
        ensures
            final(self).state.wf(),
            final(self).status == old(self).status,
            final(self).state.turn_v() == old(self).state.turn_v(),
            final(self).state.ar_v() == old(self).state.ar_v(),
            r is Ok ==> !(final(self).state.pending_v().len() > 0 && final(self).state.pending_v().last().agent == Side::Neutral
                && final(self).state.pending_v().last().action != Action::Event),
            r == if neutral_top(old(self).state) && old(self).state.check_win_spec() is Err {
                old(self).state.check_win_spec()
            } else {
                Ok(())
            },
            final(self).state.countries_v() == old(self).state.countries_v(),
            final(self).state.vp_v() == old(self).state.vp_v(),
            final(self).state.defcon_v() == old(self).state.defcon_v(),
            final(self).state.side_v() == old(self).state.side_v(),
            !neutral_top(old(self).state) ==> *final(self) == *old(self),
    {
        while self.neutral_next()
            invariant
                self.state.wf(),
                self.status == old(self).status,
                self.state.pending_v().len() <= old(self).state.pending_v().len(),
                self.state.pending_v().len() == old(self).state.pending_v().len() ==> *self == *old(self),
                self.state.pending_v().len() < old(self).state.pending_v().len() ==> neutral_top(old(self).state),
                self.state.turn_v() == old(self).state.turn_v(),
                self.state.ar_v() == old(self).state.ar_v(),
                self.state.countries_v() == old(self).state.countries_v(),
                self.state.vp_v() == old(self).state.vp_v(),
                self.state.defcon_v() == old(self).state.defcon_v(),
                self.state.side_v() == old(self).state.side_v(),
                self.state.pending_v() == old(self).state.pending_v() || old(self).state.check_win_spec() is Ok,
            decreases self.state.pending_v().len(),
        {
            let decision = self.state.remove_pending().unwrap();
            let _ = self.state.resolve_action(decision, None, &mut self.ply_history, &mut self.rng);
            self.state.check_win()?;
        }
        Ok(())
    }

    /// Passes the action rounds a side does not have, for instance the eighth of a side
    /// without the space race bonus, until a side has its round or the turn's rounds are over.
    fn skip_null_ars(&mut self) -> (r: Result<(), Win>)
        requires
            old(self).state.wf(),
        ensures
            final(self).state.wf(),
            final(self).status == old(self).status,
            final(self).state.turn_v() == old(self).state.turn_v(),
            final(self).state.pending_v() == old(self).state.pending_v(),
            final(self).state.vp_v() == old(self).state.vp_v(),
            final(self).state.defcon_v() == old(self).state.defcon_v(),
            final(self).state.mil_ops_v() == old(self).state.mil_ops_v(),
            final(self).state.deck_v().pile(Pile::UsHand) == old(self).state.deck_v().pile(Pile::UsHand),
            final(self).state.deck_v().pile(Pile::UssrHand) == old(self).state.deck_v().pile(Pile::UssrHand),
            r is Err ==> r == final(self).state.check_win_spec(),
            r is Ok ==> final(self).state.ar_v() > global_goal(final(self).state.turn_v())
                || final(self).state.ar_v() <= goal_ar_spec(final(self).state, final(self).state.side_v()),
    {
        let global: i8 = if self.state.turn <= 3 { 6 } else { 8 };
        let ghost g0 = *self;
        while self.state.ar <= global
            invariant
                g0 == *old(self),
                self.state.wf(),
                self.status == g0.status,
                self.state.turn_v() == g0.state.turn_v(),
                self.state.pending_v() == g0.state.pending_v(),
                self.state.vp_v() == g0.state.vp_v(),
                self.state.defcon_v() == g0.state.defcon_v(),
                self.state.mil_ops_v() == g0.state.mil_ops_v(),
                self.state.deck_v().pile(Pile::UsHand) == g0.state.deck_v().pile(Pile::UsHand),
                self.state.deck_v().pile(Pile::UssrHand) == g0.state.deck_v().pile(Pile::UssrHand),
                global == global_goal(g0.state.turn_v()),
            decreases (global - self.state.ar_v()) * 2 + (if self.state.side_v() == Side::USSR { 1int } else { 0int }) + 2,
        {
            let side_goal = self.goal_ar(self.state.side);
            if self.state.ar > side_goal {
                self.state.advance_ply()?;
            } else {
                return Ok(());
            }
        }
        Ok(())
    }

    /// Whether no headline choice is pending.
    fn no_headline_choice(&self) -> (r: bool)
        ensures
            r == headlines_chosen(self.state.pending_v()),
    {
        let p = self.state.pending();
        let mut i: usize = 0;
        while i < p.len()
            invariant
                i <= p@.len(),
                p@ == self.state.pending_v(),
                forall|j: int| 0 <= j < i ==> #[trigger] p@[j].action != Action::ChooseCard,
            decreases p@.len() - i,
        {
            if p[i].action == Action::ChooseCard {
                return false;
            }
            i = i + 1;
        }
        true
    }

    /// Moves the game on once the answers pending have been taken. Once both headlines are
    /// chosen they are ordered and resolved, the side of each headline phasing while it
    /// resolves; after them the first action round starts with the USSR. When an action round
    /// is over the ply advances, rounds a side does not have are passed, and the next round
    /// starts, or the turn ends. After the opening placement the first headline starts.
    fn update_status(&mut self) -> (r: Result<(), Win>)
        requires
            old(self).state.wf(),
            old(self).state.ar_v() < i8::MAX,
            old(self).state.turn_v() < i8::MAX,
        ensures
            final(self).state.wf(),
            r is Ok ==> final(self).state.ar_v() < i8::MAX,
            r matches Err(w) ==> game_over(final(self).state, w),
            r is Ok && awaiting_agent(old(self).state) ==> awaiting_agent(final(self).state),
            old(self).status == Status::Start ==> r is Ok && if old(self).state.pending_v().len() == 0 {
                &&& final(self).status == Status::ChooseHL
                &&& final(self).state.turn_v() == 1
                &&& dviews(final(self).state.pending_v()) == hl_order_spec(final(self).state)
            } else {
                *final(self) == *old(self)
            },
            old(self).status == Status::ChooseHL ==> r is Ok && if headlines_chosen(old(self).state.pending_v())
                && headlines_ready(old(self).state.pending_views()) {
                &&& final(self).status == Status::ResolveHL
                &&& final(self).state.pending_views() == ordered_headlines(old(self).state.pending_views())
            } else {
                *final(self) == *old(self)
            },
            old(self).status == Status::ResolveHL ==> if old(self).state.pending_v().len() == 0 {
                &&& final(self).status == Status::AR
                &&& r == old(self).state.check_win_spec()
                &&& r is Ok ==> final(self).state.ar_v() == 1 && final(self).state.side_v() == Side::USSR
                    && final(self).state.pending_views() == seq![(Side::Neutral, Action::EndAr, AllowedView::Known(Seq::empty()), 1i8),
                        (Side::USSR, Action::BeginAr, AllowedView::Unknown, 1i8)]
            } else {
                &&& r is Ok
                &&& final(self).status == Status::ResolveHL
                &&& final(self).state.pending_v() == old(self).state.pending_v()
            },
            old(self).status == Status::AR ==> if old(self).state.pending_v().len() == 0 {
                r is Ok ==> {
                    ||| final(self).status == Status::AR
                        && final(self).state.ar_v() <= global_goal(final(self).state.turn_v())
                        && final(self).state.turn_v() == old(self).state.turn_v()
                        && final(self).state.pending_views() == seq![(Side::Neutral, Action::EndAr, AllowedView::Known(Seq::empty()), 1i8),
                            (final(self).state.side_v(), Action::BeginAr, AllowedView::Unknown, 1i8)]
                    ||| final(self).status == Status::ChooseHL
                        && final(self).state.turn_v() == old(self).state.turn_v() + 1
                        && final(self).state.turn_v() <= 10
                        && dviews(final(self).state.pending_v()) == hl_order_spec(final(self).state)
                }
            } else {
                r is Ok && *final(self) == *old(self)
            },
    {
        match self.status {
            Status::ChooseHL => {
                if self.no_headline_choice() && self.state.headlines_ready() {
                    proof {
                        if awaiting_agent(self.state) && self.state.pending_v().len() > 0 {
                            lemma_ordered_top(self.state.pending_views());
                            assert(self.state.pending_views().last() == dview(self.state.pending_v().last()));
                        }
                    }
                    let ghost before = self.state;
                    self.state.order_headlines();
                    proof {
                        if self.state.pending_v().len() > 0 {
                            assert(self.state.pending_views().last() == dview(self.state.pending_v().last()));
                            assert(self.state.pending_views().len() == self.state.pending_v().len());
                        }
                    }
                    self.status = Status::ResolveHL;
                    let next = match self.state.peek_pending() {
                        Some(d) => d.agent,
                        None => Side::Neutral,
                    };
                    if next != Side::Neutral {
                        self.state.side = next;
                    }
                }
            },
            Status::ResolveHL => {
                let next = match self.state.peek_pending() {
                    Some(p) => Some((p.is_single_event(), p.agent)),
                    None => None,
                };
                match next {
                    Some((single, agent)) => {
                        if single && agent != Side::Neutral {
                            self.state.side = agent;
                        }
                    },
                    None => {
                        self.status = Status::AR;
                        self.state.check_win()?;
                        self.state.ar = 1;
                        self.state.side = Side::USSR;
                        self.state.add_pending(Decision::begin_ar(Side::USSR));
                    },
                }
            },
            Status::AR => {
                if self.state.empty_pending() {
                    self.state.advance_ply()?;
                    self.skip_null_ars()?;
                    let goal: i8 = if self.state.turn <= 3 { 6 } else { 8 };
                    if self.state.ar > goal {
                        proof {
                            assert(-20 < self.state.vp_v() < 20);
                        }
                        self.state.advance_turn()?;
                        if self.state.turn > 10 {
                            return Err(self.final_scoring());
                        }
                        if self.state.turn == 4 {
                            self.state.deck.add_mid_war();
                        }
                        let _ = self.draw_hands();
                        self.status = Status::ChooseHL;
                        let order = self.hl_order();
                        self.state.set_pending(order);
                    } else {
                        self.state.add_pending(Decision::begin_ar(self.state.side));
                    }
                }
            },
            Status::Start => {
                if self.state.empty_pending() {
                    self.state.turn = 1;
                    self.status = Status::ChooseHL;
                    let order = self.hl_order();
                    self.state.set_pending(order);
                }
            },
        }
        proof {
            lemma_views_last(self.state);
            lemma_views_last(old(self).state);
        }
        Ok(())
    }

    /// Scores every region at the end of the game, Europe last, and names the winner on
    /// points: the US at zero or more. A region whose scoring would take the points beyond
    /// `i8` is left unscored.
    fn final_scoring(&mut self) -> (r: Win)
        requires
            old(self).state.wf(),
            old(self).state.turn_v() > 10,
        ensures
            final(self).state.wf(),
            final(self).state.vp_v() == final_vp(old(self).state, 6),
            final(self).state.same_but_effects(&old(self).state.with_vp(final(self).state.vp_v())),
            final(self).state.effects_v(Side::US) == old(self).state.effects_v(Side::US),
            final(self).state.effects_v(Side::USSR) == old(self).state.effects_v(Side::USSR),
            r == (if final(self).state.vp_v() >= 0 { Win::Vp(Side::US) } else { Win::Vp(Side::USSR) }),
            final(self).status == old(self).status,
    {
        let ghost s0 = self.state;
        let order: [Region; 6] = [
            Region::Asia,
            Region::MiddleEast,
            Region::Africa,
            Region::CentralAmerica,
            Region::SouthAmerica,
            Region::Europe,
        ];
        let mut i: usize = 0;
        while i < 6
            invariant
                i <= 6,
                self.state.wf(),
                self.status == old(self).status,
                s0 == old(self).state,
                s0.turn_v() > 10,
                order@ == final_order(),
                self.state.vp_v() == final_vp(s0, i as nat),
                self.state.same_but_effects(&s0.with_vp(self.state.vp_v())),
                self.state.effects_v(Side::US) == s0.effects_v(Side::US),
                self.state.effects_v(Side::USSR) == s0.effects_v(Side::USSR),
            decreases 6 - i,
        {
            let region = order[i];
            proof {
                let t = s0.with_vp(self.state.vp_v());
                assert(crate::country::scoring::adjusted_tally(region, self.state, self.state.turn_v() <= 10)
                    == crate::country::scoring::adjusted_tally(region, t, t.turn_v() <= 10));
                assert(crate::country::scoring::adjacency_points(region, self.state) == crate::country::scoring::adjacency_points(region, t));
                assert(score_outcome(region, self.state) == score_outcome(region, t));
            }
            if region.score_fits(&self.state) {
                region.score(&mut self.state);
            }
            i = i + 1;
        }
        if self.state.vp >= 0 {
            Win::Vp(Side::US)
        } else {
            Win::Vp(Side::USSR)
        }
    }

    /// Takes an agent's answer and resolves until the game ends, answering the winner, or
    /// until an agent has to answer again, answering the change of victory points (wrapping
    /// within `i8`). When the action rounds of a turn are over the turn ends: a side still
    /// holding a scoring card loses, otherwise the turn closes and the next headlines are
    /// asked for. After the tenth turn the game ends with final scoring. A headline chosen
    /// while the other side's headline choice waits always succeeds.
    pub fn consume_action(&mut self, decoded: DecodedChoice) -> (r: Result<i8, Win>)
        requires
            consume_fits(*old(self), decoded),
            old(self).state.turn_v() < i8::MAX,
        ensures
            final(self).state.wf(),
            r matches Ok(d) ==> d == final(self).state.vp_v().wrapping_sub(old(self).state.vp_v())
                && final(self).state.turn_v() <= 10,
            r is Ok ==> awaiting_agent(final(self).state),
            r is Ok ==> final(self).state.ar_v() < i8::MAX,
            r matches Err(w) ==> game_over(final(self).state, w),
            other_headline_waits(*old(self), decoded) && old(self).state.turn_v() <= 10 ==> r == Ok::<i8, Win>(0),
            answer_resolves(*old(self), decoded) ==> exists|c: GameState| #[trigger] taken(*old(self), decoded, c)
                && (neutral_top(c) && c.check_win_spec() is Err ==> (r matches Err(w) && c.check_win_spec() == Err::<(), Win>(w))),
    {
        let init_vp = self.state.vp;
        self.consume(decoded);
        let ghost c = self.state;
        proof {
            lemma_views_last(self.state);
            if other_headline_waits(*old(self), decoded) {
                assert(!neutral_top(self.state));
                assert(self.state.pending_v().last().action == Action::ChooseCard);
                assert(!headlines_chosen(self.state.pending_v()));
            }
        }
        self.resolve_neutral()?;
        self.update_status()?;
        if self.state.turn > 10 {
            Err(self.final_scoring())
        } else {
            Ok(self.state.vp.wrapping_sub(init_vp))
        }
    }

    /// A game at the first headline after the usual opening placement.
    pub fn standard_start(rng: R) -> (r: Game<R>)
        ensures
            r.state.wf(),
            r.status == Status::ChooseHL,
            r.rng == rng,
            r.history().len() == 0,
            r.state.turn_v() == 0,
            forall|i: int| 0 <= i < crate::country::NUM_COUNTRIES ==> #[trigger] r.state.countries_v()[i]
                == crate::state::four_four_two_country(i as usize),
            dviews(r.state.pending_v()) == hl_order_spec(r.state),
    {
        let state = GameState::four_four_two();
        let mut game = Game::new(state, rng);
        game.status = Status::ChooseHL;
        let order = game.hl_order();
        game.state.set_pending(order);
        proof {
            assert forall|i: int| 0 <= i < crate::country::NUM_COUNTRIES implies #[trigger] game.state.countries_v()[i]
                == crate::state::four_four_two_country(i as usize) by {
                assert(game.state.countries_v()[i] == state.countries_v()[i]);
            }
        }
        game
    }
}

} // verus!
