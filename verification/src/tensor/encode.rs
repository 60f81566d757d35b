use vstd::prelude::*;
use crate::action::{action_index_of, offset_spec, Action, Allowed, AllowedView, Decision};
use crate::card::{card_att, card_index, card_of, lemma_card_index_inverse, ops_spec, Card, Effect, NUM_CARDS};
use crate::card::deck::{bits_to_cards, hand_pile, true_indices, CARD_BITS};
use crate::card::rules::{asks_opec, can_event_spec};
use crate::country::{opposite_spec, side_index, Side, NUM_COUNTRIES};
use crate::state::{
    ar_left_spec, coup_targets, forced_choices, influence_ok, ops_offset_spec, space_choices,
    GameState,
};
use crate::tensor::{decode_spec, OutputIndex};

verus! {

/// The output positions of a list of choices of a kind of action: each choice after the
/// kind's offset.
pub open spec fn shift(choices: Seq<usize>, a: Action) -> Seq<usize> {
    choices.map_values(|x: usize| (x + offset_spec(action_index_of(a) as nat)) as usize)
}

/// Every choice of a list, after a kind's offset, is still a `usize`.
pub open spec fn fits_shift(choices: Seq<usize>, a: Action) -> bool {
    forall|i: int| 0 <= i < choices.len() ==> #[trigger] choices[i] + offset_spec(action_index_of(a) as nat) <= usize::MAX
}

/// The raw positions of a list of output indices.
pub open spec fn positions(v: Seq<OutputIndex>) -> Seq<usize> {
    v.map_values(|o: OutputIndex| o@)
}

/// The indices of a list of cards.
pub open spec fn card_idx(v: Seq<Card>) -> Seq<usize> {
    v.map_values(|c: Card| card_index(c))
}

/// Choices below a thousand fit after any offset.
pub proof fn lemma_small_fits(choices: Seq<usize>, a: Action)
    requires
        forall|i: int| 0 <= i < choices.len() ==> #[trigger] choices[i] < 1000,
    ensures
        fits_shift(choices, a),
{
    crate::action::lemma_action_index_of_inverse(a);
    crate::action::lemma_offsets_bounded((action_index_of(a) + 1) as nat);
    crate::action::lemma_offsets_increase(action_index_of(a) as nat, (action_index_of(a) + 1) as nat);
}

/// A filtered list keeps the bound of its source.
pub proof fn lemma_filter_below(s: Seq<usize>, p: spec_fn(usize) -> bool, n: int)
    requires
        forall|i: int| 0 <= i < s.len() ==> #[trigger] s[i] < n,
    ensures
        forall|i: int| 0 <= i < s.filter(p).len() ==> #[trigger] s.filter(p)[i] < n,
{
    assert forall|i: int| 0 <= i < s.filter(p).len() implies #[trigger] s.filter(p)[i] < n by {
        let x = s.filter(p)[i];
        assert(s.filter(p).contains(x));
        s.lemma_filter_contains_rev(p, x);
    }
}

/// The indices of a list of cards are card indices.
pub proof fn lemma_card_idx_below(v: Seq<Card>)
    ensures
        forall|i: int| 0 <= i < card_idx(v).len() ==> #[trigger] card_idx(v)[i] < NUM_CARDS,
{
    assert forall|i: int| 0 <= i < card_idx(v).len() implies #[trigger] card_idx(v)[i] < NUM_CARDS by {
        lemma_card_index_inverse(v[i]);
    }
}

/// The output indices of a list of choices of a kind of action.
pub fn shift_exec(v: &[usize], a: Action) -> (r: Vec<OutputIndex>)
    requires
        fits_shift(v@, a),
    ensures
        positions(r@) == shift(v@, a),
{
    let begin = a.offset();
    let mut out: Vec<OutputIndex> = Vec::new();
    let mut i: usize = 0;
    while i < v.len()
        invariant
            i <= v.len(),
            begin == offset_spec(action_index_of(a) as nat),
            fits_shift(v@, a),
            positions(out@) == shift(v@.take(i as int), a),
        decreases v.len() - i,
    {
        proof {
            assert(shift(v@.take(i + 1), a) =~= shift(v@.take(i as int), a).push((v@[i as int] + begin) as usize));
        }
        let o = OutputIndex::new(v[i] + begin);
        let ghost prev = out@;
        out.push(o);
        proof { assert(positions(out@) =~= positions(prev).push(o@)); }
        i = i + 1;
    }
    proof { assert(v@.take(v.len() as int) =~= v@); }
    out
}

/// The indices of a list of cards, in the same order.
pub fn cards_to_indices(v: &Vec<Card>) -> (r: Vec<usize>)
    ensures
        r@ == card_idx(v@),
{
    let mut out: Vec<usize> = Vec::new();
    let mut i: usize = 0;
    while i < v.len()
        invariant
            i <= v.len(),
            out@ == card_idx(v@.take(i as int)),
        decreases v.len() - i,
    {
        proof { assert(card_idx(v@.take(i + 1)) =~= card_idx(v@.take(i as int)).push(card_index(v@[i as int]))); }
        out.push(v[i].index());
        i = i + 1;
    }
    proof { assert(v@.take(v.len() as int) =~= v@); }
    out
}

/// The scoring cards in a side's hand, by index.
pub open(crate) spec fn scoring_idx(s: GameState, side: Side) -> Seq<usize> {
    true_indices(s.deck_v().scoring_cards_spec(side))
}

/// Whether a side is held by Quagmire (the US) or Bear Trap (the USSR).
pub open(crate) spec fn trapped(s: GameState, side: Side) -> bool {
    ||| side == Side::US && s.effects_v(Side::US).contains(Effect::Quagmire)
    ||| side == Side::USSR && s.effects_v(Side::USSR).contains(Effect::BearTrap)
}

/// The action rounds a side has this turn.
pub open(crate) spec fn max_ar_spec(s: GameState, side: Side) -> i8 {
    if s.turn_v() <= 3 {
        6
    } else if s.space_v()[side_index(side) as int] == 8 {
        8
    } else if side == Side::US && s.effects_v(Side::US).contains(Effect::NorthSeaOil) {
        8
    } else {
        7
    }
}

/// The cards of the phasing side worth at least two operations, which a trapped side may
/// discard.
pub open(crate) spec fn discardable(s: GameState) -> Seq<Card> {
    bits_to_cards(s.deck_v().pile(hand_pile(s.side_v()))).filter(
        |c: Card| ops_spec(c, ops_offset_spec(s, s.side_v()) as i8) >= 2)
}

/// The opponent events of a side's hand that would fire if it played them.
pub open(crate) spec fn opp_fire(s: GameState, side: Side) -> Seq<Card> {
    bits_to_cards(s.deck_v().pile(hand_pile(side))).filter(
        |c: Card| card_att(c).side == opposite_spec(side) && can_event_spec(c, s, side))
}

/// The cards of a side's hand whose event it may play itself.
pub open(crate) spec fn own_events(s: GameState, side: Side) -> Seq<Card> {
    bits_to_cards(s.deck_v().pile(hand_pile(side))).filter(
        |c: Card| card_att(c).side != opposite_spec(side) && can_event_spec(c, s, side))
}

/// The cards a side may play for operations alone, the China Card last when available.
pub open(crate) spec fn ops_cards(s: GameState, side: Side) -> Seq<Card> {
    let playable = bits_to_cards(s.deck_v().pile(hand_pile(side))).filter(|c: Card| !card_att(c).scoring
        && (card_att(c).side != opposite_spec(side) || !can_event_spec(c, s, side)));
    if s.deck_v().china_holder() == side && s.deck_v().china_face_up() {
        playable.push(Card::The_China_Card)
    } else {
        playable
    }
}

/// The output positions of the start of an action round, before the scoring card rule: a
/// trapped side discards (or must play its scoring cards), any other side may use the space
/// race, play an opponent event before or after its operations, play an event, or play a
/// card for operations.
pub open(crate) spec fn begin_ar_std(s: GameState, side: Side) -> Seq<usize> {
    if trapped(s, side) {
        if discardable(s).len() == 0 {
            if scoring_idx(s, side).len() == 0 {
                seq![offset_spec(action_index_of(Action::Pass) as nat) as usize]
            } else {
                shift(scoring_idx(s, side), Action::Event)
            }
        } else if scoring_idx(s, side).len() >= ((max_ar_spec(s, side) - s.ar_v()) as i8) as usize {
            shift(scoring_idx(s, side), Action::Event)
        } else {
            shift(card_idx(discardable(s)), Action::Discard)
        }
    } else {
        let fire = card_idx(opp_fire(s, side));
        shift(space_choices(s, side), Action::Space) + shift(fire, Action::EventOps) + shift(fire, Action::OpsEvent)
            + shift(card_idx(own_events(s, side)), Action::Event) + shift(card_idx(ops_cards(s, side)), Action::Ops)
    }
}

/// Whether an output position stands for the event of a scoring card.
#[verifier::opaque]
pub open spec fn scoring_event_at(x: usize) -> bool {
    let d = decode_spec(x);
    &&& d.action == Action::Event
    &&& d.choice->0 < NUM_CARDS
    &&& card_att(card_of(d.choice->0)).scoring
}

/// Whether a list of output positions holds the event of a scoring card.
pub open spec fn has_scoring_event(v: Seq<usize>) -> bool {
    exists|i: int| 0 <= i < v.len() && #[trigger] scoring_event_at(v[i])
}

/// The output positions of the start of an action round: Missile Envy forces its own play
/// for operations, and a side that must play its scoring cards for the rest of the turn may
/// always event them.
pub open(crate) spec fn begin_ar_spec(s: GameState, side: Side) -> Seq<usize> {
    let standard = if s.effects_v(side).contains(Effect::MissileEnvy) {
        shift(seq![card_index(Card::Missile_Envy)], Action::Ops)
    } else {
        begin_ar_std(s, side)
    };
    if scoring_idx(s, side).len() >= (ar_left_spec(s, side) as i8) as usize && !has_scoring_event(standard) {
        standard + shift(scoring_idx(s, side), Action::Event)
    } else {
        standard
    }
}

/// Whether the start of an action round can be encoded: the side is a superpower, the
/// round counts stay within `i8`, and a side that reaches the regular choices does not hold
/// OPEC, whose event cannot be asked about.
pub open(crate) spec fn begin_ar_ok(s: GameState, side: Side) -> bool {
    &&& s.wf()
    &&& side != Side::Neutral
    &&& s.ar_v() >= -119
    &&& (!s.effects_v(side).contains(Effect::MissileEnvy) && !trapped(s, side)
        ==> !bits_to_cards(s.deck_v().pile(hand_pile(side))).contains(Card::OPEC))
}

/// The output positions of a decision: the start of an action round as above; operations
/// as influence, coups (unless the Cuban Missile Crisis forbids them) and realignments; the
/// Cuban Missile Crisis as passing or removing; a coup under it as passing; anything else as
/// its choices.
pub open(crate) spec fn encode_spec(d: (Side, Action, AllowedView, i8), s: GameState) -> Seq<usize> {
    let (agent, action, allowed, q) = d;
    match action {
        Action::BeginAr => begin_ar_spec(s, agent),
        Action::ConductOps => {
            let inf = shift(crate::country::access_spec(s, agent).filter(|i: usize| influence_ok(s, agent, q, i)), Action::Influence);
            let cr = coup_targets(s, agent);
            if !s.effects_v(agent).contains(Effect::CubanMissileCrisis) {
                inf + shift(cr, Action::Coup) + shift(cr, Action::Realignment)
            } else {
                inf + shift(cr, Action::Realignment)
            }
        },
        Action::CubanMissile => seq![offset_spec(action_index_of(Action::Pass) as nat) as usize]
            + shift(forced_choices(allowed, s), Action::CubanMissile),
        _ => if action == Action::Coup && s.effects_v(agent).contains(Effect::CubanMissileCrisis) {
            seq![offset_spec(action_index_of(Action::Pass) as nat) as usize]
        } else {
            shift(forced_choices(allowed, s), action)
        },
    }
}

/// Whether a decision can be encoded in a position.
pub open(crate) spec fn encode_ok(d: (Side, Action, AllowedView, i8), s: GameState) -> bool {
    let (agent, action, allowed, q) = d;
    &&& s.wf()
    &&& match action {
        Action::BeginAr => begin_ar_ok(s, agent),
        Action::ConductOps => agent != Side::Neutral && q > 0,
        Action::CubanMissile => !(allowed is Unknown) && fits_shift(forced_choices(allowed, s), Action::CubanMissile),
        Action::Coup => agent != Side::Neutral && (s.effects_v(agent).contains(Effect::CubanMissileCrisis)
            || (!(allowed is Unknown) && fits_shift(forced_choices(allowed, s), Action::Coup))),
        _ => !(allowed is Unknown) && fits_shift(forced_choices(allowed, s), action),
    }
}

/// The countries a side may place influence in are map indices below the superpowers.
pub proof fn lemma_access_below(s: GameState, side: Side)
    ensures
        forall|i: int| 0 <= i < crate::country::access_spec(s, side).len()
            ==> #[trigger] crate::country::access_spec(s, side)[i] < NUM_COUNTRIES - 2,
{
    let idx = Seq::new((NUM_COUNTRIES - 2) as nat, |i: int| i as usize);
    lemma_filter_below(idx, |i: usize| crate::country::reaches(s, side, i, NUM_COUNTRIES as int), (NUM_COUNTRIES - 2) as int);
}

/// Coup and realignment targets are map indices.
pub proof fn lemma_coup_targets_below(s: GameState, side: Side)
    ensures
        forall|i: int| 0 <= i < coup_targets(s, side).len() ==> #[trigger] coup_targets(s, side)[i] < NUM_COUNTRIES,
{
    let opp = opposite_spec(side);
    let f = |i: usize| crate::country::influence_spec(s.countries_v()[i as int], opp) > 0;
    let n = NUM_COUNTRIES as int;
    lemma_filter_below(crate::country::region_countries(crate::country::Region::Africa), f, n);
    lemma_filter_below(crate::country::region_countries(crate::country::Region::CentralAmerica), f, n);
    lemma_filter_below(crate::country::region_countries(crate::country::Region::SouthAmerica), f, n);
    lemma_filter_below(crate::country::region_countries(crate::country::Region::MiddleEast), f, n);
    lemma_filter_below(crate::country::region_countries(crate::country::Region::Asia), f, n);
    lemma_filter_below(crate::country::region_countries(crate::country::Region::Europe), f, n);
    lemma_filter_below(crate::country::region_countries(crate::country::Region::Europe), |i: usize| crate::state::nato_ok(s, i), n);
    let t = coup_targets(s, side);
    assert forall|i: int| 0 <= i < t.len() implies #[trigger] t[i] < NUM_COUNTRIES by {
    }
}

/// Appends one list of output indices to another.
fn extend(out: &mut Vec<OutputIndex>, more: Vec<OutputIndex>)
    ensures
        positions(final(out)@) == positions(old(out)@) + positions(more@),
{
    let mut more = more;
    let ghost a = out@;
    let ghost b = more@;
    out.append(&mut more);
    proof { assert(positions(out@) =~= positions(a) + positions(b)); }
}

/// The space race choices of a side are card indices.
pub proof fn lemma_space_choices_below(s: GameState, side: Side)
    requires
        s.wf(),
    ensures
        forall|i: int| 0 <= i < space_choices(s, side).len() ==> #[trigger] space_choices(s, side)[i] < NUM_CARDS,
{
    s.deck_v().lemma_wf_piles(hand_pile(side));
    crate::card::deck::lemma_true_indices_bound(s.deck_v().pile(hand_pile(side)));
    let off = ops_offset_spec(s, side);
    lemma_filter_below(true_indices(s.deck_v().pile(hand_pile(side))),
        |i: usize| crate::state::can_space_spec(s, s.side_v(), ops_spec(card_of(i), off as i8) as i8), NUM_CARDS as int);
    lemma_card_index_inverse(Card::The_China_Card);
}

/// The scoring cards of a hand are card indices.
pub proof fn lemma_scoring_idx_below(s: GameState, side: Side)
    ensures
        forall|i: int| 0 <= i < scoring_idx(s, side).len() ==> #[trigger] scoring_idx(s, side)[i] < NUM_CARDS,
{
    crate::card::deck::lemma_true_indices_bound(s.deck_v().scoring_cards_spec(side));
}

impl Decision {
    /// The output indices of the start of an action round, before the scoring card rule.
    fn encode_begin_ar(&self, state: &GameState) -> (r: Vec<OutputIndex>)
        requires
            begin_ar_ok(*state, self.agent),
            !state.effects_v(self.agent).contains(Effect::MissileEnvy) || trapped(*state, self.agent),
        ensures
            positions(r@) == begin_ar_std(*state, self.agent),
    {
        let side = self.agent;
        if (side == Side::US && state.has_effect(side, Effect::Quagmire))
            || (side == Side::USSR && state.has_effect(side, Effect::BearTrap))
        {
            let can_discard = state.cards_at_least(state.side, 2);
            proof { lemma_scoring_idx_below(*state, side); lemma_small_fits(scoring_idx(*state, side), Action::Event); }
            if can_discard.len() == 0 {
                let held = state.deck.scoring_cards(side);
                if held.is_empty() {
                    let out = vec![OutputIndex::pass()];
                    proof {
                        assert(positions(out@) =~= seq![offset_spec(action_index_of(Action::Pass) as nat) as usize]);
                    }
                    return out;
                }
                let scoring = held.iter_indices();
                return shift_exec(scoring.as_slice(), Action::Event);
            } else {
                let left = state.max_ar(side) - state.ar;
                if state.deck.must_play_scoring(side, left) {
                    let scoring = state.deck.scoring_cards(side).iter_indices();
                    return shift_exec(scoring.as_slice(), Action::Event);
                }
                let legal = cards_to_indices(&can_discard);
                proof {
                    lemma_card_idx_below(can_discard@);
                    lemma_small_fits(legal@, Action::Discard);
                }
                return shift_exec(legal.as_slice(), Action::Discard);
            }
        }
        let space = state.legal_space(side);
        proof {
            lemma_space_choices_below(*state, side);
            lemma_small_fits(space@, Action::Space);
        }
        let mut out = shift_exec(space.as_slice(), Action::Space);
        let before_after = cards_to_indices(&state.deck.opp_events_fire(side, state));
        let event = cards_to_indices(&state.deck.can_event(side, state));
        let ops = cards_to_indices(&state.deck.can_play_ops(side, state));
        proof {
            lemma_card_idx_below(opp_fire(*state, side));
            lemma_card_idx_below(own_events(*state, side));
            lemma_card_idx_below(ops_cards(*state, side));
            lemma_small_fits(before_after@, Action::EventOps);
            lemma_small_fits(before_after@, Action::OpsEvent);
            lemma_small_fits(event@, Action::Event);
            lemma_small_fits(ops@, Action::Ops);
        }
        extend(&mut out, shift_exec(before_after.as_slice(), Action::EventOps));
        extend(&mut out, shift_exec(before_after.as_slice(), Action::OpsEvent));
        extend(&mut out, shift_exec(event.as_slice(), Action::Event));
        extend(&mut out, shift_exec(ops.as_slice(), Action::Ops));
        out
    }
}

/// Whether an output index stands for the event of a scoring card.
fn is_scoring_event(o: &OutputIndex) -> (r: bool)
    ensures
        r == scoring_event_at(o@),
{
    reveal(scoring_event_at);
    let decoded = o.decode();
    if decoded.action == Action::Event {
        let c = decoded.choice.unwrap();
        c < NUM_CARDS && Card::from_index(c).is_scoring()
    } else {
        false
    }
}

/// Whether a list of output indices holds the event of a scoring card.
fn any_scoring_event(v: &Vec<OutputIndex>) -> (r: bool)
    ensures
        r == has_scoring_event(positions(v@)),
{
    let ghost p = positions(v@);
    let mut i: usize = 0;
    while i < v.len()
        invariant
            i <= v.len(),
            p == positions(v@),
            forall|j: int| 0 <= j < i ==> !#[trigger] scoring_event_at(p[j]),
        decreases v.len() - i,
    {
        if is_scoring_event(&v[i]) {
            proof { assert(scoring_event_at(p[i as int])); }
            return true;
        }
        i = i + 1;
    }
    false
}

impl Decision {
    /// The output indices of the start of an action round.
    fn encode_begin(&self, state: &GameState) -> (r: Vec<OutputIndex>)
        requires
            begin_ar_ok(*state, self.agent),
        ensures
            positions(r@) == begin_ar_spec(*state, self.agent),
    {
        let agent = self.agent;
        let mut standard = if state.has_effect(agent, Effect::MissileEnvy) {
            let v = vec![Card::Missile_Envy.index()];
            proof {
                assert(v@ =~= seq![card_index(Card::Missile_Envy)]);
                lemma_card_index_inverse(Card::Missile_Envy);
                lemma_small_fits(v@, Action::Ops);
            }
            shift_exec(v.as_slice(), Action::Ops)
        } else {
            self.encode_begin_ar(state)
        };
        let left = state.ar_left(agent);
        if state.deck.must_play_scoring(agent, left) {
            if !any_scoring_event(&standard) {
                let scoring = state.deck.scoring_cards(agent).iter_indices();
                proof {
                    lemma_scoring_idx_below(*state, agent);
                    lemma_small_fits(scoring@, Action::Event);
                }
                extend(&mut standard, shift_exec(scoring.as_slice(), Action::Event));
            }
        }
        standard
    }

    /// The output indices this decision allows. A lazy list of choices is computed from the
    /// position and kept.
    pub fn encode(&mut self, state: &GameState) -> (r: Vec<OutputIndex>)
        requires
            encode_ok(crate::state::dview(*old(self)), *state),
        ensures
            positions(r@) == encode_spec(crate::state::dview(*old(self)), *state),
            final(self).agent == old(self).agent,
            final(self).action == old(self).action,
            final(self).quantity == old(self).quantity,
            final(self).allowed@ == old(self).allowed@
                || (old(self).allowed@ is Lazy && final(self).allowed@ == AllowedView::Known(forced_choices(old(self).allowed@, *state))),
    {
        let action = self.action;
        let agent = self.agent;
        match action {
            Action::BeginAr => self.encode_begin(state),
            Action::ConductOps => {
                let inf = state.legal_influence(agent, self.quantity);
                let coup_realign = state.legal_coup_realign(agent);
                proof {
                    lemma_access_below(*state, agent);
                    lemma_filter_below(crate::country::access_spec(*state, agent),
                        |i: usize| influence_ok(*state, agent, self.quantity, i), (NUM_COUNTRIES - 2) as int);
                    lemma_small_fits(inf@, Action::Influence);
                    lemma_coup_targets_below(*state, agent);
                    lemma_small_fits(coup_realign@, Action::Coup);
                    lemma_small_fits(coup_realign@, Action::Realignment);
                }
                let mut out = shift_exec(inf.as_slice(), Action::Influence);
                if !state.has_effect(agent, Effect::CubanMissileCrisis) {
                    extend(&mut out, shift_exec(coup_realign.as_slice(), Action::Coup));
                }
                extend(&mut out, shift_exec(coup_realign.as_slice(), Action::Realignment));
                out
            },
            Action::CubanMissile => {
                let pass = vec![OutputIndex::pass()];
                let mut out = pass;
                let remove = self.allowed.force_slice(state);
                proof {
                    assert(positions(out@) =~= seq![offset_spec(action_index_of(Action::Pass) as nat) as usize]);
                }
                extend(&mut out, shift_exec(remove, Action::CubanMissile));
                out
            },
            _ => {
                if action == Action::Coup && state.has_effect(agent, Effect::CubanMissileCrisis) {
                    let out = vec![OutputIndex::pass()];
                    proof {
                        assert(positions(out@) =~= seq![offset_spec(action_index_of(Action::Pass) as nat) as usize]);
                    }
                    out
                } else {
                    let v = self.allowed.force_slice(state);
                    shift_exec(v, action)
                }
            },
        }
    }
}

impl GameState {
    /// The output indices of the next pending decision, or passing when none is pending.
    pub fn next_legal(&mut self) -> (r: Vec<OutputIndex>)
        requires
            old(self).pending_v().len() > 0 ==> encode_ok(crate::state::dview(old(self).pending_v().last()), *old(self)),
        ensures
            old(self).pending_v().len() == 0 ==> positions(r@) == seq![offset_spec(action_index_of(Action::Pass) as nat) as usize],
            old(self).pending_v().len() > 0 ==> positions(r@) == encode_spec(crate::state::dview(old(self).pending_v().last()), *old(self)),
            final(self).same_but_pending(old(self)),
            final(self).pending_v().len() == old(self).pending_v().len(),
    {
        let n = self.pending.len();
        if n == 0 {
            let out = vec![OutputIndex::pass()];
            proof {
                assert(positions(out@) =~= seq![offset_spec(action_index_of(Action::Pass) as nat) as usize]);
            }
            out
        } else {
            let mut d = self.pending[n - 1].clone();
            let encoded = d.encode(&*self);
            self.pending.set(n - 1, d);
            encoded
        }
    }
}

} // verus!
