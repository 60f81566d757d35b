use vstd::prelude::*;
use crate::action::{Action, AllowedView, LazyRule, Restriction};
use crate::card::{card_att, card_index, card_of, ops_spec, Card, Effect, NUM_CARDS};
use crate::card::deck::{bits_to_cards, hand_pile, max_ops, true_indices, Pile, CARD_BITS};
use crate::country::{cname_index, controller_spec, opposite_spec, region_countries, CName, Region, Side, NUM_COUNTRIES};
use crate::state::{ops_offset_spec, pending_after, pending_before, war_targets, with_inf, GameState};

verus! {

/// The decisions that a list of pushes puts on the stack, bottom first: each pushed decision
/// with the clearing of an event below an event, and with the Cuban Missile Crisis choice
/// above a coup or operations of a side the crisis binds.
pub open(crate) spec fn stacked(s: GameState, ds: Seq<(Side, Action, AllowedView, i8)>) -> Seq<(Side, Action, AllowedView, i8)>
    decreases ds.len(),
{
    if ds.len() == 0 {
        seq![]
    } else {
        stacked(s, ds.drop_last()) + pending_before(ds.last()) + seq![ds.last()] + pending_after(s, ds.last())
    }
}

/// The countries of a list that a side does not control.
pub open(crate) spec fn not_controlled(s: GameState, list: Seq<usize>, side: Side) -> Seq<usize> {
    list.filter(|i: usize| controller_spec(s.countries_v()[i as int]) != side)
}

/// A decision view with a known list of choices.
pub open(crate) spec fn known(agent: Side, action: Action, list: Seq<usize>, q: i8) -> (Side, Action, AllowedView, i8) {
    (agent, action, AllowedView::Known(list), q)
}

/// The limit on repeated choices that an event of the cards up to Decolonization sets, if any.
pub open(crate) spec fn limit_a(c: Card) -> Option<usize> {
    match c {
        Card::Socialist_Governments | Card::Suez_Crisis => Some(2usize),
        Card::Comecon | Card::Marshall_Plan | Card::East_European_Unrest | Card::Decolonization => Some(1usize),
        _ => None,
    }
}

/// The decisions that the events of the cards up to Decolonization push, played by `side`
/// on `s`, bottom first. Five-Year Plan is left out: what it pushes depends on the card
/// drawn at random.
pub open(crate) spec fn pushes_a(c: Card, s: GameState, side: Side) -> Seq<(Side, Action, AllowedView, i8)> {
    let opp = opposite_spec(side);
    match c {
        Card::Socialist_Governments => seq![known(Side::USSR, Action::Remove,
            with_inf(s, region_countries(Region::WesternEurope), Side::US), 3)],
        Card::Comecon => seq![known(Side::USSR, Action::Place,
            not_controlled(s, region_countries(Region::EasternEurope), opp), 4)],
        Card::Truman_Doctrine => seq![known(Side::US, Action::Remove,
            not_controlled(s, region_countries(Region::Europe), opp), 1)],
        Card::Independent_Reds => seq![known(Side::US, Action::Place, with_inf(s, seq![cname_index(CName::Yugoslavia),
            cname_index(CName::Romania), cname_index(CName::Bulgaria), cname_index(CName::Hungary),
            cname_index(CName::Czechoslovakia)], Side::USSR), 1)],
        Card::Marshall_Plan => seq![known(Side::US, Action::Place,
            not_controlled(s, region_countries(Region::WesternEurope), opp), 7)],
        Card::Indo_Pakistani_War => seq![known(s.side_v(), Action::War,
            seq![cname_index(CName::India), cname_index(CName::Pakistan)], 1)],
        Card::CIA_Created => seq![(Side::US, Action::ConductOps, AllowedView::Unknown,
            (1 + if ops_offset_spec(s, Side::US) > 0 { ops_offset_spec(s, Side::US) as int } else { 0 }) as i8)],
        Card::Suez_Crisis => seq![known(Side::USSR, Action::Remove, with_inf(s, seq![cname_index(CName::France),
            cname_index(CName::UK), cname_index(CName::Israel)], opp), 4)],
        Card::East_European_Unrest => seq![known(Side::US, Action::Remove,
            with_inf(s, region_countries(Region::EasternEurope), opp), 3)],
        Card::Decolonization => seq![known(Side::USSR, Action::Place,
            region_countries(Region::Africa) + region_countries(Region::SoutheastAsia), 4)],
        _ => seq![],
    }
}

/// The stack and the restriction after an event: the decisions it pushes go on top of the
/// stack `base`, and a limit it sets replaces the restriction.
pub open(crate) spec fn stack_after(s0: GameState, s1: GameState, base: Seq<(Side, Action, AllowedView, i8)>,
    ds: Seq<(Side, Action, AllowedView, i8)>, limit: Option<usize>) -> bool {
    &&& s1.pending_views() == base + stacked(s0, ds)
    &&& s1.restrict_v() == match limit { Some(k) => Some(Restriction::Limit(k)), None => s0.restrict_v() }
}

/// What Five-Year Plan does to the deck and the stack: with an empty USSR hand nothing; else
/// a card drawn at random leaves the USSR hand, and a US card's event is pushed for the USSR.
pub open(crate) spec fn five_year_stack(s0: GameState, s1: GameState, base: Seq<(Side, Action, AllowedView, i8)>) -> bool {
    ||| true_indices(s0.deck_v().pile(hand_pile(Side::USSR))).len() == 0 && s1.deck_v() == s0.deck_v()
        && stack_after(s0, s1, base, seq![], None)
    ||| exists|k: Card| crate::card::deck::holds(s0.deck_v().pile(hand_pile(Side::USSR)), k)
        && #[trigger] five_year_drawn(s0, s1, base, k)
}

/// Five-Year Plan with card `k` drawn: `k` leaves the USSR hand, and its event is pushed for
/// the USSR when it is a US card.
pub open(crate) spec fn five_year_drawn(s0: GameState, s1: GameState, base: Seq<(Side, Action, AllowedView, i8)>, k: Card) -> bool {
    &&& crate::state::deck_played(s0.deck_v(), s1.deck_v(), Side::USSR, k)
    &&& stack_after(s0, s1, base, if card_att(k).side == Side::US {
        seq![known(Side::USSR, Action::Event, seq![card_index(k)], 1)]
    } else {
        seq![]
    }, None)
}

/// A card drawn at random out of a side's hand, if it holds any, leaves it.
pub open(crate) spec fn random_discard(d0: crate::card::deck::Deck, d1: crate::card::deck::Deck, side: Side) -> bool {
    ||| true_indices(d0.pile(hand_pile(side))).len() == 0 && d1 == d0
    ||| exists|k: Card| crate::card::deck::holds(d0.pile(hand_pile(side)), k) && #[trigger] crate::state::deck_played(d0, d1, side, k)
}

/// The China Card passed to the other side, face up or down, every pile as it was.
pub open(crate) spec fn china_passed(d0: crate::card::deck::Deck, d1: crate::card::deck::Deck, up: bool) -> bool {
    &&& d1.china_holder() == opposite_spec(d0.china_holder())
    &&& d1.china_face_up() == up
    &&& forall|p: Pile| #[trigger] d1.pile(p) == d0.pile(p)
}

/// What an event does to the deck, played by `side`: Terrorism discards a random card of the
/// opponent's hand, two when the USSR plays it under the Iranian Hostage Crisis; the Cultural
/// Revolution, Nixon Plays China and the Ussuri River Skirmish may pass the China Card;
/// Five-Year Plan's draw is stated with its stack; every other event leaves the deck alone.
pub open(crate) spec fn deck_event(c: Card, s0: GameState, s1: GameState, side: Side) -> bool {
    let d0 = s0.deck_v();
    let d1 = s1.deck_v();
    match c {
        Card::Five_Year_Plan => true,
        Card::Terrorism => exists|dm: crate::card::deck::Deck| #[trigger] random_discard(d0, dm, opposite_spec(side))
            && if side == Side::USSR && s0.effects_v(Side::USSR).contains(Effect::TerrorismPlus) {
                random_discard(dm, d1, opposite_spec(side))
            } else {
                d1 == dm
            },
        Card::Cultural_Revolution => if d0.china_holder() == Side::US { china_passed(d0, d1, true) } else { d1 == d0 },
        Card::Nixon_Plays_China => if d0.china_holder() == Side::USSR { china_passed(d0, d1, false) } else { d1 == d0 },
        Card::Ussuri_River_Skirmish => if d0.china_holder() == Side::US { d1 == d0 } else { china_passed(d0, d1, true) },
        _ => d1 == d0,
    }
}

/// What the events of the cards up to Decolonization do to the stack of decisions, on top of
/// `base`, and to the restriction on repeated choices.
pub open(crate) spec fn stack_a(c: Card, s0: GameState, s1: GameState, side: Side, base: Seq<(Side, Action, AllowedView, i8)>) -> bool {
    if c == Card::Five_Year_Plan {
        five_year_stack(s0, s1, base)
    } else {
        stack_after(s0, s1, base, pushes_a(c, s0, side), limit_a(c))
    }
}

/// The cards of a side's hand that belong to its opponent, by number.
pub open(crate) spec fn opponent_cards(s: GameState, side: Side) -> Seq<usize> {
    true_indices(s.deck_v().pile(hand_pile(side))).filter(|i: usize| card_att(card_of(i)).side == opposite_spec(side))
}

/// The cards of a side's hand with the most operations, as bits by card number.
pub open(crate) spec fn highest_bits(s: GameState, side: Side) -> Seq<bool> {
    let hand = s.deck_v().pile(hand_pile(side));
    Seq::new(CARD_BITS as nat, |i: int| i < NUM_CARDS && hand[i]
        && card_att(card_of(i as usize)).ops == max_ops(bits_to_cards(hand)))
}

/// Every country but the two superpowers, by number.
pub open(crate) spec fn all_but_superpowers() -> Seq<usize> {
    Seq::new((NUM_COUNTRIES - 2) as nat, |i: int| i as usize)
}

/// The DEFCON levels one step from a level, the level itself included, that exist.
pub open(crate) spec fn defcon_steps(d: i8) -> Seq<usize> {
    let a: Seq<usize> = if 1 <= d - 1 <= 5 { seq![(d - 1) as usize] } else { seq![] };
    let b: Seq<usize> = if 1 <= d <= 5 { a.push(d as usize) } else { a };
    if 1 <= d + 1 <= 5 { b.push((d + 1) as usize) } else { b }
}

/// The limit on repeated choices that an event of the cards from Red Scare/Purge to the U2
/// Incident sets, if any.
pub open(crate) spec fn limit_b(c: Card) -> Option<usize> {
    if c == Card::De_Stalinization { Some(2usize) } else { None }
}

/// The decisions that the events of the cards from Red Scare/Purge to the U2 Incident push,
/// bottom first. The Summit is left out: what it pushes depends on the dice.
pub open(crate) spec fn pushes_b(c: Card, s: GameState, side: Side) -> Seq<(Side, Action, AllowedView, i8)> {
    let opp = opposite_spec(side);
    match c {
        Card::UN_Intervention => seq![known(side, Action::Ops, opponent_cards(s, side), 1)],
        Card::De_Stalinization => seq![
            known(Side::USSR, Action::Place, not_controlled(s, all_but_superpowers(), Side::US), 4),
            known(Side::USSR, Action::Remove, with_inf(s, all_but_superpowers(), Side::USSR), 4),
        ],
        Card::Brush_War => seq![known(side, Action::War, war_targets(s, side), 1)],
        Card::SALT_Negotiations => seq![known(side, Action::RecoverCard, true_indices(s.deck_v().pile(Pile::Discard)), 1)],
        Card::How_I_Learned_To_Stop_Worrying => seq![known(side, Action::ChangeDefcon, seq![1usize, 2, 3, 4, 5], 1)],
        Card::Missile_Envy => seq![known(opp, Action::ChooseCard, true_indices(highest_bits(s, opp)), 1)],
        Card::Muslim_Revolution => seq![
            (Side::USSR, Action::Remove, AllowedView::Lazy(LazyRule::MuslimRevolution), 1i8),
            (Side::USSR, Action::Remove, AllowedView::Lazy(LazyRule::MuslimRevolution), 1i8),
        ],
        Card::ABM_Treaty => seq![(side, Action::ConductOps, AllowedView::Unknown, ops_spec(c, ops_offset_spec(s, side) as i8) as i8)],
        _ => seq![],
    }
}

/// The six regions with a scoring card, in the order the Summit counts them.
pub open(crate) spec fn summit_regions() -> Seq<Region> {
    seq![Region::Europe, Region::MiddleEast, Region::Asia, Region::Africa, Region::CentralAmerica, Region::SouthAmerica]
}

/// Whether a side's standing in a region counts for the Summit: domination or control.
pub open(crate) spec fn summit_strong(st: crate::country::Status) -> bool {
    st == crate::country::Status::Domination || st == crate::country::Status::Control
}

/// The Summit bonus of a side over the first `k` of its regions: one for each region the
/// side dominates or controls.
pub open(crate) spec fn summit_bonus(s: GameState, k: nat, us: bool) -> int
    decreases k,
{
    if k == 0 {
        0
    } else {
        let st = crate::country::scoring::status_spec(summit_regions()[k - 1], s, false);
        summit_bonus(s, (k - 1) as nat, us) + if summit_strong(if us { st.0 } else { st.1 }) { 1int } else { 0int }
    }
}

/// The Summit with die rolls `us_roll` and `ussr_roll`: the side whose roll plus bonus is
/// higher gains two points and chooses the new DEFCON level; on a tie nothing happens.
pub open(crate) spec fn summit_rolled(s0: GameState, s1: GameState, base: Seq<(Side, Action, AllowedView, i8)>,
    us_roll: i8, ussr_roll: i8) -> bool {
    let us = us_roll + summit_bonus(s0, 6, true);
    let ussr = ussr_roll + summit_bonus(s0, 6, false);
    if us > ussr {
        s1.vp_v() == s0.vp_v() + 2 && stack_after(s0, s1, base,
            seq![known(Side::US, Action::ChangeDefcon, defcon_steps(s0.defcon_v()), 1)], None)
    } else if ussr > us {
        s1.vp_v() == s0.vp_v() - 2 && stack_after(s0, s1, base,
            seq![known(Side::USSR, Action::ChangeDefcon, defcon_steps(s0.defcon_v()), 1)], None)
    } else {
        s1.vp_v() == s0.vp_v() && stack_after(s0, s1, base, seq![], None)
    }
}

/// What the Summit does: for some die rolls of one to six, as `summit_rolled` says.
pub open(crate) spec fn summit_stack(s0: GameState, s1: GameState, base: Seq<(Side, Action, AllowedView, i8)>) -> bool {
    exists|us_roll: i8, ussr_roll: i8| 1 <= us_roll <= 6 && 1 <= ussr_roll <= 6
        && #[trigger] summit_rolled(s0, s1, base, us_roll, ussr_roll)
}

/// What the events of the cards from Red Scare/Purge to the U2 Incident do to the stack of
/// decisions, on top of `base`, and to the restriction on repeated choices.
pub open(crate) spec fn stack_b(c: Card, s0: GameState, s1: GameState, side: Side, base: Seq<(Side, Action, AllowedView, i8)>) -> bool {
    if c == Card::Summit {
        summit_stack(s0, s1, base)
    } else {
        stack_after(s0, s1, base, pushes_b(c, s0, side), limit_b(c))
    }
}

/// The countries, superpowers aside, where neither side has influence.
pub open(crate) spec fn empty_countries(s: GameState) -> Seq<usize> {
    all_but_superpowers().filter(|i: usize| s.countries_v()[i as int].us == 0 && s.countries_v()[i as int].ussr == 0)
}

/// The countries after the last of Europe, superpowers aside.
pub open(crate) spec fn beyond_europe() -> Seq<usize> {
    let k = region_countries(Region::Europe).last() + 1;
    Seq::new((NUM_COUNTRIES - 2 - k) as nat, |i: int| (k + i) as usize)
}

/// The limit on repeated choices that an event of the cards from OPEC to the Ussuri River
/// Skirmish sets, if any.
pub open(crate) spec fn limit_c(c: Card, s: GameState) -> Option<usize> {
    match c {
        Card::Colonial_Rear_Guards | Card::Puppet_Governments => Some(1usize),
        Card::The_Voice_Of_America | Card::Liberation_Theology => Some(2usize),
        Card::Ussuri_River_Skirmish => if s.deck_v().china_holder() == Side::US { Some(2usize) } else { None },
        _ => None,
    }
}

/// The decisions that the events of the cards from OPEC to the Ussuri River Skirmish push,
/// bottom first. Grain Sales is left out: what it pushes depends on the card drawn.
pub open(crate) spec fn pushes_c(c: Card, s: GameState) -> Seq<(Side, Action, AllowedView, i8)> {
    match c {
        Card::Lone_Gunman => seq![(Side::USSR, Action::ConductOps, AllowedView::Unknown,
            ops_spec(c, ops_offset_spec(s, Side::USSR) as i8) as i8)],
        Card::Colonial_Rear_Guards => seq![known(Side::US, Action::Place,
            region_countries(Region::Africa) + region_countries(Region::SoutheastAsia), 4)],
        Card::Puppet_Governments => seq![known(Side::US, Action::Place, empty_countries(s), 3)],
        Card::OAS_Founded => seq![known(Side::US, Action::Place,
            region_countries(Region::SouthAmerica) + region_countries(Region::CentralAmerica), 2)],
        Card::The_Voice_Of_America => seq![known(Side::US, Action::Remove, with_inf(s, beyond_europe(), Side::USSR), 4)],
        Card::Liberation_Theology => seq![known(Side::USSR, Action::Place, region_countries(Region::CentralAmerica), 3)],
        Card::Ussuri_River_Skirmish => if s.deck_v().china_holder() == Side::US {
            seq![known(Side::USSR, Action::Place, region_countries(Region::Asia), 4)]
        } else {
            seq![]
        },
        _ => seq![],
    }
}

/// What Grain Sales pushes: with a card drawn from the USSR hand, the US choice between
/// playing it and giving it back; with an empty hand, two operations for the US.
pub open(crate) spec fn grain_stack(s0: GameState, s1: GameState, base: Seq<(Side, Action, AllowedView, i8)>) -> bool {
    if true_indices(s0.deck_v().pile(hand_pile(Side::USSR))).len() == 0 {
        stack_after(s0, s1, base, seq![(Side::US, Action::ConductOps, AllowedView::Unknown,
            (2 + ops_offset_spec(s0, Side::US)) as i8)], None)
    } else {
        exists|k: Card| crate::card::deck::holds(s0.deck_v().pile(hand_pile(Side::USSR)), k)
            && #[trigger] grain_choice(s0, s1, base, k)
    }
}

/// The US choice between playing a card drawn by Grain Sales and giving it back, pushed.
pub open(crate) spec fn grain_choice(s0: GameState, s1: GameState, base: Seq<(Side, Action, AllowedView, i8)>, k: Card) -> bool {
    stack_after(s0, s1, base, seq![known(Side::US, Action::ChooseCard, seq![0usize, card_index(k)], 1)], None)
}

/// What the events of the cards from OPEC to the Ussuri River Skirmish do to the stack of
/// decisions, on top of `base`, and to the restriction on repeated choices.
pub open(crate) spec fn stack_c(c: Card, s0: GameState, s1: GameState, base: Seq<(Side, Action, AllowedView, i8)>) -> bool {
    if c == Card::Grain_Sales {
        grain_stack(s0, s1, base)
    } else {
        stack_after(s0, s1, base, pushes_c(c, s0), limit_c(c, s0))
    }
}

/// What an event of the cards from OPEC to the Ussuri River Skirmish pushes depends on
/// nothing but the board and the deck.
pub(crate) proof fn lemma_stack_c_frame(c: Card, s: GameState, t: GameState, s1: GameState,
    base: Seq<(Side, Action, AllowedView, i8)>)
    requires
        t.countries_v() == s.countries_v(),
        t.effects_v(Side::US) == s.effects_v(Side::US),
        t.effects_v(Side::USSR) == s.effects_v(Side::USSR),
        t.restrict_v() == s.restrict_v(),
        t.deck_v() == s.deck_v(),
        stack_c(c, t, s1, base),
    ensures
        stack_c(c, s, s1, base),
{
    lemma_stacked_frame(s, t, pushes_c(c, s));
    assert(pushes_c(c, t) == pushes_c(c, s));
    if c == Card::Grain_Sales {
        lemma_stacked_frame(s, t, seq![(Side::US, Action::ConductOps, AllowedView::Unknown, (2 + ops_offset_spec(s, Side::US)) as i8)]);
        if true_indices(s.deck_v().pile(hand_pile(Side::USSR))).len() != 0 {
            let k = choose|k: Card| crate::card::deck::holds(t.deck_v().pile(hand_pile(Side::USSR)), k)
                && #[trigger] grain_choice(t, s1, base, k);
            lemma_stacked_frame(s, t, seq![known(Side::US, Action::ChooseCard, seq![0usize, card_index(k)], 1)]);
            assert(grain_choice(s, s1, base, k));
        }
    }
}

/// The first entry of a list that is not `x`, if any, as a list of at most one.
pub open(crate) spec fn first_other(v: Seq<usize>, x: usize) -> Seq<usize>
    decreases v.len(),
{
    if v.len() == 0 {
        seq![]
    } else if v[0] != x {
        seq![v[0]]
    } else {
        first_other(v.drop_first(), x)
    }
}

/// The events Star Wars may play again: the discarded cards that may be played now (outside
/// the headline, or any but the China Card and UN Intervention in it), and the first card
/// discarded this round other than Star Wars itself.
pub open(crate) spec fn star_wars_choices(s: GameState) -> Seq<usize> {
    true_indices(s.deck_v().pile(Pile::Discard)).filter(|i: usize| s.ar_v() != 0
        || !(card_of(i) == Card::The_China_Card || card_of(i) == Card::UN_Intervention))
        + first_other(true_indices(s.deck_v().pile(Pile::PendingDiscard)), card_index(Card::Star_Wars))
}

/// The countries of the Middle East where the US keeps influence once Lebanon is cleared of it.
pub open(crate) spec fn barracks_choices(s: GameState) -> Seq<usize> {
    region_countries(Region::MiddleEast).filter(|i: usize|
        crate::country::influence_spec(crate::card::board::cleared(s.countries_v(), Side::US, CName::Lebanon)[i as int], Side::US) > 0)
}

/// The limit on repeated choices that an event of the cards from Ask Not to Glasnost sets,
/// if any.
pub open(crate) spec fn limit_d(c: Card) -> Option<usize> {
    if c == Card::The_Reformer { Some(2usize) } else { None }
}

/// The decisions that the events of the cards from Ask Not to Glasnost push, bottom first.
pub open(crate) spec fn pushes_d(c: Card, s: GameState) -> Seq<(Side, Action, AllowedView, i8)> {
    match c {
        Card::Ask_Not => {
            let hand = true_indices(s.deck_v().pile(hand_pile(Side::US)));
            seq![known(Side::US, Action::ChooseCard, hand, hand.len() as i8)]
        },
        Card::Star_Wars => seq![known(Side::US, Action::Event, star_wars_choices(s), 1)],
        Card::The_Reformer => seq![known(Side::USSR, Action::Place, region_countries(Region::Europe),
            if s.vp_v() < 0 { 6i8 } else { 4i8 })],
        Card::Marine_Barracks_Bombing => seq![known(Side::USSR, Action::Remove, barracks_choices(s), 2)],
        Card::Soviets_Shoot_Down_KAL => if controller_spec(s.countries_v()[cname_index(CName::SKorea) as int]) == Side::US {
            seq![(Side::US, Action::ConductOps, AllowedView::Unknown, ops_spec(c, ops_offset_spec(s, Side::US) as i8) as i8)]
        } else {
            seq![]
        },
        Card::Glasnost => if s.effects_v(Side::USSR).contains(Effect::Reformer) {
            seq![(Side::USSR, Action::ConductOps, AllowedView::Unknown, ops_spec(c, ops_offset_spec(s, Side::USSR) as i8) as i8)]
        } else {
            seq![]
        },
        _ => seq![],
    }
}

/// What the events of the cards from Ask Not to Glasnost do to the stack of decisions, on
/// top of `base`, and to the restriction on repeated choices.
pub open(crate) spec fn stack_d(c: Card, s0: GameState, s1: GameState, base: Seq<(Side, Action, AllowedView, i8)>) -> bool {
    stack_after(s0, s1, base, pushes_d(c, s0), limit_d(c))
}

/// What an event of the cards from Ask Not to Glasnost pushes depends on nothing but the
/// board, the deck and the action round.
pub(crate) proof fn lemma_stack_d_frame(c: Card, s: GameState, t: GameState, s1: GameState,
    base: Seq<(Side, Action, AllowedView, i8)>)
    requires
        t.countries_v() == s.countries_v(),
        t.effects_v(Side::US) == s.effects_v(Side::US),
        t.effects_v(Side::USSR) == s.effects_v(Side::USSR),
        t.restrict_v() == s.restrict_v(),
        t.deck_v() == s.deck_v(),
        t.vp_v() == s.vp_v(),
        t.ar_v() == s.ar_v(),
        stack_d(c, t, s1, base),
    ensures
        stack_d(c, s, s1, base),
{
    lemma_stacked_frame(s, t, pushes_d(c, s));
    assert(pushes_d(c, t) == pushes_d(c, s));
}

/// The countries next to Nicaragua where the US keeps influence once Nicaragua is cleared
/// of it.
pub open(crate) spec fn ortega_choices(s: GameState) -> Seq<usize> {
    crate::country::neighbors(crate::country::edge_list(), cname_index(CName::Nicaragua)).filter(|i: usize|
        crate::country::influence_spec(crate::card::board::cleared(s.countries_v(), Side::US, CName::Nicaragua)[i as int], Side::US) > 0)
}

/// The countries of the regions of a list of scoring cards, one region after the other.
pub open(crate) spec fn scored_regions(cards: Seq<Card>) -> Seq<usize>
    decreases cards.len(),
{
    if cards.len() == 0 {
        seq![]
    } else {
        scored_regions(cards.drop_last()) + match crate::card::scoring_region_spec(cards.last()) {
            Some(r) => region_countries(r),
            None => seq![],
        }
    }
}

/// The countries of Latin America and then Africa that are no battleground and hold US
/// influence.
pub open(crate) spec fn che_choices(s: GameState) -> Seq<usize> {
    (region_countries(Region::SouthAmerica) + region_countries(Region::CentralAmerica) + region_countries(Region::Africa))
        .filter(|i: usize| !s.countries_v()[i as int].bg && crate::country::influence_spec(s.countries_v()[i as int], Side::US) > 0)
}

/// The decisions that the events of the cards from Ortega Elected to AWACS push, bottom
/// first.
pub open(crate) spec fn pushes_e(c: Card, s: GameState, side: Side) -> Seq<(Side, Action, AllowedView, i8)> {
    match c {
        Card::Ortega_Elected => seq![known(Side::USSR, Action::Coup, ortega_choices(s),
            ops_spec(c, ops_offset_spec(s, Side::USSR) as i8) as i8)],
        Card::Chernobyl => seq![known(Side::US, Action::BlockRegion, Seq::new(6, |i: int| i as usize), 1)],
        Card::Tear_Down_This_Wall => seq![(Side::US, Action::ConductOps, AllowedView::Unknown,
            ops_spec(c, ops_offset_spec(s, Side::US) as i8) as i8)],
        Card::Aldrich_Ames_Remix => seq![known(Side::USSR, Action::Discard, true_indices(s.deck_v().pile(hand_pile(Side::US))), 1)],
        Card::Pershing_II_Deployed => seq![known(Side::USSR, Action::Remove,
            with_inf(s, region_countries(Region::WesternEurope), Side::US), 3)],
        Card::Iran_Iraq_War => seq![known(side, Action::War, seq![cname_index(CName::Iran), cname_index(CName::Iraq)], 1)],
        Card::The_Cambridge_Five => if true_indices(s.deck_v().scoring_cards_spec(Side::US)).len() > 0 {
            seq![known(Side::US, Action::Place, scored_regions(bits_to_cards(s.deck_v().scoring_cards_spec(Side::US))), 1)]
        } else {
            seq![]
        },
        Card::Special_Relationship => if s.effects_v(Side::US).contains(Effect::Nato) {
            seq![known(Side::US, Action::Place, region_countries(Region::WesternEurope), 1)]
        } else {
            seq![known(Side::US, Action::Place, crate::country::neighbors(crate::country::edge_list(), cname_index(CName::UK)), 1)]
        },
        Card::Che => seq![known(Side::USSR, Action::Coup, che_choices(s), ops_spec(c, ops_offset_spec(s, Side::USSR) as i8) as i8)],
        _ => seq![],
    }
}

/// What the events of the cards from Ortega Elected to AWACS do to the stack of decisions,
/// on top of `base`, and to the restriction on repeated choices: Che sets a limit of one.
pub open(crate) spec fn stack_e(c: Card, s0: GameState, s1: GameState, side: Side, base: Seq<(Side, Action, AllowedView, i8)>) -> bool {
    stack_after(s0, s1, base, pushes_e(c, s0, side), if c == Card::Che { Some(1usize) } else { None })
}

/// What an event of the cards from Ortega Elected to AWACS pushes depends on nothing but the
/// board and the deck.
pub(crate) proof fn lemma_stack_e_frame(c: Card, s: GameState, t: GameState, s1: GameState, side: Side,
    base: Seq<(Side, Action, AllowedView, i8)>)
    requires
        t.countries_v() == s.countries_v(),
        t.effects_v(Side::US) == s.effects_v(Side::US),
        t.effects_v(Side::USSR) == s.effects_v(Side::USSR),
        t.restrict_v() == s.restrict_v(),
        t.deck_v() == s.deck_v(),
        stack_e(c, t, s1, side, base),
    ensures
        stack_e(c, s, s1, side, base),
{
    lemma_stacked_frame(s, t, pushes_e(c, s, side));
    assert(pushes_e(c, t, side) == pushes_e(c, s, side));
}

/// The US cards worth three or more operations, by number, that a discard may take.
pub open(crate) spec fn us_three_ops(s: GameState) -> Seq<usize> {
    crate::tensor::encode::card_idx(bits_to_cards(s.deck_v().pile(hand_pile(Side::US))).filter(
        |c: Card| ops_spec(c, ops_offset_spec(s, Side::US) as i8) >= 3))
}

/// The South American countries with USSR influence, counted from the first of the region.
pub open(crate) spec fn debt_crisis_choices(s: GameState) -> Seq<usize> {
    region_countries(Region::SouthAmerica)
        .filter(|i: usize| crate::country::influence_spec(s.countries_v()[i as int], Side::USSR) > 0)
        .map_values(|i: usize| (i - crate::country::low_high_spec(Region::SouthAmerica).0) as usize)
}

/// The limit on repeated choices that an option of a special event sets, if any.
pub open(crate) spec fn special_limit(c: Card, choice: usize) -> Option<usize> {
    match c {
        Card::Latin_American_Debt_Crisis => if choice == 0 { Some(1usize) } else { None },
        Card::Warsaw_Pact_Formed => if choice == 0 { None } else { Some(2usize) },
        _ => None,
    }
}

/// The decisions that an option of a special event pushes, bottom first: Blockade's and the
/// Debt Crisis' discard of a US card worth three, the Debt Crisis' doubling of USSR
/// influence, Warsaw Pact's removal or placement, the operations of a boycott of the
/// Olympic Games, Junta's placement above its free coup or realignment, and the placement of
/// South African Unrest's second option.
pub open(crate) spec fn special_pushes(c: Card, s: GameState, side: Side, choice: usize) -> Seq<(Side, Action, AllowedView, i8)> {
    let latin = region_countries(Region::SouthAmerica) + region_countries(Region::CentralAmerica);
    match c {
        Card::Blockade => if choice == 0 { seq![] } else { seq![known(Side::US, Action::Discard, us_three_ops(s), 1)] },
        Card::Latin_American_Debt_Crisis => if choice == 0 {
            seq![known(Side::USSR, Action::DoubleInf, debt_crisis_choices(s), 2)]
        } else {
            seq![known(Side::US, Action::Discard, us_three_ops(s), 1)]
        },
        Card::Warsaw_Pact_Formed => if choice == 0 {
            seq![known(Side::USSR, Action::Remove, not_controlled(s, region_countries(Region::EasternEurope), opposite_spec(side)), 4)]
        } else {
            seq![known(Side::USSR, Action::Place, region_countries(Region::EasternEurope), 5)]
        },
        Card::Olympic_Games => {
            let m = ops_offset_spec(s, side);
            seq![(side, Action::ConductOps, AllowedView::Unknown, (if m < 0 { 4 + m } else { 4 }) as i8)]
        },
        Card::Junta => seq![
            known(side, if choice == 0 { Action::Coup } else { Action::Realignment },
                with_inf(s, latin, opposite_spec(side)), ops_spec(c, ops_offset_spec(s, side) as i8) as i8),
            known(side, Action::Place, latin, 1),
        ],
        Card::South_African_Unrest => if choice == 0 {
            seq![]
        } else {
            seq![known(Side::USSR, Action::Place, seq![cname_index(CName::Angola), cname_index(CName::Botswana)], 2)]
        },
        _ => seq![],
    }
}

/// What an event that is not a special one does to the stack of decisions and to the
/// restriction: the clearing of the event goes on the stack, and the decisions the event
/// pushes go above it.
pub open(crate) spec fn event_stack(c: Card, s0: GameState, s1: GameState, side: Side) -> bool {
    let base = s0.pending_views() + seq![(Side::Neutral, Action::ClearEvent, AllowedView::Known(Seq::empty()), 1i8)];
    if card_index(c) < 31 {
        stack_a(c, s0, s1, side, base)
    } else if card_index(c) < 61 {
        stack_b(c, s0, s1, side, base)
    } else if card_index(c) < 77 {
        stack_c(c, s0, s1, base)
    } else if card_index(c) < 91 {
        stack_d(c, s0, s1, base)
    } else {
        stack_e(c, s0, s1, side, base)
    }
}

/// Two positions that agree on the board, the deck and the turn put the same decisions above
/// any pushed ones.
pub(crate) proof fn lemma_stacked_frame(s: GameState, t: GameState, ds: Seq<(Side, Action, AllowedView, i8)>)
    requires
        t.countries_v() == s.countries_v(),
        t.effects_v(Side::US) == s.effects_v(Side::US),
        t.effects_v(Side::USSR) == s.effects_v(Side::USSR),
    ensures
        stacked(t, ds) == stacked(s, ds),
    decreases ds.len(),
{
    if ds.len() > 0 {
        lemma_stacked_frame(s, t, ds.drop_last());
    }
}

/// What an event of the cards up to Decolonization pushes depends on nothing but the board,
/// the deck, the turn and the phasing side.
pub(crate) proof fn lemma_stack_a_frame(c: Card, s: GameState, t: GameState, s1: GameState, side: Side,
    base: Seq<(Side, Action, AllowedView, i8)>)
    requires
        t.countries_v() == s.countries_v(),
        t.effects_v(Side::US) == s.effects_v(Side::US),
        t.effects_v(Side::USSR) == s.effects_v(Side::USSR),
        t.side_v() == s.side_v(),
        t.restrict_v() == s.restrict_v(),
        t.deck_v() == s.deck_v(),
        stack_a(c, t, s1, side, base),
    ensures
        stack_a(c, s, s1, side, base),
{
    lemma_stacked_frame(s, t, pushes_a(c, s, side));
    assert(pushes_a(c, t, side) == pushes_a(c, s, side));
    if c == Card::Five_Year_Plan {
        lemma_stacked_frame(s, t, Seq::<(Side, Action, AllowedView, i8)>::empty());
        if !(true_indices(t.deck_v().pile(hand_pile(Side::USSR))).len() == 0 && s1.deck_v() == t.deck_v()
            && stack_after(t, s1, base, seq![], None)) {
            let k = choose|k: Card| crate::card::deck::holds(t.deck_v().pile(hand_pile(Side::USSR)), k)
                && #[trigger] five_year_drawn(t, s1, base, k);
            lemma_stacked_frame(s, t, seq![known(Side::USSR, Action::Event, seq![card_index(k)], 1)]);
            assert(five_year_drawn(s, s1, base, k));
        }
    }
}

/// What an event of the cards from Red Scare/Purge to the U2 Incident pushes depends on
/// nothing but the board, the deck and the phasing side.
pub(crate) proof fn lemma_stack_b_frame(c: Card, s: GameState, t: GameState, s1: GameState, side: Side,
    base: Seq<(Side, Action, AllowedView, i8)>)
    requires
        t.countries_v() == s.countries_v(),
        t.effects_v(Side::US) == s.effects_v(Side::US),
        t.effects_v(Side::USSR) == s.effects_v(Side::USSR),
        t.side_v() == s.side_v(),
        t.restrict_v() == s.restrict_v(),
        t.deck_v() == s.deck_v(),
        t.vp_v() == s.vp_v(),
        t.defcon_v() == s.defcon_v(),
        stack_b(c, t, s1, side, base),
    ensures
        stack_b(c, s, s1, side, base),
{
    lemma_stacked_frame(s, t, pushes_b(c, s, side));
    assert(war_targets(t, side) == war_targets(s, side));
    assert(pushes_b(c, t, side) == pushes_b(c, s, side));
    if c == Card::Summit {
        lemma_stacked_frame(s, t, Seq::<(Side, Action, AllowedView, i8)>::empty());
        lemma_stacked_frame(s, t, seq![known(Side::US, Action::ChangeDefcon, defcon_steps(s.defcon_v()), 1)]);
        lemma_stacked_frame(s, t, seq![known(Side::USSR, Action::ChangeDefcon, defcon_steps(s.defcon_v()), 1)]);
        lemma_summit_bonus_frame(s, t, 6, true);
        lemma_summit_bonus_frame(s, t, 6, false);
        let (a, b) = choose|us_roll: i8, ussr_roll: i8| 1 <= us_roll <= 6 && 1 <= ussr_roll <= 6
            && #[trigger] summit_rolled(t, s1, base, us_roll, ussr_roll);
        assert(summit_rolled(s, s1, base, a, b));
    }
}

/// The Summit bonuses read nothing of a position but the map and the effects.
proof fn lemma_summit_bonus_frame(s: GameState, t: GameState, k: nat, us: bool)
    requires
        t.countries_v() == s.countries_v(),
        t.effects_v(Side::US) == s.effects_v(Side::US),
        t.effects_v(Side::USSR) == s.effects_v(Side::USSR),
        k <= 6,
    ensures
        summit_bonus(t, k, us) == summit_bonus(s, k, us),
    decreases k,
{
    if k > 0 {
        lemma_summit_bonus_frame(s, t, (k - 1) as nat, us);
        let r = summit_regions()[k - 1];
        assert(crate::country::scoring::adjusted_tally(r, t, false) == crate::country::scoring::adjusted_tally(r, s, false));
    }
}

/// Pushing one more decision puts it above what the others put.
pub(crate) proof fn lemma_push_next(s: GameState, p: Seq<(Side, Action, AllowedView, i8)>,
    ds: Seq<(Side, Action, AllowedView, i8)>, d: (Side, Action, AllowedView, i8))
    ensures
        p + stacked(s, ds.push(d)) == p + stacked(s, ds) + pending_before(d) + seq![d] + pending_after(s, d),
{
    assert(ds.push(d).drop_last() =~= ds);
    assert(ds.push(d).last() == d);
    assert(p + stacked(s, ds.push(d)) =~= p + stacked(s, ds) + pending_before(d) + seq![d] + pending_after(s, d));
}

/// Pushing nothing leaves a stack as it was.
pub(crate) proof fn lemma_push_none(s: GameState, p: Seq<(Side, Action, AllowedView, i8)>)
    ensures
        p + stacked(s, seq![]) == p,
{
    assert(p + stacked(s, seq![]) =~= p);
}

/// Pushing one decision puts it on a stack with what goes below and above it.
pub(crate) proof fn lemma_push_one(s: GameState, p: Seq<(Side, Action, AllowedView, i8)>, d: (Side, Action, AllowedView, i8))
    ensures
        p + stacked(s, seq![d]) == p + pending_before(d) + seq![d] + pending_after(s, d),
{
    let one = seq![d];
    let e = one.drop_last();
    assert(e =~= Seq::<(Side, Action, AllowedView, i8)>::empty());
    assert(stacked(s, e) =~= Seq::<(Side, Action, AllowedView, i8)>::empty());
    assert(one.last() == d);
    assert(stacked(s, one) == stacked(s, e) + pending_before(d) + seq![d] + pending_after(s, d));
    assert(stacked(s, one) =~= pending_before(d) + seq![d] + pending_after(s, d));
    assert(p + stacked(s, seq![d]) =~= p + pending_before(d) + seq![d] + pending_after(s, d));
}

} // verus!
