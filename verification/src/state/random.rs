use vstd::prelude::*;
use crate::card::{card_att, card_index, Card, Deck};
use crate::card::deck::{bits_to_cards, hand_pile, holds, true_indices, Pile, CARD_BITS};
use crate::country::{opposite_spec, Side};
use rand::rngs::SmallRng;
use rand::{Rng, SeedableRng};

verus! {

/// The deck after the discard pile is shuffled into the draw pile: the draw pile holds
/// what both held, the discard pile is empty, and nothing else changes.
pub open spec fn deck_reshuffled(old_deck: Deck, new_deck: Deck) -> bool {
    &&& new_deck.wf()
    &&& forall|i: int| 0 <= i < CARD_BITS ==> #[trigger] new_deck.pile(Pile::Draw)[i]
        == (old_deck.pile(Pile::Draw)[i] || old_deck.pile(Pile::Discard)[i])
    &&& new_deck.pile(Pile::Discard) == Seq::new(CARD_BITS as nat, |i: int| false)
    &&& forall|p: Pile| p != Pile::Draw && p != Pile::Discard ==> #[trigger] new_deck.pile(p) == old_deck.pile(p)
    &&& new_deck.china_holder() == old_deck.china_holder()
    &&& new_deck.china_face_up() == old_deck.china_face_up()
}

/// The deck after a card of the draw pile moves into a side's hand.
pub open spec fn deck_moved(old_deck: Deck, new_deck: Deck, side: Side, c: Card) -> bool {
    &&& new_deck.wf()
    &&& holds(old_deck.pile(Pile::Draw), c)
    &&& new_deck.pile(Pile::Draw) == old_deck.pile(Pile::Draw).update(card_index(c) as int, false)
    &&& new_deck.pile(hand_pile(side)) == old_deck.pile(hand_pile(side)).update(card_index(c) as int, true)
    &&& forall|p: Pile| p != Pile::Draw && p != hand_pile(side) ==> #[trigger] new_deck.pile(p) == old_deck.pile(p)
    &&& new_deck.china_holder() == old_deck.china_holder()
    &&& new_deck.china_face_up() == old_deck.china_face_up()
}

/// The deck after a side draws a card: one card of the draw pile moves into its hand,
/// after the discard pile was shuffled in if the draw pile was empty.
pub open spec fn deck_drew(old_deck: Deck, new_deck: Deck, side: Side) -> bool {
    ||| exists|c: Card| #[trigger] deck_moved(old_deck, new_deck, side, c)
    ||| exists|c: Card, mid: Deck| deck_reshuffled(old_deck, mid) && #[trigger] deck_moved(mid, new_deck, side, c)
}

/// How many bits of a sequence are set.
pub open spec fn ones(s: Seq<bool>) -> nat
    decreases s.len(),
{
    if s.len() == 0 {
        0
    } else {
        ones(s.drop_last()) + if s.last() { 1nat } else { 0nat }
    }
}

/// Clearing a set bit sets one bit fewer.
pub proof fn lemma_ones_clear(s: Seq<bool>, i: int)
    requires
        0 <= i < s.len(),
        s[i],
    ensures
        ones(s.update(i, false)) + 1 == ones(s),
    decreases s.len(),
{
    if i == s.len() - 1 {
        assert(s.update(i, false).drop_last() =~= s.drop_last());
    } else {
        lemma_ones_clear(s.drop_last(), i);
        assert(s.update(i, false).drop_last() =~= s.drop_last().update(i, false));
    }
}

/// The union of two bit sequences sets no more bits than both together.
pub proof fn lemma_ones_or(a: Seq<bool>, b: Seq<bool>, c: Seq<bool>)
    requires
        a.len() == b.len(),
        c.len() == a.len(),
        forall|i: int| 0 <= i < c.len() ==> #[trigger] c[i] == (a[i] || b[i]),
    ensures
        ones(c) <= ones(a) + ones(b),
    decreases a.len(),
{
    if a.len() > 0 {
        lemma_ones_or(a.drop_last(), b.drop_last(), c.drop_last());
    }
}

/// A sequence of cleared bits sets none.
pub proof fn lemma_ones_none(n: nat)
    ensures
        ones(Seq::new(n, |i: int| false)) == 0,
    decreases n,
{
    if n > 0 {
        lemma_ones_none((n - 1) as nat);
        assert(Seq::new(n, |i: int| false).drop_last() =~= Seq::new((n - 1) as nat, |i: int| false));
    }
}

/// How many cards can still be drawn: those of the draw pile and of the discard pile.
pub open spec fn drawable(d: Deck) -> nat {
    ones(d.pile(Pile::Draw)) + ones(d.pile(Pile::Discard))
}

/// A draw leaves one card fewer to be drawn.
pub proof fn lemma_drew_fewer(d0: Deck, d1: Deck, side: Side)
    requires
        d0.wf(),
        deck_drew(d0, d1, side),
    ensures
        drawable(d1) < drawable(d0),
{
    d0.lemma_wf_piles(Pile::Draw);
    d0.lemma_wf_piles(Pile::Discard);
    if exists|c: Card| #[trigger] deck_moved(d0, d1, side, c) {
        let c = choose|c: Card| #[trigger] deck_moved(d0, d1, side, c);
        crate::card::lemma_card_index_inverse(c);
        lemma_ones_clear(d0.pile(Pile::Draw), card_index(c) as int);
    } else {
        let (c, mid) = choose|c: Card, mid: Deck| deck_reshuffled(d0, mid) && #[trigger] deck_moved(mid, d1, side, c);
        crate::card::lemma_card_index_inverse(c);
        mid.lemma_wf_piles(Pile::Draw);
        lemma_ones_clear(mid.pile(Pile::Draw), card_index(c) as int);
        lemma_ones_or(d0.pile(Pile::Draw), d0.pile(Pile::Discard), mid.pile(Pile::Draw));
        lemma_ones_none(CARD_BITS as nat);
    }
}

/// A deck that came from another by draws into the hands: the hands only grew, and with
/// cards of the draw or the discard pile; those two piles only shrank; nothing else moved.
pub open spec fn drawn_from(d0: Deck, d: Deck) -> bool {
    &&& d.wf()
    &&& forall|p: Pile| p != Pile::Draw && p != Pile::Discard && p != Pile::UsHand && p != Pile::UssrHand
        ==> #[trigger] d.pile(p) == d0.pile(p)
    &&& d.china_holder() == d0.china_holder()
    &&& d.china_face_up() == d0.china_face_up()
    &&& forall|i: int| 0 <= i < CARD_BITS ==> (d0.pile(Pile::UsHand)[i] ==> #[trigger] d.pile(Pile::UsHand)[i])
    &&& forall|i: int| 0 <= i < CARD_BITS ==> (d0.pile(Pile::UssrHand)[i] ==> #[trigger] d.pile(Pile::UssrHand)[i])
    &&& forall|i: int| 0 <= i < CARD_BITS ==> (#[trigger] d.pile(Pile::UsHand)[i] && !d0.pile(Pile::UsHand)[i]
        ==> d0.pile(Pile::Draw)[i] || d0.pile(Pile::Discard)[i])
    &&& forall|i: int| 0 <= i < CARD_BITS ==> (#[trigger] d.pile(Pile::UssrHand)[i] && !d0.pile(Pile::UssrHand)[i]
        ==> d0.pile(Pile::Draw)[i] || d0.pile(Pile::Discard)[i])
    &&& forall|i: int| #![trigger d.pile(Pile::Draw)[i]] #![trigger d.pile(Pile::Discard)[i]]
        0 <= i < CARD_BITS ==> (d.pile(Pile::Draw)[i] || d.pile(Pile::Discard)[i]
        ==> d0.pile(Pile::Draw)[i] || d0.pile(Pile::Discard)[i])
}

/// A draw after draws is still draws.
pub proof fn lemma_drawn_from_step(d0: Deck, d1: Deck, d2: Deck, side: Side)
    requires
        drawn_from(d0, d1),
        side != Side::Neutral,
        d2.wf(),
        deck_drew(d1, d2, side) || d2 == d1,
    ensures
        drawn_from(d0, d2),
{
    d1.lemma_wf_piles(Pile::Draw);
    d2.lemma_wf_piles(Pile::Draw);
    d1.lemma_wf_piles(Pile::UsHand);
    d2.lemma_wf_piles(Pile::UsHand);
    d1.lemma_wf_piles(Pile::UssrHand);
    d2.lemma_wf_piles(Pile::UssrHand);
    d1.lemma_wf_piles(Pile::Discard);
    d2.lemma_wf_piles(Pile::Discard);
    if d2 == d1 {
    } else {
        // The deck the card was drawn from: the old one, or the one after a reshuffle.
        let (c, mid) = if exists|c: Card| #[trigger] deck_moved(d1, d2, side, c) {
            let c = choose|c: Card| #[trigger] deck_moved(d1, d2, side, c);
            (c, d1)
        } else {
            choose|c: Card, mid: Deck| deck_reshuffled(d1, mid) && #[trigger] deck_moved(mid, d2, side, c)
        };
        assert(deck_moved(mid, d2, side, c));
        assert(mid == d1 || deck_reshuffled(d1, mid));
        let k = card_index(c) as int;
        crate::card::lemma_card_index_inverse(c);
        mid.lemma_wf_piles(Pile::Draw);
        mid.lemma_wf_piles(Pile::UsHand);
        mid.lemma_wf_piles(Pile::UssrHand);
        mid.lemma_wf_piles(Pile::Discard);
        assert(d2.pile(hand_pile(side)) == mid.pile(hand_pile(side)).update(k, true));
        assert(d2.pile(Pile::Draw) == mid.pile(Pile::Draw).update(k, false));
        let other = if side == Side::US { Pile::UssrHand } else { Pile::UsHand };
        assert(d2.pile(other) == mid.pile(other));
        assert(mid.pile(Pile::UsHand) == d1.pile(Pile::UsHand));
        assert(mid.pile(Pile::UssrHand) == d1.pile(Pile::UssrHand));
        assert(d2.pile(Pile::Discard) == mid.pile(Pile::Discard));
        assert forall|p: Pile| p != Pile::Draw && p != Pile::Discard && p != Pile::UsHand && p != Pile::UssrHand
            implies #[trigger] d2.pile(p) == d0.pile(p) by {
            assert(p != hand_pile(side));
            assert(d2.pile(p) == mid.pile(p));
            assert(mid.pile(p) == d1.pile(p));
        }
        assert forall|i: int| 0 <= i < CARD_BITS && (d0.pile(Pile::UsHand)[i]) implies #[trigger] d2.pile(Pile::UsHand)[i] by {
            assert(d0.pile(Pile::UsHand)[i] ==> d1.pile(Pile::UsHand)[i]);
            assert(d0.pile(Pile::UssrHand)[i] ==> d1.pile(Pile::UssrHand)[i]);
            assert(d1.pile(Pile::Draw)[i] || d1.pile(Pile::Discard)[i] ==> d0.pile(Pile::Draw)[i] || d0.pile(Pile::Discard)[i]);
            assert(d2.pile(Pile::Draw)[i] == (if i == k { false } else { mid.pile(Pile::Draw)[i] }));
            if side == Side::US {
                assert(d2.pile(Pile::UsHand)[i] == (if i == k { true } else { mid.pile(Pile::UsHand)[i] }));
                assert(d2.pile(Pile::UssrHand)[i] == mid.pile(Pile::UssrHand)[i]);
            } else {
                assert(d2.pile(Pile::UssrHand)[i] == (if i == k { true } else { mid.pile(Pile::UssrHand)[i] }));
                assert(d2.pile(Pile::UsHand)[i] == mid.pile(Pile::UsHand)[i]);
            }
            if i == k {
                assert(mid.pile(Pile::Draw)[k]);
                if mid == d1 {
                    assert(d1.pile(Pile::Draw)[k]);
                } else {
                    assert(d1.pile(Pile::Draw)[k] || d1.pile(Pile::Discard)[k]);
                }
            }
            if mid != d1 {
                assert(mid.pile(Pile::Draw)[i] == (d1.pile(Pile::Draw)[i] || d1.pile(Pile::Discard)[i]));
                assert(mid.pile(Pile::Discard)[i] == false);
            }
        }
        assert forall|i: int| 0 <= i < CARD_BITS && (d0.pile(Pile::UssrHand)[i]) implies #[trigger] d2.pile(Pile::UssrHand)[i] by {
            assert(d0.pile(Pile::UsHand)[i] ==> d1.pile(Pile::UsHand)[i]);
            assert(d0.pile(Pile::UssrHand)[i] ==> d1.pile(Pile::UssrHand)[i]);
            assert(d1.pile(Pile::Draw)[i] || d1.pile(Pile::Discard)[i] ==> d0.pile(Pile::Draw)[i] || d0.pile(Pile::Discard)[i]);
            assert(d2.pile(Pile::Draw)[i] == (if i == k { false } else { mid.pile(Pile::Draw)[i] }));
            if side == Side::US {
                assert(d2.pile(Pile::UsHand)[i] == (if i == k { true } else { mid.pile(Pile::UsHand)[i] }));
                assert(d2.pile(Pile::UssrHand)[i] == mid.pile(Pile::UssrHand)[i]);
            } else {
                assert(d2.pile(Pile::UssrHand)[i] == (if i == k { true } else { mid.pile(Pile::UssrHand)[i] }));
                assert(d2.pile(Pile::UsHand)[i] == mid.pile(Pile::UsHand)[i]);
            }
            if i == k {
                assert(mid.pile(Pile::Draw)[k]);
                if mid == d1 {
                    assert(d1.pile(Pile::Draw)[k]);
                } else {
                    assert(d1.pile(Pile::Draw)[k] || d1.pile(Pile::Discard)[k]);
                }
            }
            if mid != d1 {
                assert(mid.pile(Pile::Draw)[i] == (d1.pile(Pile::Draw)[i] || d1.pile(Pile::Discard)[i]));
                assert(mid.pile(Pile::Discard)[i] == false);
            }
        }
        assert forall|i: int| 0 <= i < CARD_BITS && (#[trigger] d2.pile(Pile::UsHand)[i] && !d0.pile(Pile::UsHand)[i]) implies d0.pile(Pile::Draw)[i] || d0.pile(Pile::Discard)[i] by {
            assert(d0.pile(Pile::UsHand)[i] ==> d1.pile(Pile::UsHand)[i]);
            assert(d0.pile(Pile::UssrHand)[i] ==> d1.pile(Pile::UssrHand)[i]);
            assert(d1.pile(Pile::Draw)[i] || d1.pile(Pile::Discard)[i] ==> d0.pile(Pile::Draw)[i] || d0.pile(Pile::Discard)[i]);
            assert(d2.pile(Pile::Draw)[i] == (if i == k { false } else { mid.pile(Pile::Draw)[i] }));
            if side == Side::US {
                assert(d2.pile(Pile::UsHand)[i] == (if i == k { true } else { mid.pile(Pile::UsHand)[i] }));
                assert(d2.pile(Pile::UssrHand)[i] == mid.pile(Pile::UssrHand)[i]);
            } else {
                assert(d2.pile(Pile::UssrHand)[i] == (if i == k { true } else { mid.pile(Pile::UssrHand)[i] }));
                assert(d2.pile(Pile::UsHand)[i] == mid.pile(Pile::UsHand)[i]);
            }
            if i == k {
                assert(mid.pile(Pile::Draw)[k]);
                if mid == d1 {
                    assert(d1.pile(Pile::Draw)[k]);
                } else {
                    assert(d1.pile(Pile::Draw)[k] || d1.pile(Pile::Discard)[k]);
                }
            }
            if mid != d1 {
                assert(mid.pile(Pile::Draw)[i] == (d1.pile(Pile::Draw)[i] || d1.pile(Pile::Discard)[i]));
                assert(mid.pile(Pile::Discard)[i] == false);
            }
        }
        assert forall|i: int| 0 <= i < CARD_BITS && (#[trigger] d2.pile(Pile::UssrHand)[i] && !d0.pile(Pile::UssrHand)[i]) implies d0.pile(Pile::Draw)[i] || d0.pile(Pile::Discard)[i] by {
            assert(d0.pile(Pile::UsHand)[i] ==> d1.pile(Pile::UsHand)[i]);
            assert(d0.pile(Pile::UssrHand)[i] ==> d1.pile(Pile::UssrHand)[i]);
            assert(d1.pile(Pile::Draw)[i] || d1.pile(Pile::Discard)[i] ==> d0.pile(Pile::Draw)[i] || d0.pile(Pile::Discard)[i]);
            assert(d2.pile(Pile::Draw)[i] == (if i == k { false } else { mid.pile(Pile::Draw)[i] }));
            if side == Side::US {
                assert(d2.pile(Pile::UsHand)[i] == (if i == k { true } else { mid.pile(Pile::UsHand)[i] }));
                assert(d2.pile(Pile::UssrHand)[i] == mid.pile(Pile::UssrHand)[i]);
            } else {
                assert(d2.pile(Pile::UssrHand)[i] == (if i == k { true } else { mid.pile(Pile::UssrHand)[i] }));
                assert(d2.pile(Pile::UsHand)[i] == mid.pile(Pile::UsHand)[i]);
            }
            if i == k {
                assert(mid.pile(Pile::Draw)[k]);
                if mid == d1 {
                    assert(d1.pile(Pile::Draw)[k]);
                } else {
                    assert(d1.pile(Pile::Draw)[k] || d1.pile(Pile::Discard)[k]);
                }
            }
            if mid != d1 {
                assert(mid.pile(Pile::Draw)[i] == (d1.pile(Pile::Draw)[i] || d1.pile(Pile::Discard)[i]));
                assert(mid.pile(Pile::Discard)[i] == false);
            }
        }
        assert forall|i: int| 0 <= i < CARD_BITS && (#[trigger] d2.pile(Pile::Draw)[i] || d2.pile(Pile::Discard)[i]) implies d0.pile(Pile::Draw)[i] || d0.pile(Pile::Discard)[i] by {
            assert(d0.pile(Pile::UsHand)[i] ==> d1.pile(Pile::UsHand)[i]);
            assert(d0.pile(Pile::UssrHand)[i] ==> d1.pile(Pile::UssrHand)[i]);
            assert(d1.pile(Pile::Draw)[i] || d1.pile(Pile::Discard)[i] ==> d0.pile(Pile::Draw)[i] || d0.pile(Pile::Discard)[i]);
            assert(d2.pile(Pile::Draw)[i] == (if i == k { false } else { mid.pile(Pile::Draw)[i] }));
            if side == Side::US {
                assert(d2.pile(Pile::UsHand)[i] == (if i == k { true } else { mid.pile(Pile::UsHand)[i] }));
                assert(d2.pile(Pile::UssrHand)[i] == mid.pile(Pile::UssrHand)[i]);
            } else {
                assert(d2.pile(Pile::UssrHand)[i] == (if i == k { true } else { mid.pile(Pile::UssrHand)[i] }));
                assert(d2.pile(Pile::UsHand)[i] == mid.pile(Pile::UsHand)[i]);
            }
            if i == k {
                assert(mid.pile(Pile::Draw)[k]);
                if mid == d1 {
                    assert(d1.pile(Pile::Draw)[k]);
                } else {
                    assert(d1.pile(Pile::Draw)[k] || d1.pile(Pile::Discard)[k]);
                }
            }
            if mid != d1 {
                assert(mid.pile(Pile::Draw)[i] == (d1.pile(Pile::Draw)[i] || d1.pile(Pile::Discard)[i]));
                assert(mid.pile(Pile::Discard)[i] == false);
            }
        }
    }
}

/// The nondeterminism of the game: die rolls, random cards out of a hand, and draws. It is
/// generic so that the program can supply the randomness itself, or take it from an outside
/// source such as a server.
pub trait TwilightRand {
    /// Whether a die can be rolled for a side now.
    spec fn can_roll(&self, side: Side) -> bool;

    /// Whether a card can be picked out of a side's hand of this deck now.
    spec fn can_pick(&self, deck: Deck, side: Side) -> bool;

    /// Whether the discard pile can be shuffled into the draw pile now.
    spec fn can_reshuffle(&self) -> bool;

    /// Whether a card can be drawn for a side from this deck now.
    spec fn can_draw(&self, deck: Deck, side: Side) -> bool;

    /// Whether this source can always pick a card out of a hand.
    spec fn picks_freely(&self) -> bool;

    /// How many more times a draw may leave the deck as it is.
    spec fn draw_budget(&self) -> nat;

    /// Whether a card can be drawn for a side from this deck now.
    fn ready_to_draw(&self, deck: &Deck, side: Side) -> (r: bool)
        requires
            deck.wf(),
            side != Side::Neutral,
        ensures
            r == self.can_draw(*deck, side);

    /// A source that picks freely can pick out of any hand.
    proof fn lemma_picks_freely(&self, deck: Deck, side: Side)
        requires
            self.picks_freely(),
        ensures
            self.can_pick(deck, side);

    /// Rolls a six-sided die for the given side and returns the result.
    fn roll(&mut self, side: Side) -> (r: i8)
        requires
            side != Side::Neutral,
            old(self).can_roll(side),
        ensures
            1 <= r <= 6,
            final(self).can_roll(opposite_spec(side)) == old(self).can_roll(opposite_spec(side)),
            final(self).picks_freely() == old(self).picks_freely();

    /// Returns a random card from the given side's hand, or None if and only if that side's
    /// hand is empty.
    fn card_from_hand(&mut self, deck: &Deck, side: Side) -> (r: Option<Card>)
        requires
            deck.wf(),
            side != Side::Neutral,
            old(self).can_pick(*deck, side),
        ensures
            r is None <==> true_indices(deck.pile(hand_pile(side))).len() == 0,
            r matches Some(c) ==> holds(deck.pile(hand_pile(side)), c),
            final(self).can_roll(Side::US) == old(self).can_roll(Side::US),
            final(self).can_roll(Side::USSR) == old(self).can_roll(Side::USSR),
            final(self).picks_freely() == old(self).picks_freely();

    /// Shuffles the discard pile of the deck into the draw pile.
    fn reshuffle(&mut self, deck: &mut Deck)
        requires
            old(deck).wf(),
            old(self).can_reshuffle(),
        ensures
            deck_reshuffled(*old(deck), *final(deck));

    /// Draws a new card for the given side from the draw pile into its hand, shuffling the
    /// discard pile in first if the draw pile is empty. A source may also leave the deck as
    /// it is, spending some of its budget for that.
    fn draw_card(&mut self, deck: &mut Deck, side: Side)
        requires
            old(deck).wf(),
            side != Side::Neutral,
            old(self).can_draw(*old(deck), side),
        ensures
            final(deck).wf(),
            deck_drew(*old(deck), *final(deck), side) && final(self).draw_budget() <= old(self).draw_budget()
                || *final(deck) == *old(deck) && final(self).draw_budget() < old(self).draw_budget();
}

#[verifier::external_type_specification]
#[verifier::external_body]
pub struct ExSmallRng(SmallRng);

/// `SmallRng::seed_from_u64`: a small generator seeded from a number.
#[verifier::external_body]
fn small_rng_seeded(seed: u64) -> (r: SmallRng) {
    SmallRng::seed_from_u64(seed)
}

/// `SmallRng::from_entropy`: a small generator seeded by the operating system, which panics
/// if the operating system cannot provide the entropy.
#[verifier::external_body]
fn small_rng_entropy() -> (r: SmallRng) {
    SmallRng::from_entropy()
}

/// `Rng::gen_range` on `i8`: a value from `low` up to but not including `high`; it panics
/// when the range is empty.
#[verifier::external_body]
fn rng_range_i8(rng: &mut SmallRng, low: i8, high: i8) -> (r: i8)
    requires
        low < high,
    ensures
        low <= r < high,
{
    rng.gen_range(low, high)
}

/// `Rng::gen_range` on `usize`: a value from `low` up to but not including `high`; it panics
/// when the range is empty.
#[verifier::external_body]
fn rng_range_usize(rng: &mut SmallRng, low: usize, high: usize) -> (r: usize)
    requires
        low < high,
    ensures
        low <= r < high,
{
    rng.gen_range(low, high)
}

/// Randomness supplied by a small pseudo-random generator.
pub struct InternalRand {
    rng: SmallRng,
}

impl InternalRand {
    /// A generator seeded by the operating system.
    pub fn new_entropy() -> (r: Self) {
        InternalRand { rng: small_rng_entropy() }
    }

    /// A generator seeded from a number, for reproducible games.
    pub fn new_seeded(seed: u64) -> (r: Self) {
        InternalRand { rng: small_rng_seeded(seed) }
    }

    /// Picks a random card held in a set of card bits.
    fn pick(&mut self, bits: &crate::card::CardSet) -> (r: Option<Card>)
        requires
            crate::card::deck::card_bits_ok(bits@),
        ensures
            r is None <==> true_indices(bits@).len() == 0,
            r matches Some(c) ==> holds(bits@, c),
    {
        let cards = bits.card_vec();
        proof {
            crate::card::deck::lemma_true_indices_bound(bits@);
        }
        if cards.len() == 0 {
            None
        } else {
            let i = rng_range_usize(&mut self.rng, 0, cards.len());
            let c = cards[i];
            proof {
                assert(bits_to_cards(bits@).contains(c));
                crate::card::deck::lemma_holds_cards(bits@, c);
            }
            Some(c)
        }
    }
}

impl TwilightRand for InternalRand {
    open spec fn can_roll(&self, side: Side) -> bool {
        true
    }

    open spec fn can_pick(&self, deck: Deck, side: Side) -> bool {
        true
    }

    open spec fn can_reshuffle(&self) -> bool {
        true
    }

    open spec fn can_draw(&self, deck: Deck, side: Side) -> bool {
        true_indices(deck.pile(Pile::Draw)).len() > 0 || true_indices(deck.pile(Pile::Discard)).len() > 0
    }

    open spec fn picks_freely(&self) -> bool {
        true
    }

    open spec fn draw_budget(&self) -> nat {
        0
    }

    fn ready_to_draw(&self, deck: &Deck, side: Side) -> (r: bool) {
        deck.draw_pile().len() > 0 || deck.discard_pile().len() > 0
    }

    proof fn lemma_picks_freely(&self, deck: Deck, side: Side) {
    }

    fn roll(&mut self, _side: Side) -> (r: i8) {
        rng_range_i8(&mut self.rng, 1, 7)
    }

    fn card_from_hand(&mut self, deck: &Deck, side: Side) -> (r: Option<Card>) {
        self.pick(deck.hand(side))
    }

    fn reshuffle(&mut self, deck: &mut Deck) {
        deck.reset_draw_pile();
    }

    fn draw_card(&mut self, deck: &mut Deck, side: Side) {
        let ghost d0 = *deck;
        let empty = deck.draw_pile().len() == 0;
        if empty {
            self.reshuffle(deck);
        }
        let ghost d1 = *deck;
        proof {
            d1.lemma_wf_piles(Pile::Draw);
            if empty {
                let (dr, di) = (d0.pile(Pile::Draw), d0.pile(Pile::Discard));
                if true_indices(di).len() > 0 {
                    d0.lemma_wf_piles(Pile::Discard);
                    crate::card::deck::lemma_true_indices_bound(di);
                    let t = true_indices(di);
                    let idx = Seq::new(di.len(), |j: int| j as usize);
                    idx.lemma_filter_pred(|j: usize| di[j as int], 0);
                    let k = t[0] as int;
                    assert(d1.pile(Pile::Draw)[k]);
                    crate::card::deck::lemma_true_indices_nonempty(d1.pile(Pile::Draw), k);
                }
            }
        }
        match self.pick(deck.draw_pile()) {
            Some(c) => {
                deck.draw_into_hand(side, c);
                proof {
                    if empty {
                        assert(deck_reshuffled(d0, d1) && deck_moved(d1, *deck, side, c));
                    } else {
                        assert(deck_moved(d0, *deck, side, c));
                    }
                }
            },
            None => {},
        }
    }
}

/// Randomness scripted in advance, for tests: die rolls and drawn cards are taken from the
/// ends of their lists, and the random cards out of a hand from the end of `discards`.
#[derive(Clone)]
pub struct DebugRand {
    pub us_rolls: Vec<i8>,
    pub ussr_rolls: Vec<i8>,
    pub discards: Vec<Option<Card>>,
    pub us_draw: Vec<Card>,
    pub ussr_draw: Vec<Card>,
}

impl DebugRand {
    /// A script with nothing in it.
    pub fn new_empty() -> (r: Self)
        ensures
            r.us_rolls@.len() == 0,
            r.ussr_rolls@.len() == 0,
            r.discards@.len() == 0,
            r.us_draw@.len() == 0,
            r.ussr_draw@.len() == 0,
    {
        Self::new(Vec::new(), Vec::new(), Vec::new(), Vec::new(), Vec::new())
    }

    /// A script of rolls, random hand cards and draws.
    pub fn new(us_rolls: Vec<i8>, ussr_rolls: Vec<i8>, discards: Vec<Option<Card>>,
        us_draw: Vec<Card>, ussr_draw: Vec<Card>) -> (r: Self)
        ensures
            r.us_rolls@ == us_rolls@,
            r.ussr_rolls@ == ussr_rolls@,
            r.discards@ == discards@,
            r.us_draw@ == us_draw@,
            r.ussr_draw@ == ussr_draw@,
    {
        DebugRand { us_rolls, ussr_rolls, discards, us_draw, ussr_draw }
    }

    /// The scripted rolls of a side.
    pub open spec fn rolls(&self, side: Side) -> Seq<i8> {
        match side {
            Side::US => self.us_rolls@,
            _ => self.ussr_rolls@,
        }
    }

    /// The scripted draws of a side.
    pub open spec fn draws(&self, side: Side) -> Seq<Card> {
        match side {
            Side::US => self.us_draw@,
            _ => self.ussr_draw@,
        }
    }
}

/// Whether the draw pile holds a card that is not a scoring card.
pub open spec fn draw_has_non_scoring(deck: Deck) -> bool {
    let cards = bits_to_cards(deck.pile(Pile::Draw));
    exists|i: int| 0 <= i < cards.len() && !card_att(#[trigger] cards[i]).scoring
}

impl TwilightRand for DebugRand {
    open spec fn can_roll(&self, side: Side) -> bool {
        self.rolls(side).len() > 0 && 1 <= self.rolls(side).last() <= 6
    }

    open spec fn can_pick(&self, deck: Deck, side: Side) -> bool {
        &&& self.discards@.len() > 0
        &&& match self.discards@.last() {
            Some(c) => holds(deck.pile(hand_pile(side)), c),
            None => true_indices(deck.pile(hand_pile(side))).len() == 0,
        }
    }

    open spec fn can_reshuffle(&self) -> bool {
        false
    }

    open spec fn can_draw(&self, deck: Deck, side: Side) -> bool {
        if self.draws(side).len() > 0 {
            let c = self.draws(side).last();
            c == Card::The_China_Card || holds(deck.pile(Pile::Draw), c)
        } else {
            draw_has_non_scoring(deck)
        }
    }

    open spec fn picks_freely(&self) -> bool {
        false
    }

    open spec fn draw_budget(&self) -> nat {
        self.us_draw@.len() + self.ussr_draw@.len()
    }

    fn ready_to_draw(&self, deck: &Deck, side: Side) -> (r: bool) {
        let scripted = match side {
            Side::US => &self.us_draw,
            _ => &self.ussr_draw,
        };
        let n = scripted.len();
        proof {
            deck.lemma_wf_piles(Pile::Draw);
        }
        if n > 0 {
            let c = scripted[n - 1];
            c == Card::The_China_Card || deck.draw_pile().contains(c)
        } else {
            proof {
                deck.lemma_wf_piles(Pile::Draw);
            }
            let cards = deck.draw_pile().card_vec();
            let mut k: usize = 0;
            proof {
                assert(self.draws(side) == scripted@);
            }
            while k < cards.len()
                invariant
                    self.draws(side).len() == 0,
                    k <= cards.len(),
                    cards@ == bits_to_cards(deck.pile(Pile::Draw)),
                    forall|j: int| 0 <= j < k ==> card_att(#[trigger] cards@[j]).scoring,
                decreases cards.len() - k,
            {
                if !cards[k].is_scoring() {
                    proof {
                        assert(!card_att(bits_to_cards(deck.pile(Pile::Draw))[k as int]).scoring);
                        assert(draw_has_non_scoring(*deck));
                        assert(self.draws(side).len() == 0);
                    }
                    return true;
                }
                k = k + 1;
            }
            false
        }
    }

    proof fn lemma_picks_freely(&self, deck: Deck, side: Side) {
    }

    fn roll(&mut self, side: Side) -> (r: i8)
        ensures
            r == old(self).rolls(side).last(),
            final(self).rolls(side) == old(self).rolls(side).drop_last(),
            final(self).rolls(opposite_spec(side)) == old(self).rolls(opposite_spec(side)),
            final(self).discards@ == old(self).discards@,
            final(self).us_draw@ == old(self).us_draw@,
            final(self).ussr_draw@ == old(self).ussr_draw@,
    {
        match side {
            Side::US => self.us_rolls.pop().unwrap(),
            _ => self.ussr_rolls.pop().unwrap(),
        }
    }

    fn card_from_hand(&mut self, deck: &Deck, side: Side) -> (r: Option<Card>) {
        let card = self.discards.pop().unwrap();
        proof {
            deck.lemma_wf_piles(hand_pile(side));
            if let Some(c) = card {
                crate::card::lemma_card_index_inverse(c);
                crate::card::deck::lemma_true_indices_nonempty(deck.pile(hand_pile(side)), card_index(c) as int);
            }
        }
        card
    }

    fn reshuffle(&mut self, deck: &mut Deck) {
    }

    fn draw_card(&mut self, deck: &mut Deck, side: Side) {
        let ghost d0 = *deck;
        let card = match side {
            Side::US => self.us_draw.pop(),
            _ => self.ussr_draw.pop(),
        };
        match card {
            Some(c) => {
                if c == Card::The_China_Card {
                    return;
                }
                deck.draw_into_hand(side, c);
                proof { assert(deck_moved(d0, *deck, side, c)); }
            },
            None => {
                proof { d0.lemma_wf_piles(Pile::Draw); }
                let cards = deck.draw_pile().card_vec();
                let mut k: usize = 0;
                while k < cards.len() && cards[k].is_scoring()
                    invariant
                        k <= cards.len(),
                        cards@ == bits_to_cards(d0.pile(Pile::Draw)),
                        draw_has_non_scoring(d0),
                        forall|j: int| 0 <= j < k ==> card_att(#[trigger] cards@[j]).scoring,
                    decreases cards.len() - k,
                {
                    k = k + 1;
                }
                let c = cards[k];
                proof {
                    d0.lemma_wf_piles(Pile::Draw);
                    assert(bits_to_cards(d0.pile(Pile::Draw)).contains(c));
                    crate::card::deck::lemma_holds_cards(d0.pile(Pile::Draw), c);
                }
                deck.draw_into_hand(side, c);
                proof { assert(deck_moved(d0, *deck, side, c)); }
            },
        }
    }
}

impl Deck {
    /// A random card from a side's hand, or None if and only if that hand is empty.
    pub fn random_card<T: TwilightRand>(&self, side: Side, rng: &mut T) -> (r: Option<Card>)
        requires
            self.wf(),
            side != Side::Neutral,
            old(rng).can_pick(*self, side),
        ensures
            r is None <==> true_indices(self.pile(hand_pile(side))).len() == 0,
            r matches Some(c) ==> holds(self.pile(hand_pile(side)), c),
            final(rng).can_roll(Side::US) == old(rng).can_roll(Side::US),
            final(rng).can_roll(Side::USSR) == old(rng).can_roll(Side::USSR),
            final(rng).picks_freely() == old(rng).picks_freely(),
    {
        rng.card_from_hand(self, side)
    }

    /// Draws the next card from the draw pile into a side's hand, reshuffling if necessary.
    pub fn draw_to_hand<T: TwilightRand>(&mut self, rng: &mut T, side: Side)
        requires
            old(self).wf(),
            side != Side::Neutral,
            old(rng).can_draw(*old(self), side),
        ensures
            final(self).wf(),
            deck_drew(*old(self), *final(self), side) && final(rng).draw_budget() <= old(rng).draw_budget()
                || *final(self) == *old(self) && final(rng).draw_budget() < old(rng).draw_budget(),
    {
        rng.draw_card(self, side);
    }

    /// Draws cards into both hands until each holds `target` cards: in turn while both lack
    /// cards, the USSR first, then into the hand that still lacks. It stops and answers false
    /// when the randomness cannot draw for the side whose turn it is.
    pub fn draw_cards<T: TwilightRand>(&mut self, target: usize, rng: &mut T) -> (r: bool)
        requires
            old(self).wf(),
        ensures
            drawn_from(*old(self), *final(self)),
            r ==> true_indices(final(self).pile(Pile::UsHand)).len() >= target
                && true_indices(final(self).pile(Pile::UssrHand)).len() >= target,
            !r ==> !final(rng).can_draw(*final(self), Side::US) || !final(rng).can_draw(*final(self), Side::USSR),
            !r ==> true_indices(final(self).pile(Pile::UsHand)).len() < target
                || true_indices(final(self).pile(Pile::UssrHand)).len() < target,
    {
        let ghost d0 = *self;
        let mut side = Side::USSR;
        while self.hand(Side::USSR).len() < target && self.hand(Side::US).len() < target
            invariant
                d0 == *old(self),
                drawn_from(d0, *self),
                side != Side::Neutral,
            decreases drawable(*self), rng.draw_budget(),
        {
            if !rng.ready_to_draw(self, side) {
                return false;
            }
            let ghost before = *self;
            let ghost b0 = rng.draw_budget();
            self.draw_to_hand(rng, side);
            proof {
                lemma_drawn_from_step(d0, before, *self, side);
                if deck_drew(before, *self, side) {
                    lemma_drew_fewer(before, *self, side);
                }
                assert(drawable(*self) < drawable(before) || (*self == before && rng.draw_budget() < b0));
            }
            side = side.opposite();
        }
        while self.hand(Side::USSR).len() < target
            invariant
                d0 == *old(self),
                drawn_from(d0, *self),
            decreases drawable(*self), rng.draw_budget(),
        {
            if !rng.ready_to_draw(self, Side::USSR) {
                return false;
            }
            let ghost before = *self;
            let ghost b0 = rng.draw_budget();
            self.draw_to_hand(rng, Side::USSR);
            proof {
                lemma_drawn_from_step(d0, before, *self, Side::USSR);
                if deck_drew(before, *self, Side::USSR) {
                    lemma_drew_fewer(before, *self, Side::USSR);
                }
                assert(drawable(*self) < drawable(before) || (*self == before && rng.draw_budget() < b0));
            }
        }
        while self.hand(Side::US).len() < target
            invariant
                d0 == *old(self),
                drawn_from(d0, *self),
                true_indices(self.pile(Pile::UssrHand)).len() >= target,
            decreases drawable(*self), rng.draw_budget(),
        {
            if !rng.ready_to_draw(self, Side::US) {
                return false;
            }
            let ghost before = *self;
            let ghost b0 = rng.draw_budget();
            self.draw_to_hand(rng, Side::US);
            proof {
                lemma_drawn_from_step(d0, before, *self, Side::US);
                if deck_drew(before, *self, Side::US) {
                    lemma_drew_fewer(before, *self, Side::US);
                }
                assert(drawable(*self) < drawable(before) || (*self == before && rng.draw_budget() < b0));
            }
        }
        true
    }

    /// Shuffles the discard pile into the draw pile.
    pub fn reshuffle<T: TwilightRand>(&mut self, rng: &mut T)
        requires
            old(self).wf(),
            old(rng).can_reshuffle(),
        ensures
            deck_reshuffled(*old(self), *final(self)),
    {
        rng.reshuffle(self);
    }
}

} // verus!
