use vstd::prelude::*;
use super::{card_att, card_index, card_of, lemma_card_index_inverse, lemma_card_of_inverse, Card, NUM_CARDS};
use crate::country::{opposite_spec, Side};
use bitvec::array::BitArray;
use bitvec::order::Lsb0;

verus! {

/// Number of bits in the bit array that backs a set of cards.
pub const CARD_BITS: usize = 128;

/// A set of cards, one bit per card number.
#[verifier::external_body]
pub struct CardSet(BitArray<[u64; 2], Lsb0>);

impl Clone for CardSet {
    /// A copy of the set, bit for bit.
    #[verifier::external_body]
    fn clone(&self) -> (r: Self)
        ensures
            card_bits(r) == card_bits(*self),
    {
        CardSet(self.0)
    }
}

impl Copy for CardSet {}

/// The bits held by a set of cards, lowest card number first.
pub uninterp spec fn card_bits(s: CardSet) -> Seq<bool>;

impl View for CardSet {
    type V = Seq<bool>;

    open spec fn view(&self) -> Seq<bool> {
        card_bits(*self)
    }
}

/// The indices of the set bits of a bit sequence, in increasing order.
pub open spec fn true_indices(s: Seq<bool>) -> Seq<usize> {
    Seq::new(s.len(), |i: int| i as usize).filter(|i: usize| s[i as int])
}

/// `BitArray::ZERO`: an array of 128 cleared bits.
#[verifier::external_body]
fn bits_zero() -> (r: CardSet)
    ensures
        card_bits(r) == Seq::new(CARD_BITS as nat, |i: int| false),
{
    CardSet(BitArray::ZERO)
}

/// `BitSlice::set`: writes one bit, leaving the others as they were.
#[verifier::external_body]
fn bits_set(b: &mut CardSet, index: usize, value: bool)
    requires
        index < card_bits(*old(b)).len(),
    ensures
        card_bits(*final(b)) == card_bits(*old(b)).update(index as int, value),
{
    b.0.set(index, value);
}

/// `Index<usize>` of a bit slice: reads one bit.
#[verifier::external_body]
fn bits_get(b: &CardSet, index: usize) -> (r: bool)
    requires
        index < card_bits(*b).len(),
    ensures
        r == card_bits(*b)[index as int],
{
    b.0[index]
}

/// Whether a side's hand holds a scoring card.
pub open spec fn held_scoring_spec(d: Deck, side: Side) -> bool {
    true_indices(d.scoring_cards_spec(side)).len() > 0
}

/// `BitSlice::count_ones`: the number of set bits.
#[verifier::external_body]
fn bits_count_ones(b: &CardSet) -> (r: usize)
    ensures
        r == true_indices(card_bits(*b)).len(),
{
    b.0.count_ones()
}

/// `BitSlice::iter_ones`: the indices of the set bits, in increasing order.
#[verifier::external_body]
fn bits_iter_ones(b: &CardSet) -> (r: Vec<usize>)
    ensures
        r@ == true_indices(card_bits(*b)),
{
    b.0.iter_ones().collect()
}

/// `BitAnd` of two bit arrays of equal length: bitwise conjunction.
#[verifier::external_body]
fn bits_and(a: CardSet, b: CardSet) -> (r: CardSet)
    requires
        card_bits(a).len() == card_bits(b).len(),
    ensures
        card_bits(r).len() == card_bits(a).len(),
        forall|i: int| 0 <= i < card_bits(a).len() ==> #[trigger] card_bits(r)[i] == (card_bits(a)[i] && card_bits(b)[i]),
{
    CardSet(a.0 & b.0)
}

/// `BitOrAssign` of two bit arrays of equal length: bitwise disjunction in place.
#[verifier::external_body]
fn bits_or_assign(a: &mut CardSet, b: CardSet)
    requires
        card_bits(*old(a)).len() == card_bits(b).len(),
    ensures
        card_bits(*final(a)).len() == card_bits(*old(a)).len(),
        forall|i: int| 0 <= i < card_bits(b).len() ==> #[trigger] card_bits(*final(a))[i] == (card_bits(*old(a))[i] || card_bits(b)[i]),
{
    a.0 |= b.0;
}

/// The cards of a bit sequence, in card order.
pub open spec fn bits_to_cards(s: Seq<bool>) -> Seq<Card> {
    true_indices(s).map_values(|i: usize| card_of(i))
}

/// Whether a bit sequence can back a set of cards: 128 bits, none past the last card.
pub open spec fn card_bits_ok(s: Seq<bool>) -> bool {
    &&& s.len() == CARD_BITS
    &&& forall|i: int| NUM_CARDS <= i < CARD_BITS ==> !#[trigger] s[i]
}

/// Whether a set of cards holds a card.
pub open spec fn holds(s: Seq<bool>, c: Card) -> bool {
    s[card_index(c) as int]
}

impl CardSet {
    /// The set holding exactly the given cards.
    pub fn from_cards(cards: &[Card]) -> (r: Self)
        ensures
            card_bits_ok(r@),
            forall|c: Card| #[trigger] holds(r@, c) <==> cards@.contains(c),
    {
        let mut i: usize = 0;
        let mut out = Self::empty();
        while i < cards.len()
            invariant
                i <= cards.len(),
                card_bits_ok(out@),
                forall|c: Card| #[trigger] holds(out@, c) <==> cards@.take(i as int).contains(c),
            decreases cards.len() - i,
        {
            proof {
                assert forall|c: Card| #[trigger] cards@.take(i + 1).contains(c) <==> (cards@.take(i as int).contains(c) || c == cards@[i as int]) by {
                    let t = cards@.take(i + 1);
                    if t.contains(c) {
                        let k = choose|k: int| 0 <= k < t.len() && t[k] == c;
                        if k < i {
                            assert(cards@.take(i as int)[k] == c);
                        }
                    }
                    if cards@.take(i as int).contains(c) {
                        let k = choose|k: int| 0 <= k < i && cards@.take(i as int)[k] == c;
                        assert(t[k] == c);
                    }
                    if c == cards@[i as int] {
                        assert(t[i as int] == c);
                    }
                }
            }
            let ghost before = out@;
            out.push(cards[i]);
            proof {
                assert forall|c: Card| #[trigger] holds(out@, c) <==> cards@.take(i + 1).contains(c) by {
                    lemma_card_index_inverse(c);
                    lemma_card_index_inverse(cards@[i as int]);
                    if card_index(c) == card_index(cards@[i as int]) {
                        assert(c == cards@[i as int]);
                    } else {
                        assert(holds(out@, c) == holds(before, c));
                    }
                }
            }
            i += 1;
        }
        proof {
            assert(cards@.take(cards.len() as int) =~= cards@);
        }
        out
    }

    /// The bits of the empty set.
    pub open spec fn empty_bits() -> Seq<bool> {
        Seq::new(CARD_BITS as nat, |i: int| false)
    }

    /// The set holding no card.
    pub fn empty() -> (r: Self)
        ensures
            r@ == Seq::new(CARD_BITS as nat, |i: int| false),
            card_bits_ok(r@),
    {
        bits_zero()
    }

    /// Whether the set holds no card.
    pub fn is_empty(&self) -> (r: bool)
        ensures
            r == (true_indices(self@).len() == 0),
    {
        bits_count_ones(self) == 0
    }

    /// The number of cards held.
    pub fn pop_count(&self) -> (r: usize)
        ensures
            r == true_indices(self@).len(),
    {
        bits_count_ones(self)
    }

    /// The cards held, in card order.
    pub fn card_vec(&self) -> (r: Vec<Card>)
        requires
            card_bits_ok(self@),
        ensures
            r@ == bits_to_cards(self@),
    {
        let idx = bits_iter_ones(self);
        let ghost s = self@;
        proof {
            lemma_true_indices_bound(s);
        }
        let mut out: Vec<Card> = Vec::new();
        let mut k: usize = 0;
        while k < idx.len()
            invariant
                k <= idx.len(),
                idx@ == true_indices(s),
                forall|j: int| 0 <= j < idx.len() ==> #[trigger] idx@[j] < NUM_CARDS,
                out@ == idx@.take(k as int).map_values(|i: usize| card_of(i)),
            decreases idx.len() - k,
        {
            proof {
                assert(idx@.take(k + 1).map_values(|i: usize| card_of(i)) =~= idx@.take(k as int).map_values(|i: usize| card_of(i)).push(card_of(idx@[k as int])));
            }
            out.push(Card::from_index(idx[k]));
            k += 1;
        }
        proof {
            assert(idx@.take(idx.len() as int) =~= idx@);
        }
        out
    }

    /// The cards held, in card order.
    pub fn iter_cards(&self) -> (r: Vec<Card>)
        requires
            card_bits_ok(self@),
        ensures
            r@ == bits_to_cards(self@),
    {
        self.card_vec()
    }

    /// The numbers of the cards held, in increasing order.
    pub fn iter_indices(&self) -> (r: Vec<usize>)
        ensures
            r@ == true_indices(self@),
    {
        bits_iter_ones(self)
    }

    /// Adds a card to the set.
    pub fn push(&mut self, card: Card)
        requires
            card_bits_ok(old(self)@),
        ensures
            final(self)@ == old(self)@.update(card_index(card) as int, true),
            card_bits_ok(final(self)@),
    {
        proof {
            lemma_card_index_inverse(card);
        }
        bits_set(self, card.index(), true);
    }

    /// Takes a card out of the set.
    pub fn pop(&mut self, card: Card)
        requires
            card_bits_ok(old(self)@),
        ensures
            final(self)@ == old(self)@.update(card_index(card) as int, false),
            card_bits_ok(final(self)@),
    {
        proof {
            lemma_card_index_inverse(card);
        }
        bits_set(self, card.index(), false);
    }

    /// The number of cards held.
    pub fn len(&self) -> (r: usize)
        ensures
            r == true_indices(self@).len(),
    {
        bits_count_ones(self)
    }

    /// Whether the set holds a card.
    pub fn contains(&self, card: Card) -> (r: bool)
        requires
            card_bits_ok(self@),
        ensures
            r == holds(self@, card),
    {
        proof {
            lemma_card_index_inverse(card);
        }
        bits_get(self, card.index())
    }

    /// The cards held by both sets.
    pub fn bitand(self, rhs: Self) -> (r: Self)
        requires
            card_bits_ok(self@),
            card_bits_ok(rhs@),
        ensures
            card_bits_ok(r@),
            forall|i: int| 0 <= i < CARD_BITS ==> #[trigger] r@[i] == (self@[i] && rhs@[i]),
    {
        bits_and(self, rhs)
    }

    /// Adds every card of another set to this one.
    pub fn union_with(&mut self, rhs: Self)
        requires
            card_bits_ok(old(self)@),
            card_bits_ok(rhs@),
        ensures
            card_bits_ok(final(self)@),
            forall|i: int| 0 <= i < CARD_BITS ==> #[trigger] final(self)@[i] == (old(self)@[i] || rhs@[i]),
    {
        bits_or_assign(self, rhs);
    }
}

/// The set bits of a valid card set all lie below the number of cards.
pub proof fn lemma_true_indices_bound(s: Seq<bool>)
    requires
        card_bits_ok(s),
    ensures
        forall|j: int| 0 <= j < true_indices(s).len() ==> #[trigger] true_indices(s)[j] < NUM_CARDS,
{
    let idx = Seq::new(s.len(), |i: int| i as usize);
    let pred = |i: usize| s[i as int];
    assert forall|j: int| 0 <= j < true_indices(s).len() implies #[trigger] true_indices(s)[j] < NUM_CARDS by {
        let t = true_indices(s);
        let x = t[j];
        idx.lemma_filter_pred(pred, j);
        assert(t.contains(x));
        idx.lemma_filter_contains_rev(pred, x);
        let k = choose|k: int| 0 <= k < idx.len() && idx[k] == x;
        assert(x == k);
    }
}

/// A bit sequence has a set bit exactly when its list of set indices is not empty.
pub proof fn lemma_true_indices_nonempty(s: Seq<bool>, i: int)
    requires
        0 <= i < s.len(),
        s.len() <= CARD_BITS,
        s[i],
    ensures
        true_indices(s).len() > 0,
{
    let idx = Seq::new(s.len(), |j: int| j as usize);
    let pred = |j: usize| s[j as int];
    assert(idx[i] == i as usize);
    idx.lemma_filter_contains(pred, i);
}

/// Holding a card in a valid set is the same as the card appearing in its card list.
pub proof fn lemma_holds_cards(s: Seq<bool>, c: Card)
    requires
        card_bits_ok(s),
    ensures
        holds(s, c) <==> bits_to_cards(s).contains(c),
{
    let idx = Seq::new(s.len(), |i: int| i as usize);
    let pred = |i: usize| s[i as int];
    lemma_card_index_inverse(c);
    lemma_true_indices_bound(s);
    let t = true_indices(s);
    if holds(s, c) {
        let k = card_index(c);
        assert(idx[k as int] == k);
        idx.lemma_filter_contains(pred, k as int);
        assert(t.contains(k));
        let j = choose|j: int| 0 <= j < t.len() && t[j] == k;
        assert(bits_to_cards(s)[j] == card_of(k));
    }
    if bits_to_cards(s).contains(c) {
        let j = choose|j: int| 0 <= j < bits_to_cards(s).len() && bits_to_cards(s)[j] == c;
        let k = t[j];
        assert(card_of(k) == c);
        lemma_card_of_inverse(k);
        idx.lemma_filter_pred(pred, j);
    }
}

/// The scoring cards of the game, one per scoring region.
pub open spec fn scoring_list() -> Seq<Card> {
    seq![
        Card::Asia_Scoring,
        Card::Europe_Scoring,
        Card::Middle_East_Scoring,
        Card::Africa_Scoring,
        Card::South_America_Scoring,
        Card::Central_America_Scoring,
        Card::Southeast_Asia_Scoring,
    ]
}

/// The set of the seven scoring cards.
pub fn scoring_set() -> (r: CardSet)
    ensures
        card_bits_ok(r@),
        forall|c: Card| #[trigger] holds(r@, c) <==> scoring_list().contains(c),
{
    let v = vec![
        Card::Asia_Scoring,
        Card::Europe_Scoring,
        Card::Middle_East_Scoring,
        Card::Africa_Scoring,
        Card::South_America_Scoring,
        Card::Central_America_Scoring,
        Card::Southeast_Asia_Scoring,
    ];
    proof {
        assert(v@ =~= scoring_list());
    }
    CardSet::from_cards(v.as_slice())
}

/// The places a card can be.
#[derive(Clone, Copy, PartialEq, Eq, Structural, Debug)]
pub enum Pile {
    UsHand,
    UssrHand,
    Discard,
    PendingDiscard,
    Draw,
    Removed,
}

/// The pile holding a superpower's hand.
pub open spec fn hand_pile(side: Side) -> Pile {
    match side {
        Side::US => Pile::UsHand,
        _ => Pile::UssrHand,
    }
}

/// Whether card number `i` enters the draw pile at the start of the early war: cards one
/// through Formosan Resolution but the China Card, and Defectors through Our Man's
/// predecessor.
pub open spec fn early_war_bit(i: int) -> bool {
    (1 <= i <= 35 && i != 6) || (103 <= i < 107)
}

/// Whether card number `i` enters the draw pile when the mid war cards are added.
pub open spec fn mid_war_bit(i: int) -> bool {
    36 <= i < NUM_CARDS
}

/// The highest printed operations value among a sequence of cards, or zero for none.
pub open spec fn max_ops(s: Seq<Card>) -> i8
    decreases s.len(),
{
    if s.len() == 0 {
        0
    } else {
        let m = max_ops(s.drop_last());
        let o = card_att(s.last()).ops;
        if m < o { o } else { m }
    }
}

/// The cards of both hands, the piles, the China Card and whether it is face up.
pub struct Deck {
    us_hand: CardSet,
    ussr_hand: CardSet,
    discard_pile: CardSet,
    pending_discard: CardSet,
    draw_pile: CardSet,
    removed: CardSet,
    china: Side,
    china_up: bool,
}

impl Clone for Deck {
    /// A copy of the deck, pile for pile.
    fn clone(&self) -> (r: Self)
        ensures
            r == *self,
    {
        Deck {
            us_hand: self.us_hand,
            ussr_hand: self.ussr_hand,
            discard_pile: self.discard_pile,
            pending_discard: self.pending_discard,
            draw_pile: self.draw_pile,
            removed: self.removed,
            china: self.china,
            china_up: self.china_up,
        }
    }
}

/// Errors when moving cards.
#[derive(Debug, Clone, Copy, PartialEq, Eq, Structural)]
pub enum DeckError {
    AlreadyContains,
    CannotFind,
    ChinaException,
}

impl Deck {
    /// The bits of one pile.
    pub closed spec fn pile(&self, p: Pile) -> Seq<bool> {
        match p {
            Pile::UsHand => self.us_hand@,
            Pile::UssrHand => self.ussr_hand@,
            Pile::Discard => self.discard_pile@,
            Pile::PendingDiscard => self.pending_discard@,
            Pile::Draw => self.draw_pile@,
            Pile::Removed => self.removed@,
        }
    }

    /// The superpower that holds the China Card.
    pub closed spec fn china_holder(&self) -> Side {
        self.china
    }

    /// Whether the China Card is face up.
    pub closed spec fn china_face_up(&self) -> bool {
        self.china_up
    }

    /// Every pile is a valid set of cards.
    pub closed spec fn wf(&self) -> bool {
        &&& card_bits_ok(self.us_hand@)
        &&& card_bits_ok(self.ussr_hand@)
        &&& card_bits_ok(self.discard_pile@)
        &&& card_bits_ok(self.pending_discard@)
        &&& card_bits_ok(self.draw_pile@)
        &&& card_bits_ok(self.removed@)
    }

    /// In a well-formed deck every pile is a valid set of cards.
    pub proof fn lemma_wf_piles(&self, p: Pile)
        requires
            self.wf(),
        ensures
            card_bits_ok(self.pile(p)),
    {
    }

    /// Two decks that agree on every pile but the listed one, and on the China Card.
    pub open spec fn same_but(&self, other: &Deck, p: Pile) -> bool {
        &&& forall|q: Pile| q != p ==> #[trigger] self.pile(q) == other.pile(q)
        &&& self.china_holder() == other.china_holder()
        &&& self.china_face_up() == other.china_face_up()
    }

    /// A deck with the early war cards in the draw pile, nothing else anywhere, and the
    /// China Card face up with the USSR.
    pub fn new() -> (r: Self)
        ensures
            r.wf(),
            r.china_holder() == Side::USSR,
            r.china_face_up(),
            forall|p: Pile| p != Pile::Draw ==> #[trigger] r.pile(p) == Seq::new(CARD_BITS as nat, |i: int| false),
            forall|i: int| 0 <= i < CARD_BITS ==> #[trigger] r.pile(Pile::Draw)[i] == early_war_bit(i),
    {
        let mut deck = Deck {
            us_hand: CardSet::empty(),
            ussr_hand: CardSet::empty(),
            discard_pile: CardSet::empty(),
            pending_discard: CardSet::empty(),
            draw_pile: CardSet::empty(),
            removed: CardSet::empty(),
            china: Side::USSR,
            china_up: true,
        };
        deck.add_early_war();
        proof {
            assert(deck.pile(Pile::UsHand) == CardSet::empty_bits());
            assert(deck.pile(Pile::UssrHand) == CardSet::empty_bits());
            assert(deck.pile(Pile::Discard) == CardSet::empty_bits());
            assert(deck.pile(Pile::PendingDiscard) == CardSet::empty_bits());
            assert(deck.pile(Pile::Removed) == CardSet::empty_bits());
        }
        deck
    }

    /// A superpower's hand.
    pub fn hand(&self, side: Side) -> (r: &CardSet)
        requires
            side != Side::Neutral,
        ensures
            r@ == self.pile(hand_pile(side)),
            self.wf() ==> card_bits_ok(r@),
    {
        match side {
            Side::US => &self.us_hand,
            _ => &self.ussr_hand,
        }
    }

    /// A superpower's hand, to change it.
    pub fn hand_mut(&mut self, side: Side) -> (r: &mut CardSet)
        requires
            side != Side::Neutral,
        ensures
            r@ == old(self).pile(hand_pile(side)),
            final(self).pile(hand_pile(side)) == final(r)@,
            final(self).same_but(old(self), hand_pile(side)),
    {
        match side {
            Side::US => &mut self.us_hand,
            _ => &mut self.ussr_hand,
        }
    }

    /// Turns the China Card face up at the end of a turn.
    pub fn end_turn_cleanup(&mut self)
        ensures
            old(self).wf() ==> final(self).wf(),
            final(self).china_face_up(),
            final(self).china_holder() == old(self).china_holder(),
            forall|p: Pile| #[trigger] final(self).pile(p) == old(self).pile(p),
    {
        self.china_up = true;
    }

    /// Returns a new set holding all scoring cards in the side's hand.
    pub fn scoring_cards(&self, side: Side) -> (r: CardSet)
        requires
            self.wf(),
            side != Side::Neutral,
        ensures
            card_bits_ok(r@),
            forall|c: Card| #[trigger] holds(r@, c) <==> (holds(self.pile(hand_pile(side)), c) && scoring_list().contains(c)),
            r@ == self.scoring_cards_spec(side),
    {
        let h = *self.hand(side);
        let s = scoring_set();
        let r = h.bitand(s);
        proof {
            assert forall|c: Card| #[trigger] holds(r@, c) <==> (holds(self.pile(hand_pile(side)), c) && scoring_list().contains(c)) by {
                lemma_card_index_inverse(c);
                assert(holds(s@, c) == scoring_list().contains(c));
            }
            assert(r@ =~= self.scoring_cards_spec(side)) by {
                assert forall|i: int| 0 <= i < CARD_BITS implies r@[i] == #[trigger] self.scoring_cards_spec(side)[i] by {
                    if i < NUM_CARDS {
                        lemma_card_of_inverse(i as usize);
                        assert(holds(r@, card_of(i as usize)) == r@[i]);
                    }
                }
            }
        }
        r
    }

    /// Whether the side holds a scoring card.
    pub fn held_scoring(&self, side: Side) -> (r: bool)
        requires
            self.wf(),
            side != Side::Neutral,
        ensures
            r == held_scoring_spec(*self, side),
    {
        !self.scoring_cards(side).is_empty()
    }

    /// Determines if the side has a position where the requirement to play scoring cards
    /// overwhelms other effect obligations, e.g. Bear Trap and Missile Envy: at least as many
    /// scoring cards in hand as action rounds left.
    pub fn must_play_scoring(&self, side: Side, ar_left: i8) -> (r: bool)
        requires
            self.wf(),
            side != Side::Neutral,
        ensures
            r == (true_indices(self.scoring_cards_spec(side)).len() >= (ar_left as usize)),
    {
        let s = self.scoring_cards(side);
        proof {
            assert(s@ =~= self.scoring_cards_spec(side)) by {
                assert forall|i: int| 0 <= i < CARD_BITS implies s@[i] == #[trigger] self.scoring_cards_spec(side)[i] by {
                    if i < NUM_CARDS {
                        lemma_card_of_inverse(i as usize);
                        assert(holds(s@, card_of(i as usize)) == s@[i]);
                    }
                }
            }
        }
        s.pop_count() >= (ar_left as usize)
    }

    /// The bits of the scoring cards in a side's hand.
    pub open spec fn scoring_cards_spec(&self, side: Side) -> Seq<bool> {
        Seq::new(CARD_BITS as nat, |i: int| i < NUM_CARDS && self.pile(hand_pile(side))[i] && scoring_list().contains(card_of(i as usize)))
    }

    /// Returns the cards with the highest printed operations value in the side's hand.
    pub fn highest_ops(&self, side: Side) -> (r: CardSet)
        requires
            self.wf(),
            side != Side::Neutral,
        ensures
            card_bits_ok(r@),
            forall|c: Card| #[trigger] holds(r@, c) <==> (holds(self.pile(hand_pile(side)), c)
                && card_att(c).ops == max_ops(bits_to_cards(self.pile(hand_pile(side))))),
    {
        let hand = self.hand(side).card_vec();
        let mut max_val: i8 = 0;
        let mut k: usize = 0;
        while k < hand.len()
            invariant
                k <= hand.len(),
                max_val == max_ops(hand@.take(k as int)),
            decreases hand.len() - k,
        {
            proof {
                assert(hand@.take(k + 1).drop_last() =~= hand@.take(k as int));
            }
            let o = hand[k].base_ops();
            if max_val < o {
                max_val = o;
            }
            k += 1;
        }
        proof {
            assert(hand@.take(hand.len() as int) =~= hand@);
        }
        let mut kept: Vec<Card> = Vec::new();
        let mut j: usize = 0;
        while j < hand.len()
            invariant
                j <= hand.len(),
                max_val == max_ops(hand@),
                forall|c: Card| #[trigger] kept@.contains(c) <==> (hand@.take(j as int).contains(c) && card_att(c).ops == max_val),
            decreases hand.len() - j,
        {
            let c = hand[j];
            let ghost before = kept@;
            if c.base_ops() == max_val {
                kept.push(c);
            }
            proof {
                assert forall|d: Card| #[trigger] kept@.contains(d) <==> (hand@.take(j + 1).contains(d) && card_att(d).ops == max_val) by {
                    let t = hand@.take(j + 1);
                    let u = hand@.take(j as int);
                    if t.contains(d) {
                        let x = choose|x: int| 0 <= x < t.len() && t[x] == d;
                        if x < j {
                            assert(u[x] == d);
                        }
                    }
                    if u.contains(d) {
                        let x = choose|x: int| 0 <= x < u.len() && u[x] == d;
                        assert(t[x] == d);
                    }
                    assert(t[j as int] == c);
                    if kept@.contains(d) && !before.contains(d) {
                        let x = choose|x: int| 0 <= x < kept@.len() && kept@[x] == d;
                        assert(x == before.len());
                    }
                    if before.contains(d) {
                        let x = choose|x: int| 0 <= x < before.len() && before[x] == d;
                        assert(kept@[x] == d);
                    }
                    if d == c && card_att(c).ops == max_val {
                        assert(kept@[before.len() as int] == d);
                    }
                }
            }
            j += 1;
        }
        proof {
            assert(hand@.take(hand.len() as int) =~= hand@);
        }
        let r = CardSet::from_cards(kept.as_slice());
        proof {
            assert forall|c: Card| #[trigger] holds(r@, c) <==> (holds(self.pile(hand_pile(side)), c)
                && card_att(c).ops == max_ops(bits_to_cards(self.pile(hand_pile(side))))) by {
                lemma_holds_cards(self.pile(hand_pile(side)), c);
            }
        }
        r
    }

    /// Moves a played card from the pending discard pile out of the game.
    pub fn remove_card(&mut self, card: Card)
        requires
            old(self).wf(),
        ensures
            final(self).wf(),
            final(self).pile(Pile::PendingDiscard) == old(self).pile(Pile::PendingDiscard).update(card_index(card) as int, false),
            final(self).pile(Pile::Removed) == old(self).pile(Pile::Removed).update(card_index(card) as int, true),
            forall|p: Pile| p != Pile::PendingDiscard && p != Pile::Removed ==> #[trigger] final(self).pile(p) == old(self).pile(p),
            final(self).china_holder() == old(self).china_holder(),
            final(self).china_face_up() == old(self).china_face_up(),
    {
        self.pending_discard.pop(card);
        self.removed.push(card);
    }

    /// The cards played this action round, not yet in the discard pile.
    pub fn pending_discard(&self) -> (r: &CardSet)
        ensures
            r@ == self.pile(Pile::PendingDiscard),
    {
        &self.pending_discard
    }

    /// The discard pile.
    pub fn discard_pile(&self) -> (r: &CardSet)
        ensures
            r@ == self.pile(Pile::Discard),
    {
        &self.discard_pile
    }

    /// The draw pile.
    pub fn draw_pile(&self) -> (r: &CardSet)
        ensures
            r@ == self.pile(Pile::Draw),
    {
        &self.draw_pile
    }

    /// The cards removed from the game.
    pub fn removed(&self) -> (r: &CardSet)
        ensures
            r@ == self.pile(Pile::Removed),
    {
        &self.removed
    }

    /// Moves every pending card onto the discard pile.
    pub fn flush_pending(&mut self)
        requires
            old(self).wf(),
        ensures
            final(self).wf(),
            forall|i: int| 0 <= i < CARD_BITS ==> #[trigger] final(self).pile(Pile::Discard)[i]
                == (old(self).pile(Pile::Discard)[i] || old(self).pile(Pile::PendingDiscard)[i]),
            final(self).pile(Pile::PendingDiscard) == Seq::new(CARD_BITS as nat, |i: int| false),
            forall|p: Pile| p != Pile::Discard && p != Pile::PendingDiscard ==> #[trigger] final(self).pile(p) == old(self).pile(p),
            final(self).china_holder() == old(self).china_holder(),
            final(self).china_face_up() == old(self).china_face_up(),
    {
        let pending = self.pending_discard;
        self.discard_pile.union_with(pending);
        self.pending_discard = CardSet::empty();
    }

    /// Passes the China Card to the other superpower, face down.
    pub fn play_china(&mut self)
        requires
            old(self).china_holder() != Side::Neutral,
        ensures
            old(self).wf() ==> final(self).wf(),
            final(self).china_holder() == opposite_spec(old(self).china_holder()),
            !final(self).china_face_up(),
            forall|p: Pile| #[trigger] final(self).pile(p) == old(self).pile(p),
    {
        self.china = self.china.opposite();
        self.china_up = false;
    }

    /// Turns the China Card face up.
    pub fn turn_china_up(&mut self)
        ensures
            old(self).wf() ==> final(self).wf(),
            final(self).china_face_up(),
            final(self).china_holder() == old(self).china_holder(),
            forall|p: Pile| #[trigger] final(self).pile(p) == old(self).pile(p),
    {
        self.china_up = true;
    }

    /// Plays a card out of a hand: the China Card changes hands, any other card leaves the
    /// player's hand. Neither side has no hand to play from.
    pub fn play_card(&mut self, side: Side, card: Card) -> (r: Result<(), DeckError>)
        requires
            old(self).wf(),
            card == Card::The_China_Card ==> old(self).china_holder() != Side::Neutral,
        ensures
            final(self).wf(),
            card == Card::The_China_Card ==> {
                &&& r is Ok
                &&& final(self).china_holder() == opposite_spec(old(self).china_holder())
                &&& !final(self).china_face_up()
                &&& forall|p: Pile| #[trigger] final(self).pile(p) == old(self).pile(p)
            },
            card != Card::The_China_Card && side == Side::Neutral ==> {
                &&& r == Err::<(), DeckError>(DeckError::CannotFind)
                &&& forall|p: Pile| #[trigger] final(self).pile(p) == old(self).pile(p)
                &&& final(self).china_holder() == old(self).china_holder()
                &&& final(self).china_face_up() == old(self).china_face_up()
            },
            card != Card::The_China_Card && side != Side::Neutral ==> {
                &&& r is Ok
                &&& final(self).pile(hand_pile(side)) == old(self).pile(hand_pile(side)).update(card_index(card) as int, false)
                &&& final(self).same_but(old(self), hand_pile(side))
            },
    {
        if let Card::The_China_Card = card {
            self.play_china();
            proof {
                assert(self.pile(Pile::UsHand) == old(self).pile(Pile::UsHand));
                assert(self.pile(Pile::UssrHand) == old(self).pile(Pile::UssrHand));
                assert(self.pile(Pile::Discard) == old(self).pile(Pile::Discard));
                assert(self.pile(Pile::PendingDiscard) == old(self).pile(Pile::PendingDiscard));
                assert(self.pile(Pile::Draw) == old(self).pile(Pile::Draw));
                assert(self.pile(Pile::Removed) == old(self).pile(Pile::Removed));
            }
            Ok(())
        } else {
            match side {
                Side::US => {
                    self.us_hand.pop(card);
                    Ok(())
                },
                Side::USSR => {
                    self.ussr_hand.pop(card);
                    Ok(())
                },
                Side::Neutral => Err(DeckError::CannotFind),
            }
        }
    }

    /// The draw pile, to change it.
    pub fn draw_pile_mut(&mut self) -> (r: &mut CardSet)
        ensures
            r@ == old(self).pile(Pile::Draw),
            final(self).pile(Pile::Draw) == final(r)@,
            final(self).same_but(old(self), Pile::Draw),
    {
        &mut self.draw_pile
    }

    /// Moves a card from the draw pile to the discard pile.
    pub fn discard_draw(&mut self, card: Card)
        requires
            old(self).wf(),
        ensures
            final(self).wf(),
            final(self).pile(Pile::Draw) == old(self).pile(Pile::Draw).update(card_index(card) as int, false),
            final(self).pile(Pile::Discard) == old(self).pile(Pile::Discard).update(card_index(card) as int, true),
            forall|p: Pile| p != Pile::Draw && p != Pile::Discard ==> #[trigger] final(self).pile(p) == old(self).pile(p),
            final(self).china_holder() == old(self).china_holder(),
            final(self).china_face_up() == old(self).china_face_up(),
    {
        self.draw_pile.pop(card);
        self.discard_pile.push(card);
    }

    /// Whether a side may play the China Card now: it holds it and it is face up.
    pub fn china_available(&self, side: Side) -> (r: bool)
        ensures
            r == (self.china_holder() == side && self.china_face_up()),
    {
        self.china == side && self.china_up
    }

    /// The superpower that holds the China Card.
    pub fn china(&self) -> (r: Side)
        ensures
            r == self.china_holder(),
    {
        self.china
    }

    /// Takes a card from the discard pile back into a hand.
    pub fn recover_card(&mut self, side: Side, card: Card)
        requires
            old(self).wf(),
            side != Side::Neutral,
        ensures
            final(self).wf(),
            final(self).pile(hand_pile(side)) == old(self).pile(hand_pile(side)).update(card_index(card) as int, true),
            final(self).pile(Pile::Discard) == old(self).pile(Pile::Discard).update(card_index(card) as int, false),
            forall|p: Pile| p != hand_pile(side) && p != Pile::Discard ==> #[trigger] final(self).pile(p) == old(self).pile(p),
            final(self).china_holder() == old(self).china_holder(),
            final(self).china_face_up() == old(self).china_face_up(),
    {
        match side {
            Side::US => self.us_hand.push(card),
            _ => self.ussr_hand.push(card),
        }
        self.discard_pile.pop(card);
    }

    /// Moves a card from the draw pile into a superpower's hand.
    pub fn draw_into_hand(&mut self, side: Side, card: Card)
        requires
            old(self).wf(),
            side != Side::Neutral,
        ensures
            final(self).wf(),
            final(self).pile(Pile::Draw) == old(self).pile(Pile::Draw).update(card_index(card) as int, false),
            final(self).pile(hand_pile(side)) == old(self).pile(hand_pile(side)).update(card_index(card) as int, true),
            forall|p: Pile| p != Pile::Draw && p != hand_pile(side) ==> #[trigger] final(self).pile(p) == old(self).pile(p),
            final(self).china_holder() == old(self).china_holder(),
            final(self).china_face_up() == old(self).china_face_up(),
    {
        self.draw_pile.pop(card);
        match side {
            Side::US => self.us_hand.push(card),
            _ => self.ussr_hand.push(card),
        }
    }

    /// Moves the whole discard pile into the draw pile.
    pub fn reset_draw_pile(&mut self)
        requires
            old(self).wf(),
        ensures
            final(self).wf(),
            forall|i: int| 0 <= i < CARD_BITS ==> #[trigger] final(self).pile(Pile::Draw)[i]
                == (old(self).pile(Pile::Draw)[i] || old(self).pile(Pile::Discard)[i]),
            final(self).pile(Pile::Discard) == Seq::new(CARD_BITS as nat, |i: int| false),
            forall|p: Pile| p != Pile::Draw && p != Pile::Discard ==> #[trigger] final(self).pile(p) == old(self).pile(p),
            final(self).china_holder() == old(self).china_holder(),
            final(self).china_face_up() == old(self).china_face_up(),
    {
        let discard = self.discard_pile;
        self.draw_pile.union_with(discard);
        self.discard_pile = CardSet::empty();
    }

    /// Adds the early war cards to the draw pile.
    pub fn add_early_war(&mut self)
        requires
            card_bits_ok(old(self).pile(Pile::Draw)),
        ensures
            card_bits_ok(final(self).pile(Pile::Draw)),
            forall|i: int| 0 <= i < CARD_BITS ==> #[trigger] final(self).pile(Pile::Draw)[i]
                == (old(self).pile(Pile::Draw)[i] || early_war_bit(i)),
            final(self).same_but(old(self), Pile::Draw),
    {
        let ghost start = self.draw_pile@;
        let mut c_index: usize = 1;
        while c_index < 36
            invariant
                1 <= c_index <= 36,
                card_bits_ok(self.draw_pile@),
                forall|i: int| 0 <= i < CARD_BITS ==> #[trigger] self.draw_pile@[i]
                    == (start[i] || (1 <= i < c_index && i != 6)),
                self.us_hand == old(self).us_hand,
                self.ussr_hand == old(self).ussr_hand,
                self.discard_pile == old(self).discard_pile,
                self.pending_discard == old(self).pending_discard,
                self.removed == old(self).removed,
                self.china == old(self).china,
                self.china_up == old(self).china_up,
                start == old(self).draw_pile@,
            decreases 36 - c_index,
        {
            let card = Card::from_index(c_index);
            if c_index != 6 {
                self.draw_pile.push(card);
            }
            c_index += 1;
        }
        let mut c_index: usize = 103;
        while c_index < 107
            invariant
                103 <= c_index <= 107,
                card_bits_ok(self.draw_pile@),
                forall|i: int| 0 <= i < CARD_BITS ==> #[trigger] self.draw_pile@[i]
                    == (start[i] || (1 <= i <= 35 && i != 6) || (103 <= i < c_index)),
                self.us_hand == old(self).us_hand,
                self.ussr_hand == old(self).ussr_hand,
                self.discard_pile == old(self).discard_pile,
                self.pending_discard == old(self).pending_discard,
                self.removed == old(self).removed,
                self.china == old(self).china,
                self.china_up == old(self).china_up,
                start == old(self).draw_pile@,
            decreases 107 - c_index,
        {
            let card = Card::from_index(c_index);
            self.draw_pile.push(card);
            c_index += 1;
        }
    }

    /// Adds the cards after Formosan Resolution to the draw pile.
    pub fn add_mid_war(&mut self)
        requires
            old(self).wf(),
        ensures
            final(self).wf(),
            forall|i: int| 0 <= i < CARD_BITS ==> #[trigger] final(self).pile(Pile::Draw)[i]
                == (old(self).pile(Pile::Draw)[i] || mid_war_bit(i)),
            final(self).same_but(old(self), Pile::Draw),
    {
        let ghost start = self.draw_pile@;
        let mut c_index: usize = 36;
        while c_index < NUM_CARDS
            invariant
                36 <= c_index <= NUM_CARDS,
                card_bits_ok(self.draw_pile@),
                forall|i: int| 0 <= i < CARD_BITS ==> #[trigger] self.draw_pile@[i]
                    == (start[i] || (36 <= i < c_index)),
                self.us_hand == old(self).us_hand,
                self.ussr_hand == old(self).ussr_hand,
                self.discard_pile == old(self).discard_pile,
                self.pending_discard == old(self).pending_discard,
                self.removed == old(self).removed,
                self.china == old(self).china,
                self.china_up == old(self).china_up,
                start == old(self).draw_pile@,
                old(self).wf(),
            decreases NUM_CARDS - c_index,
        {
            let card = Card::from_index(c_index);
            self.draw_pile.push(card);
            c_index += 1;
        }
    }
}

} // verus!
