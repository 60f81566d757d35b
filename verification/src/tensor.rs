use vstd::prelude::*;
use crate::action::{action_index_of, action_of, legal_choices_spec, lemma_offset_roundtrip, offset_spec, Action, NUM_ACTIONS};
use crate::card::{card_index, card_of, lemma_card_index_inverse, max_e_choices_spec, Card, NUM_CARDS};

pub mod encode;

verus! {

/// The number of event options of the first `n` cards, counting only cards that offer a
/// choice.
pub open spec fn special_sum(n: nat) -> nat
    decreases n,
{
    if n == 0 {
        0
    } else {
        let c = card_of((n - 1) as usize);
        special_sum((n - 1) as nat) + if max_e_choices_spec(c) > 1 { max_e_choices_spec(c) as nat } else { 0 }
    }
}

/// The number of special event choices over all cards.
pub open spec fn special_total_spec() -> nat {
    special_sum(NUM_CARDS as nat)
}

proof fn lemma_special_sum_0_28()
    requires
        special_sum(0) == 0,
    ensures
        special_sum(28) == 6,
{
    assert(max_e_choices_spec(card_of(0)) == 1);
    assert(special_sum(1) == 0);
    assert(max_e_choices_spec(card_of(1)) == 1);
    assert(special_sum(2) == 0);
    assert(max_e_choices_spec(card_of(2)) == 1);
    assert(special_sum(3) == 0);
    assert(max_e_choices_spec(card_of(3)) == 1);
    assert(special_sum(4) == 0);
    assert(max_e_choices_spec(card_of(4)) == 1);
    assert(special_sum(5) == 0);
    assert(max_e_choices_spec(card_of(5)) == 1);
    assert(special_sum(6) == 0);
    assert(max_e_choices_spec(card_of(6)) == 1);
    assert(special_sum(7) == 0);
    assert(max_e_choices_spec(card_of(7)) == 1);
    assert(special_sum(8) == 0);
    assert(max_e_choices_spec(card_of(8)) == 1);
    assert(special_sum(9) == 0);
    assert(max_e_choices_spec(card_of(9)) == 1);
    assert(special_sum(10) == 0);
    assert(max_e_choices_spec(card_of(10)) == 2);
    assert(special_sum(11) == 2);
    assert(max_e_choices_spec(card_of(11)) == 1);
    assert(special_sum(12) == 2);
    assert(max_e_choices_spec(card_of(12)) == 1);
    assert(special_sum(13) == 2);
    assert(max_e_choices_spec(card_of(13)) == 1);
    assert(special_sum(14) == 2);
    assert(max_e_choices_spec(card_of(14)) == 1);
    assert(special_sum(15) == 2);
    assert(max_e_choices_spec(card_of(15)) == 1);
    assert(special_sum(16) == 2);
    assert(max_e_choices_spec(card_of(16)) == 2);
    assert(special_sum(17) == 4);
    assert(max_e_choices_spec(card_of(17)) == 1);
    assert(special_sum(18) == 4);
    assert(max_e_choices_spec(card_of(18)) == 1);
    assert(special_sum(19) == 4);
    assert(max_e_choices_spec(card_of(19)) == 1);
    assert(special_sum(20) == 4);
    assert(max_e_choices_spec(card_of(20)) == 2);
    assert(special_sum(21) == 6);
    assert(max_e_choices_spec(card_of(21)) == 1);
    assert(special_sum(22) == 6);
    assert(max_e_choices_spec(card_of(22)) == 1);
    assert(special_sum(23) == 6);
    assert(max_e_choices_spec(card_of(23)) == 1);
    assert(special_sum(24) == 6);
    assert(max_e_choices_spec(card_of(24)) == 1);
    assert(special_sum(25) == 6);
    assert(max_e_choices_spec(card_of(25)) == 1);
    assert(special_sum(26) == 6);
    assert(max_e_choices_spec(card_of(26)) == 1);
    assert(special_sum(27) == 6);
    assert(max_e_choices_spec(card_of(27)) == 1);
    assert(special_sum(28) == 6);
}

proof fn lemma_special_sum_28_56()
    requires
        special_sum(28) == 6,
    ensures
        special_sum(56) == 10,
{
    assert(max_e_choices_spec(card_of(28)) == 1);
    assert(special_sum(29) == 6);
    assert(max_e_choices_spec(card_of(29)) == 1);
    assert(special_sum(30) == 6);
    assert(max_e_choices_spec(card_of(30)) == 1);
    assert(special_sum(31) == 6);
    assert(max_e_choices_spec(card_of(31)) == 1);
    assert(special_sum(32) == 6);
    assert(max_e_choices_spec(card_of(32)) == 1);
    assert(special_sum(33) == 6);
    assert(max_e_choices_spec(card_of(33)) == 1);
    assert(special_sum(34) == 6);
    assert(max_e_choices_spec(card_of(34)) == 1);
    assert(special_sum(35) == 6);
    assert(max_e_choices_spec(card_of(35)) == 1);
    assert(special_sum(36) == 6);
    assert(max_e_choices_spec(card_of(36)) == 1);
    assert(special_sum(37) == 6);
    assert(max_e_choices_spec(card_of(37)) == 1);
    assert(special_sum(38) == 6);
    assert(max_e_choices_spec(card_of(38)) == 1);
    assert(special_sum(39) == 6);
    assert(max_e_choices_spec(card_of(39)) == 1);
    assert(special_sum(40) == 6);
    assert(max_e_choices_spec(card_of(40)) == 1);
    assert(special_sum(41) == 6);
    assert(max_e_choices_spec(card_of(41)) == 1);
    assert(special_sum(42) == 6);
    assert(max_e_choices_spec(card_of(42)) == 1);
    assert(special_sum(43) == 6);
    assert(max_e_choices_spec(card_of(43)) == 1);
    assert(special_sum(44) == 6);
    assert(max_e_choices_spec(card_of(44)) == 1);
    assert(special_sum(45) == 6);
    assert(max_e_choices_spec(card_of(45)) == 1);
    assert(special_sum(46) == 6);
    assert(max_e_choices_spec(card_of(46)) == 1);
    assert(special_sum(47) == 6);
    assert(max_e_choices_spec(card_of(47)) == 2);
    assert(special_sum(48) == 8);
    assert(max_e_choices_spec(card_of(48)) == 1);
    assert(special_sum(49) == 8);
    assert(max_e_choices_spec(card_of(49)) == 1);
    assert(special_sum(50) == 8);
    assert(max_e_choices_spec(card_of(50)) == 1);
    assert(special_sum(51) == 8);
    assert(max_e_choices_spec(card_of(51)) == 1);
    assert(special_sum(52) == 8);
    assert(max_e_choices_spec(card_of(52)) == 1);
    assert(special_sum(53) == 8);
    assert(max_e_choices_spec(card_of(53)) == 2);
    assert(special_sum(54) == 10);
    assert(max_e_choices_spec(card_of(54)) == 1);
    assert(special_sum(55) == 10);
    assert(max_e_choices_spec(card_of(55)) == 1);
    assert(special_sum(56) == 10);
}

proof fn lemma_special_sum_56_84()
    requires
        special_sum(56) == 10,
    ensures
        special_sum(84) == 10,
{
    assert(max_e_choices_spec(card_of(56)) == 1);
    assert(special_sum(57) == 10);
    assert(max_e_choices_spec(card_of(57)) == 1);
    assert(special_sum(58) == 10);
    assert(max_e_choices_spec(card_of(58)) == 1);
    assert(special_sum(59) == 10);
    assert(max_e_choices_spec(card_of(59)) == 1);
    assert(special_sum(60) == 10);
    assert(max_e_choices_spec(card_of(60)) == 1);
    assert(special_sum(61) == 10);
    assert(max_e_choices_spec(card_of(61)) == 1);
    assert(special_sum(62) == 10);
    assert(max_e_choices_spec(card_of(62)) == 1);
    assert(special_sum(63) == 10);
    assert(max_e_choices_spec(card_of(63)) == 1);
    assert(special_sum(64) == 10);
    assert(max_e_choices_spec(card_of(64)) == 1);
    assert(special_sum(65) == 10);
    assert(max_e_choices_spec(card_of(65)) == 1);
    assert(special_sum(66) == 10);
    assert(max_e_choices_spec(card_of(66)) == 1);
    assert(special_sum(67) == 10);
    assert(max_e_choices_spec(card_of(67)) == 1);
    assert(special_sum(68) == 10);
    assert(max_e_choices_spec(card_of(68)) == 1);
    assert(special_sum(69) == 10);
    assert(max_e_choices_spec(card_of(69)) == 1);
    assert(special_sum(70) == 10);
    assert(max_e_choices_spec(card_of(70)) == 1);
    assert(special_sum(71) == 10);
    assert(max_e_choices_spec(card_of(71)) == 1);
    assert(special_sum(72) == 10);
    assert(max_e_choices_spec(card_of(72)) == 1);
    assert(special_sum(73) == 10);
    assert(max_e_choices_spec(card_of(73)) == 1);
    assert(special_sum(74) == 10);
    assert(max_e_choices_spec(card_of(74)) == 1);
    assert(special_sum(75) == 10);
    assert(max_e_choices_spec(card_of(75)) == 1);
    assert(special_sum(76) == 10);
    assert(max_e_choices_spec(card_of(76)) == 1);
    assert(special_sum(77) == 10);
    assert(max_e_choices_spec(card_of(77)) == 1);
    assert(special_sum(78) == 10);
    assert(max_e_choices_spec(card_of(78)) == 1);
    assert(special_sum(79) == 10);
    assert(max_e_choices_spec(card_of(79)) == 1);
    assert(special_sum(80) == 10);
    assert(max_e_choices_spec(card_of(80)) == 1);
    assert(special_sum(81) == 10);
    assert(max_e_choices_spec(card_of(81)) == 1);
    assert(special_sum(82) == 10);
    assert(max_e_choices_spec(card_of(82)) == 1);
    assert(special_sum(83) == 10);
    assert(max_e_choices_spec(card_of(83)) == 1);
    assert(special_sum(84) == 10);
}

proof fn lemma_special_sum_84_111()
    requires
        special_sum(84) == 10,
    ensures
        special_sum(111) == 14,
{
    assert(max_e_choices_spec(card_of(84)) == 1);
    assert(special_sum(85) == 10);
    assert(max_e_choices_spec(card_of(85)) == 1);
    assert(special_sum(86) == 10);
    assert(max_e_choices_spec(card_of(86)) == 1);
    assert(special_sum(87) == 10);
    assert(max_e_choices_spec(card_of(87)) == 1);
    assert(special_sum(88) == 10);
    assert(max_e_choices_spec(card_of(88)) == 1);
    assert(special_sum(89) == 10);
    assert(max_e_choices_spec(card_of(89)) == 1);
    assert(special_sum(90) == 10);
    assert(max_e_choices_spec(card_of(90)) == 1);
    assert(special_sum(91) == 10);
    assert(max_e_choices_spec(card_of(91)) == 1);
    assert(special_sum(92) == 10);
    assert(max_e_choices_spec(card_of(92)) == 1);
    assert(special_sum(93) == 10);
    assert(max_e_choices_spec(card_of(93)) == 1);
    assert(special_sum(94) == 10);
    assert(max_e_choices_spec(card_of(94)) == 1);
    assert(special_sum(95) == 10);
    assert(max_e_choices_spec(card_of(95)) == 2);
    assert(special_sum(96) == 12);
    assert(max_e_choices_spec(card_of(96)) == 1);
    assert(special_sum(97) == 12);
    assert(max_e_choices_spec(card_of(97)) == 1);
    assert(special_sum(98) == 12);
    assert(max_e_choices_spec(card_of(98)) == 1);
    assert(special_sum(99) == 12);
    assert(max_e_choices_spec(card_of(99)) == 1);
    assert(special_sum(100) == 12);
    assert(max_e_choices_spec(card_of(100)) == 2);
    assert(special_sum(101) == 14);
    assert(max_e_choices_spec(card_of(101)) == 1);
    assert(special_sum(102) == 14);
    assert(max_e_choices_spec(card_of(102)) == 1);
    assert(special_sum(103) == 14);
    assert(max_e_choices_spec(card_of(103)) == 1);
    assert(special_sum(104) == 14);
    assert(max_e_choices_spec(card_of(104)) == 1);
    assert(special_sum(105) == 14);
    assert(max_e_choices_spec(card_of(105)) == 1);
    assert(special_sum(106) == 14);
    assert(max_e_choices_spec(card_of(106)) == 1);
    assert(special_sum(107) == 14);
    assert(max_e_choices_spec(card_of(107)) == 1);
    assert(special_sum(108) == 14);
    assert(max_e_choices_spec(card_of(108)) == 1);
    assert(special_sum(109) == 14);
    assert(max_e_choices_spec(card_of(109)) == 1);
    assert(special_sum(110) == 14);
    assert(max_e_choices_spec(card_of(110)) == 1);
    assert(special_sum(111) == 14);
}
/// There are fourteen special event choices: two for each of seven cards.
pub proof fn lemma_special_total()
    ensures
        special_total_spec() == 14,
{
    assert(special_sum(0) == 0);
    lemma_special_sum_0_28();
    lemma_special_sum_28_56();
    lemma_special_sum_56_84();
    lemma_special_sum_84_111();
}

/// The number of special event choices over all cards.
pub fn special_total() -> (r: usize)
    ensures
        r == special_total_spec(),
{
    let mut sum: usize = 0;
    let mut i: usize = 0;
    proof { lemma_special_total(); }
    while i < NUM_CARDS
        invariant
            i <= NUM_CARDS,
            sum == special_sum(i as nat),
            special_sum(i as nat) <= 2 * i,
        decreases NUM_CARDS - i,
    {
        let c = Card::from_index(i);
        let choices = c.max_e_choices();
        if choices > 1 {
            sum = sum + choices;
        }
        i = i + 1;
    }
    sum
}

/// A kind of action together with the choice made within it, if any.
#[derive(Clone, Copy, Debug, PartialEq, Eq, Structural)]
pub struct DecodedChoice {
    pub action: Action,
    pub choice: Option<usize>,
}

impl DecodedChoice {
    /// A decoded choice from its parts.
    pub fn new(action: Action, choice: Option<usize>) -> (r: Self)
        ensures
            r == (DecodedChoice { action, choice }),
    {
        Self { action, choice }
    }
}

/// One position of the flat output vector that encodes every (action, choice) pair.
#[derive(PartialEq, Eq, Structural, Clone, Copy, Debug)]
pub struct OutputIndex {
    data: usize,
}

impl View for OutputIndex {
    type V = usize;

    closed spec fn view(&self) -> usize {
        self.data
    }
}

/// The output indices for a list of raw positions.
pub fn encode_offsets(data: Vec<usize>) -> (r: Vec<OutputIndex>)
    ensures
        r.len() == data.len(),
        forall|i: int| 0 <= i < data.len() ==> #[trigger] r@[i]@ == data@[i],
{
    let mut out: Vec<OutputIndex> = Vec::new();
    let mut i: usize = 0;
    while i < data.len()
        invariant
            i <= data.len(),
            out.len() == i,
            forall|j: int| 0 <= j < i ==> #[trigger] out@[j]@ == data@[j],
        decreases data.len() - i,
    {
        out.push(OutputIndex::new(data[i]));
        i = i + 1;
    }
    out
}

/// The kind of action and choice an output position stands for.
pub open spec fn decode_spec(data: usize) -> DecodedChoice {
    let a = action_of(Action::action_index_spec(data) as usize);
    DecodedChoice { action: a, choice: Some((data - offset_spec(action_index_of(a) as nat)) as usize) }
}

impl OutputIndex {
    /// The output index at a raw position.
    pub fn new(data: usize) -> (r: OutputIndex)
        ensures
            r@ == data,
    {
        OutputIndex { data }
    }

    /// The output index of passing.
    pub fn pass() -> (r: OutputIndex)
        ensures
            r@ == offset_spec(action_index_of(Action::Pass) as nat),
    {
        OutputIndex::new(Action::Pass.offset())
    }

    /// Encode a single action-choice pair.
    pub fn encode_single(action: Action, choice: usize) -> (r: Self)
        requires
            offset_spec(action_index_of(action) as nat) + choice <= usize::MAX,
        ensures
            r@ == offset_spec(action_index_of(action) as nat) + choice,
    {
        Self::new(action.offset() + choice)
    }

    /// The kind of action and choice this position stands for.
    pub fn decode(&self) -> (r: DecodedChoice)
        ensures
            r == decode_spec(self@),
    {
        let x = Action::action_from_offset(self.data);
        proof {
            lemma_action_of_inverse(Action::action_index_spec(self.data) as usize);
            crate::action::lemma_action_index_of_inverse(x.0);
        }
        DecodedChoice::new(x.0, Some(x.1))
    }

    /// The raw position.
    pub fn inner(&self) -> (r: usize)
        ensures
            r == self@,
    {
        self.data
    }
}

use crate::action::lemma_action_of_inverse;

/// Decoding undoes encoding: a choice within the range of its kind of action, once
/// encoded, decodes to the same kind of action and the same choice.
pub proof fn lemma_encode_decode(a: Action, c: usize)
    requires
        c < legal_choices_spec(a),
    ensures
        offset_spec(action_index_of(a) as nat) + c <= usize::MAX,
        decode_spec((offset_spec(action_index_of(a) as nat) + c) as usize) == (DecodedChoice { action: a, choice: Some(c) }),
{
    lemma_offset_roundtrip(a, c as nat);
    crate::action::lemma_action_index_of_inverse(a);
}

/// A key of an `IndexMap`: something with a small number.
pub trait MapKey: Copy {
    /// The number of the key.
    spec fn key_spec(&self) -> usize;

    /// The number of the key.
    fn key(&self) -> (r: usize)
        ensures
            r == self.key_spec();
}

impl MapKey for usize {
    open spec fn key_spec(&self) -> usize {
        *self
    }

    fn key(&self) -> (r: usize) {
        *self
    }
}

impl MapKey for Card {
    open spec fn key_spec(&self) -> usize {
        card_index(*self)
    }

    fn key(&self) -> (r: usize) {
        self.index()
    }
}

/// Whether the keys of a list of pairs are pairwise distinct.
pub open spec fn distinct_keys<K: MapKey>(pairs: Seq<(K, usize)>) -> bool {
    forall|i: int, j: int| 0 <= i < pairs.len() && 0 <= j < pairs.len() && i != j
        ==> (#[trigger] pairs[i]).0.key_spec() != (#[trigger] pairs[j]).0.key_spec()
}

/// The value of the last pair of a list whose key has the given number, if any.
pub open spec fn last_for<K: MapKey>(s: Seq<(K, usize)>, key: usize) -> Option<usize>
    decreases s.len(),
{
    if s.len() == 0 {
        None
    } else if s.last().0.key_spec() == key {
        Some(s.last().1)
    } else {
        last_for(s.drop_last(), key)
    }
}

/// A key number with a value belongs to one of the pairs, the last with that key.
pub proof fn lemma_last_for_found<K: MapKey>(s: Seq<(K, usize)>, key: usize)
    requires
        last_for(s, key) is Some,
    ensures
        exists|i: int| 0 <= i < s.len() && (#[trigger] s[i]).0.key_spec() == key && s[i].1 == last_for(s, key)->0,
    decreases s.len(),
{
    if s.last().0.key_spec() == key {
        assert(s[s.len() - 1].0.key_spec() == key);
    } else {
        lemma_last_for_found(s.drop_last(), key);
        let i = choose|i: int| 0 <= i < s.drop_last().len() && (#[trigger] s.drop_last()[i]).0.key_spec() == key
            && s.drop_last()[i].1 == last_for(s.drop_last(), key)->0;
        assert(s[i] == s.drop_last()[i]);
    }
}

/// If every pair of a list with a given key number has the same value, and one of them is
/// in the list, the last one found has that value.
pub proof fn lemma_last_for_unique<K: MapKey>(s: Seq<(K, usize)>, key: usize, v: usize)
    requires
        exists|i: int| 0 <= i < s.len() && (#[trigger] s[i]).0.key_spec() == key,
        forall|i: int| 0 <= i < s.len() && (#[trigger] s[i]).0.key_spec() == key ==> s[i].1 == v,
    ensures
        last_for(s, key) == Some(v),
    decreases s.len(),
{
    if s.last().0.key_spec() != key {
        let i = choose|i: int| 0 <= i < s.len() && (#[trigger] s[i]).0.key_spec() == key;
        assert(s.drop_last()[i].0.key_spec() == key);
        assert forall|j: int| 0 <= j < s.drop_last().len() && (#[trigger] s.drop_last()[j]).0.key_spec() == key implies s.drop_last()[j].1 == v by {
            assert(s[j] == s.drop_last()[j]);
        }
        lemma_last_for_unique(s.drop_last(), key, v);
    }
}

/// A list holding a pair with a given key number has a last such pair.
pub proof fn lemma_last_for_some<K: MapKey>(s: Seq<(K, usize)>, i: int)
    requires
        0 <= i < s.len(),
    ensures
        last_for(s, s[i].0.key_spec()) is Some,
    decreases s.len(),
{
    if s.last().0.key_spec() != s[i].0.key_spec() {
        assert(s.drop_last()[i] == s[i]);
        lemma_last_for_some(s.drop_last(), i);
    }
}

/// A map from small keys to values, which also remembers its keys in order of value.
pub struct IndexMap<K> {
    keys: Vec<K>,
    values: Vec<Option<usize>>,
    pairs: Ghost<Seq<(K, usize)>>,
}

impl<K: MapKey> IndexMap<K> {
    /// The pairs the map was built from, in order of value, ties in the order given.
    pub closed spec fn pairs_spec(&self) -> Seq<(K, usize)> {
        self.pairs@
    }

    /// The keys, in order of value.
    pub closed spec fn keys_spec(&self) -> Seq<K> {
        self.keys@
    }

    /// The value stored under a key number, if any.
    pub open spec fn get_spec(&self, key: usize) -> Option<usize> {
        last_for(self.pairs_spec(), key)
    }

    /// The keys are those of the pairs, and the value table holds, under each key number,
    /// the value of the last pair with that key, and ends with a filled slot.
    pub closed spec fn wf(&self) -> bool {
        &&& self.keys@ == self.pairs@.map_values(|p: (K, usize)| p.0)
        &&& forall|key: int| 0 <= key < self.values.len() ==> #[trigger] self.values@[key] == last_for(self.pairs@, key as usize)
        &&& forall|key: usize| key >= self.values.len() ==> #[trigger] last_for(self.pairs@, key) is None
        &&& self.values.len() > 0 ==> self.values@.last() is Some
        &&& self.values.len() == 0 ==> self.pairs@.len() == 0
        &&& forall|i: int| 0 <= i < self.pairs@.len() ==> (#[trigger] self.pairs@[i]).0.key_spec() < self.values.len()
    }

    /// The number of slots of the value table: one past the highest key number.
    pub closed spec fn values_len(&self) -> nat {
        self.values@.len()
    }

    /// Builds the map from key-value pairs; the keys are remembered in order of value, ties
    /// in the order given, and a later pair for the same key replaces an earlier one.
    pub fn new(pairs: Vec<(K, usize)>) -> (r: Self)
        requires
            forall|i: int| 0 <= i < pairs.len() ==> #[trigger] pairs@[i].0.key_spec() < usize::MAX,
        ensures
            r.wf(),
            r.keys_spec() == r.pairs_spec().map_values(|p: (K, usize)| p.0),
            r.pairs_spec().len() == pairs.len(),
            forall|a: int, b: int| 0 <= a < b < r.pairs_spec().len() ==> (#[trigger] r.pairs_spec()[a]).1 <= (#[trigger] r.pairs_spec()[b]).1,
            forall|p: (K, usize)| #[trigger] r.pairs_spec().contains(p) <==> pairs@.contains(p),
    {
        let mut sorted: Vec<(K, usize)> = Vec::new();
        let mut i: usize = 0;
        while i < pairs.len()
            invariant
                i <= pairs.len(),
                sorted.len() == i,
                forall|a: int, b: int| 0 <= a < b < sorted.len() ==> (#[trigger] sorted@[a]).1 <= (#[trigger] sorted@[b]).1,
                forall|p: (K, usize)| #[trigger] sorted@.contains(p) <==> pairs@.take(i as int).contains(p),
            decreases pairs.len() - i,
        {
            let p = pairs[i];
            let mut pos: usize = 0;
            while pos < sorted.len() && sorted[pos].1 <= p.1
                invariant
                    pos <= sorted.len(),
                    forall|a: int| 0 <= a < pos ==> (#[trigger] sorted@[a]).1 <= p.1,
                decreases sorted.len() - pos,
            {
                pos = pos + 1;
            }
            let ghost before = sorted@;
            sorted.insert(pos, p);
            proof {
                assert forall|a: int, b: int| 0 <= a < b < sorted.len() implies (#[trigger] sorted@[a]).1 <= (#[trigger] sorted@[b]).1 by {
                    if pos < before.len() {
                        assert(before[pos as int].1 > p.1);
                    }
                }
                assert forall|q: (K, usize)| #[trigger] sorted@.contains(q) <==> pairs@.take(i + 1).contains(q) by {
                    let t = pairs@.take(i + 1);
                    let u = pairs@.take(i as int);
                    assert(t[i as int] == p);
                    if sorted@.contains(q) {
                        let x = choose|x: int| 0 <= x < sorted.len() && sorted@[x] == q;
                        if x < pos {
                            assert(before[x] == q);
                        } else if x > pos {
                            assert(before[x - 1] == q);
                        }
                        if q != p {
                            assert(before.contains(q));
                            let y = choose|y: int| 0 <= y < u.len() && u[y] == q;
                            assert(t[y] == q);
                        }
                    }
                    if t.contains(q) {
                        let y = choose|y: int| 0 <= y < t.len() && t[y] == q;
                        if y < i {
                            assert(u[y] == q);
                            assert(before.contains(q));
                            let x = choose|x: int| 0 <= x < before.len() && before[x] == q;
                            if x < pos {
                                assert(sorted@[x] == q);
                            } else {
                                assert(sorted@[x + 1] == q);
                            }
                        } else {
                            assert(sorted@[pos as int] == q);
                        }
                    }
                }
            }
            i = i + 1;
        }
        proof {
            assert(pairs@.take(pairs.len() as int) =~= pairs@);
        }
        let mut keys: Vec<K> = Vec::new();
        let mut values: Vec<Option<usize>> = Vec::new();
        let mut j: usize = 0;
        while j < sorted.len()
            invariant
                j <= sorted.len(),
                sorted.len() == pairs.len(),
                keys@ == sorted@.take(j as int).map_values(|p: (K, usize)| p.0),
                forall|key: int| 0 <= key < values.len() ==> #[trigger] values@[key] == last_for(sorted@.take(j as int), key as usize),
                forall|key: usize| key >= values.len() ==> #[trigger] last_for(sorted@.take(j as int), key) is None,
                values.len() > 0 ==> values@.last() is Some,
                values.len() == 0 ==> j == 0,
                forall|a: int| 0 <= a < j ==> (#[trigger] sorted@[a]).0.key_spec() < values.len(),
                forall|p: (K, usize)| #[trigger] sorted@.contains(p) <==> pairs@.contains(p),
                forall|a: int| 0 <= a < pairs.len() ==> #[trigger] pairs@[a].0.key_spec() < usize::MAX,
            decreases sorted.len() - j,
        {
            let (k, v) = sorted[j];
            proof {
                assert(sorted@.contains(sorted@[j as int]));
                let y = choose|y: int| 0 <= y < pairs.len() && pairs@[y] == sorted@[j as int];
                assert(pairs@[y].0.key_spec() < usize::MAX);
            }
            let ghost t0 = sorted@.take(j as int);
            let ghost t1 = sorted@.take(j + 1);
            proof {
                assert(t1.drop_last() =~= t0);
                assert(t1.last() == (k, v));
                assert(t1.map_values(|p: (K, usize)| p.0) =~= t0.map_values(|p: (K, usize)| p.0).push(k));
            }
            keys.push(k);
            let kk = k.key();
            let ghost before = values@;
            while values.len() <= kk
                invariant
                    values.len() <= kk + 1 || values.len() == before.len(),
                    values@.len() >= before.len(),
                    kk < usize::MAX,
                    forall|x: int| 0 <= x < before.len() ==> #[trigger] values@[x] == before[x],
                    forall|x: int| before.len() <= x < values.len() ==> #[trigger] values@[x] is None,
                decreases kk + 1 - values.len(),
            {
                values.push(None);
            }
            values.set(kk, Some(v));
            proof {
                assert forall|key: int| 0 <= key < values.len() implies #[trigger] values@[key] == last_for(t1, key as usize) by {
                    if key != kk as int {
                        if key >= before.len() {
                            assert(last_for(t0, key as usize) is None);
                        }
                    }
                }
                assert forall|key: usize| key >= values.len() implies #[trigger] last_for(t1, key) is None by {
                    assert(last_for(t0, key) is None);
                }
                assert forall|a: int| 0 <= a < j + 1 implies (#[trigger] sorted@[a]).0.key_spec() < values.len() by {
                }
            }
            j = j + 1;
        }
        proof {
            assert(sorted@.take(sorted.len() as int) =~= sorted@);
        }
        IndexMap { keys, values, pairs: Ghost(sorted@) }
    }

    /// The value stored under a key.
    pub fn get(&self, key: K) -> (r: Option<&usize>)
        requires
            self.wf(),
        ensures
            r matches Some(x) ==> self.get_spec(key.key_spec()) == Some(*x),
            r is None ==> self.get_spec(key.key_spec()) is None,
    {
        let key = key.key();
        if key >= self.values.len() {
            None
        } else {
            self.values[key].as_ref()
        }
    }

    /// The value stored under a remembered key.
    pub open spec fn value_of(&self, k: K) -> usize {
        self.get_spec(k.key_spec())->0
    }

    /// A remembered key whose value is the given one.
    pub fn find_key(&self, value: &usize) -> (r: K)
        requires
            self.wf(),
            exists|i: int| 0 <= i < self.keys_spec().len() && self.value_of(#[trigger] self.keys_spec()[i]) == *value,
        ensures
            self.keys_spec().contains(r),
            self.value_of(r) == *value,
    {
        let mut i: usize = 0;
        while i < self.keys.len()
            invariant
                self.wf(),
                i <= self.keys.len(),
                forall|j: int| 0 <= j < i ==> self.value_of(#[trigger] self.keys@[j]) != *value,
                exists|j: int| 0 <= j < self.keys.len() && self.value_of(#[trigger] self.keys@[j]) == *value,
            decreases self.keys.len() - i,
        {
            let k = self.keys[i];
            let kk = k.key();
            proof {
                assert(self.keys@[i as int] == self.pairs@[i as int].0);
                lemma_last_for_some(self.pairs@, i as int);
            }
            if let Some(v) = self.values[kk] {
                if v == *value {
                    proof {
                        assert(self.keys@[i as int] == k);
                    }
                    return k;
                }
            }
            i = i + 1;
        }
        proof {
            let j = choose|j: int| 0 <= j < self.keys.len() && self.value_of(#[trigger] self.keys@[j]) == *value;
            assert(self.value_of(self.keys@[j]) != *value);
        }
        self.keys[0]
    }

    /// The value in the last slot of the value table: that of the highest key number.
    pub fn last_value(&self) -> (r: &usize)
        requires
            self.wf(),
            self.pairs_spec().len() > 0,
        ensures
            self.get_spec((self.values_len() - 1) as usize) == Some(*r),
            exists|i: int| 0 <= i < self.pairs_spec().len() && (#[trigger] self.pairs_spec()[i]).0.key_spec() == self.values_len() - 1
                && self.pairs_spec()[i].1 == *r,
            forall|i: int| 0 <= i < self.pairs_spec().len() ==> (#[trigger] self.pairs_spec()[i]).0.key_spec() < self.values_len(),
    {
        let n = self.values.len();
        proof {
            lemma_last_for_found(self.pairs@, (n - 1) as usize);
        }
        self.values[n - 1].as_ref().unwrap()
    }

    /// The key with the greatest value, the last one remembered.
    pub fn last_key(&self) -> (r: &K)
        requires
            self.keys_spec().len() > 0,
        ensures
            *r == self.keys_spec().last(),
    {
        let n = self.keys.len();
        &self.keys[n - 1]
    }
}

/// When the keys are distinct, the map gives each pair's value back under its key.
pub proof fn lemma_index_map_get<K: MapKey>(m: IndexMap<K>, pairs: Seq<(K, usize)>, i: int)
    requires
        distinct_keys(pairs),
        0 <= i < pairs.len(),
        forall|p: (K, usize)| #[trigger] m.pairs_spec().contains(p) <==> pairs.contains(p),
    ensures
        m.get_spec(pairs[i].0.key_spec()) == Some(pairs[i].1),
{
    let s = m.pairs_spec();
    let key = pairs[i].0.key_spec();
    assert(pairs.contains(pairs[i]));
    assert(s.contains(pairs[i]));
    let x = choose|x: int| 0 <= x < s.len() && s[x] == pairs[i];
    assert(s[x].0.key_spec() == key);
    assert forall|y: int| 0 <= y < s.len() && (#[trigger] s[y]).0.key_spec() == key implies s[y].1 == pairs[i].1 by {
        assert(s.contains(s[y]));
        assert(pairs.contains(s[y]));
        let z = choose|z: int| 0 <= z < pairs.len() && pairs[z] == s[y];
        assert(pairs[z].0.key_spec() == pairs[i].0.key_spec());
    }
    lemma_last_for_unique(s, key, pairs[i].1);
}

} // verus!
