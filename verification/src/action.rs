use vstd::prelude::*;
use crate::card::{card_index, Card, NUM_CARDS};
use crate::card::legal::{lazy_spec, resolve_lazy};
use crate::country::{Region, Side, NUM_COUNTRIES};
use crate::state::GameState;
use crate::tensor::{special_total, special_total_spec};

pub mod flow;

verus! {

/// Number of kinds of action.
pub const NUM_ACTIONS: usize = 24;
/// The number of the Cuban Missile Crisis action.
pub const CUBAN_OFFSET: usize = 17;
/// The number of the pass action.
pub const PASS: usize = 23;

/// A way to use a card for operations.
#[derive(Clone, Copy, PartialEq, Eq, Structural, Debug)]
pub enum CardUse {
    Influence,
    Coup,
    Space,
    Realignment,
}

/// When a card's event fires relative to its operations.
#[derive(Clone, Copy, PartialEq, Eq, Structural, Debug)]
pub enum EventTime {
    Before,
    After,
    Never,
}

/// The numeric value of an event time: Before 0, After 1, Never 2.
pub open spec fn event_time_index(t: EventTime) -> usize {
    match t {
        EventTime::Before => 0,
        EventTime::After => 1,
        EventTime::Never => 2,
    }
}

/// A limit on how often the same choice may be made within one decision.
#[derive(Clone, Copy, Debug, PartialEq, Eq, Structural)]
pub enum Restriction {
    Limit(usize),
}

/// The index of a card played with an event timing: three slots per card.
pub fn play_card_index(card: Card, resolve: EventTime) -> (r: usize)
    ensures
        r == card_index(card) * 3 + event_time_index(resolve),
{
    proof {
        crate::card::lemma_card_index_inverse(card);
    }
    let t: usize = match resolve {
        EventTime::Before => 0,
        EventTime::After => 1,
        EventTime::Never => 2,
    };
    card.index() * 3 + t
}

/// The number of distinct choices each kind of action offers.
pub open spec fn legal_choices_spec(a: Action) -> nat {
    match a {
        Action::ConductOps | Action::BeginAr | Action::ClearEvent | Action::EndAr => 1,
        Action::Influence | Action::Coup | Action::Realignment | Action::Place | Action::Remove => (NUM_COUNTRIES - 2) as nat,
        Action::Space | Action::Discard => NUM_CARDS as nat,
        Action::War => (NUM_COUNTRIES - 2) as nat,
        Action::Event | Action::EventOps | Action::Ops | Action::OpsEvent => NUM_CARDS as nat,
        Action::SpecialEvent => special_total_spec(),
        Action::CubanMissile => 3,
        Action::RecoverCard => NUM_CARDS as nat,
        Action::ChangeDefcon => 6,
        Action::ChooseCard => NUM_CARDS as nat,
        Action::BlockRegion => 6,
        Action::DoubleInf => 10,
        Action::Pass => 1,
    }
}

/// The first output index of the `i`-th kind of action: the choices of all earlier kinds
/// come before it.
pub open spec fn offset_spec(i: nat) -> nat
    decreases i,
{
    if i == 0 {
        0
    } else {
        offset_spec((i - 1) as nat) + legal_choices_spec(action_of((i - 1) as usize))
    }
}

/// Every kind of action offers at least one choice.
pub proof fn lemma_legal_choices_positive(a: Action)
    ensures
        legal_choices_spec(a) >= 1,
{
    crate::tensor::lemma_special_total();
}

/// Offsets grow strictly with the action number.
pub proof fn lemma_offsets_increase(i: nat, j: nat)
    requires
        i < j <= NUM_ACTIONS,
    ensures
        offset_spec(i) < offset_spec(j),
        offset_spec(i) + legal_choices_spec(action_of(i as usize)) <= offset_spec(j),
    decreases j - i,
{
    lemma_legal_choices_positive(action_of(i as usize));
    if j > i + 1 {
        lemma_offsets_increase(i + 1, j);
    }
}

/// The output indices in use end well within `usize`.
pub proof fn lemma_offsets_bounded(i: nat)
    requires
        i <= NUM_ACTIONS,
    ensures
        offset_spec(i) <= 111 * i,
        offset_spec(i) <= 10000,
    decreases i,
{
    if i > 0 {
        lemma_offsets_bounded((i - 1) as nat);
        crate::tensor::lemma_special_total();
    }
}

/// The offsets of all kinds of action, in action order.
pub fn offsets() -> (r: Vec<usize>)
    ensures
        r.len() == NUM_ACTIONS,
        forall|i: int| 0 <= i < NUM_ACTIONS ==> #[trigger] r@[i] == offset_spec(i as nat),
{
    let mut v: Vec<usize> = Vec::new();
    v.push(0);
    let mut i: usize = 0;
    while i < NUM_ACTIONS - 1
        invariant
            i <= NUM_ACTIONS - 1,
            v.len() == i + 1,
            forall|j: int| 0 <= j <= i ==> #[trigger] v@[j] == offset_spec(j as nat),
        decreases NUM_ACTIONS - 1 - i,
    {
        let last = v[i];
        proof {
            lemma_offsets_bounded((i + 1) as nat);
        }
        let a = Action::from_index(i);
        v.push(a.legal_choices() + last);
        i = i + 1;
    }
    v
}

impl Action {
    /// The number of distinct choices this kind of action offers.
    pub fn legal_choices(&self) -> (r: usize)
        ensures
            r == legal_choices_spec(*self),
    {
        let countries = NUM_COUNTRIES - 2;
        let cards = Card::total();
        match self {
            Action::ConductOps | Action::BeginAr | Action::ClearEvent | Action::EndAr => 1,
            Action::Influence | Action::Coup | Action::Realignment | Action::Place | Action::Remove => countries,
            Action::Space | Action::Discard => cards,
            Action::War => countries,
            Action::Event | Action::EventOps | Action::Ops | Action::OpsEvent => cards,
            Action::SpecialEvent => special_total(),
            Action::CubanMissile => 3,
            Action::RecoverCard => cards,
            Action::ChangeDefcon => 6,
            Action::ChooseCard => cards,
            Action::BlockRegion => 6,
            Action::DoubleInf => Region::SouthAmerica.all_countries().len(),
            Action::Pass => 1,
        }
    }

    /// The first output index of this kind of action.
    pub fn offset(&self) -> (r: usize)
        ensures
            r == offset_spec(action_index_of(*self) as nat),
    {
        let offsets = offsets();
        proof {
            lemma_action_index_of_inverse(*self);
        }
        offsets[self.index()]
    }

    /// The number of the kind of action that an output index falls in: the last kind whose
    /// offset is at most `data`.
    pub fn action_index(data: usize) -> (r: usize)
        ensures
            r < NUM_ACTIONS,
            offset_spec(r as nat) <= data,
            r + 1 < NUM_ACTIONS ==> data < offset_spec((r + 1) as nat),
    {
        let offsets = offsets();
        let mut lo: usize = 0;
        let mut hi: usize = NUM_ACTIONS;
        while lo + 1 < hi
            invariant
                0 <= lo < hi <= NUM_ACTIONS,
                offsets.len() == NUM_ACTIONS,
                forall|i: int| 0 <= i < NUM_ACTIONS ==> #[trigger] offsets@[i] == offset_spec(i as nat),
                offset_spec(lo as nat) <= data,
                hi < NUM_ACTIONS ==> data < offset_spec(hi as nat),
            decreases hi - lo,
        {
            let mid = lo + (hi - lo) / 2;
            if offsets[mid] <= data {
                lo = mid;
            } else {
                hi = mid;
            }
        }
        lo
    }

    /// Splits an output index into its kind of action and the choice within it.
    pub fn action_from_offset(offset: usize) -> (r: (Action, usize))
        ensures
            action_index_of(r.0) == Action::action_index_spec(offset),
            r.1 == offset - offset_spec(action_index_of(r.0) as nat),
            offset_spec(action_index_of(r.0) as nat) <= offset,
            action_index_of(r.0) + 1 < NUM_ACTIONS ==> offset < offset_spec((action_index_of(r.0) + 1) as nat),
    {
        let index = Self::action_index(offset);
        let action = Action::from_index(index);
        let offsets = offsets();
        let diff = offset - offsets[index];
        proof {
            Action::lemma_action_index_unique(offset, index);
        }
        (action, diff)
    }

    /// The kind of action an output index falls in, as a number.
    pub open spec fn action_index_spec(data: usize) -> nat {
        choose|r: nat| r < NUM_ACTIONS && #[trigger] offset_spec(r) <= data && (r + 1 < NUM_ACTIONS ==> data < offset_spec(r + 1))
    }

    /// Only one kind of action can hold an output index.
    pub proof fn lemma_action_index_unique(data: usize, r: usize)
        requires
            r < NUM_ACTIONS,
            offset_spec(r as nat) <= data,
            r + 1 < NUM_ACTIONS ==> data < offset_spec((r + 1) as nat),
        ensures
            Action::action_index_spec(data) == r,
    {
        let s = Action::action_index_spec(data);
        assert(s < NUM_ACTIONS && offset_spec(s) <= data && (s + 1 < NUM_ACTIONS ==> data < offset_spec(s + 1)));
        if s < r {
            lemma_offsets_increase(s + 1, r as nat);
            if s + 1 < r {
            }
        } else if s > r {
            lemma_offsets_increase((r + 1) as nat, s);
            if r + 1 < s {
            }
        }
    }
}

/// Decoding undoes encoding: the output index `offset(a) + c` of a choice `c` of a kind of
/// action `a` decodes back to `a` and `c`.
pub proof fn lemma_offset_roundtrip(a: Action, c: nat)
    requires
        c < legal_choices_spec(a),
    ensures
        offset_spec(action_index_of(a) as nat) + c <= 10000,
        Action::action_index_spec((offset_spec(action_index_of(a) as nat) + c) as usize) == action_index_of(a),
{
    let i = action_index_of(a);
    lemma_action_index_of_inverse(a);
    lemma_offsets_bounded((i + 1) as nat);
    Action::lemma_action_index_unique((offset_spec(i as nat) + c) as usize, i);
}

#[derive(Clone, Copy, PartialEq, Eq, Structural, Debug)]
pub enum Action {
    BeginAr,
    EndAr,
    ClearEvent,
    ConductOps,
    Influence,
    Coup,
    Space,
    Realignment,
    Place,
    Remove,
    Discard,
    Ops,
    OpsEvent,
    EventOps,
    Event,
    SpecialEvent,
    War,
    CubanMissile,
    RecoverCard,
    ChangeDefcon,
    ChooseCard,
    BlockRegion,
    DoubleInf,
    Pass,
}

/// The position of a Action in the enumeration order.
pub open spec fn action_index_of(x: Action) -> usize {
    match x {
        Action::BeginAr => 0,
        Action::EndAr => 1,
        Action::ClearEvent => 2,
        Action::ConductOps => 3,
        Action::Influence => 4,
        Action::Coup => 5,
        Action::Space => 6,
        Action::Realignment => 7,
        Action::Place => 8,
        Action::Remove => 9,
        Action::Discard => 10,
        Action::Ops => 11,
        Action::OpsEvent => 12,
        Action::EventOps => 13,
        Action::Event => 14,
        Action::SpecialEvent => 15,
        Action::War => 16,
        Action::CubanMissile => 17,
        Action::RecoverCard => 18,
        Action::ChangeDefcon => 19,
        Action::ChooseCard => 20,
        Action::BlockRegion => 21,
        Action::DoubleInf => 22,
        Action::Pass => 23,
    }
}

/// The Action at a position of the enumeration order.
pub open spec fn action_of(i: usize) -> Action {
    match i {
        0 => Action::BeginAr,
        1 => Action::EndAr,
        2 => Action::ClearEvent,
        3 => Action::ConductOps,
        4 => Action::Influence,
        5 => Action::Coup,
        6 => Action::Space,
        7 => Action::Realignment,
        8 => Action::Place,
        9 => Action::Remove,
        10 => Action::Discard,
        11 => Action::Ops,
        12 => Action::OpsEvent,
        13 => Action::EventOps,
        14 => Action::Event,
        15 => Action::SpecialEvent,
        16 => Action::War,
        17 => Action::CubanMissile,
        18 => Action::RecoverCard,
        19 => Action::ChangeDefcon,
        20 => Action::ChooseCard,
        21 => Action::BlockRegion,
        22 => Action::DoubleInf,
        _ => Action::Pass,
    }
}

pub proof fn lemma_action_index_of_inverse(x: Action)
    ensures
        action_of(action_index_of(x)) == x,
        action_index_of(x) < NUM_ACTIONS,
{
}

pub proof fn lemma_action_of_inverse(i: usize)
    requires
        i < NUM_ACTIONS,
    ensures
        action_index_of(action_of(i)) == i,
{
}

impl Action {
    /// The position of this value in the enumeration order.
    pub fn index(&self) -> (r: usize)
        ensures
            r == action_index_of(*self),
    {
        match self {
            Action::BeginAr => 0,
            Action::EndAr => 1,
            Action::ClearEvent => 2,
            Action::ConductOps => 3,
            Action::Influence => 4,
            Action::Coup => 5,
            Action::Space => 6,
            Action::Realignment => 7,
            Action::Place => 8,
            Action::Remove => 9,
            Action::Discard => 10,
            Action::Ops => 11,
            Action::OpsEvent => 12,
            Action::EventOps => 13,
            Action::Event => 14,
            Action::SpecialEvent => 15,
            Action::War => 16,
            Action::CubanMissile => 17,
            Action::RecoverCard => 18,
            Action::ChangeDefcon => 19,
            Action::ChooseCard => 20,
            Action::BlockRegion => 21,
            Action::DoubleInf => 22,
            Action::Pass => 23,
        }
    }

    /// The value at a position of the enumeration order.
    pub fn from_index(index: usize) -> (r: Action)
        requires
            index < NUM_ACTIONS,
        ensures
            r == action_of(index),
            action_index_of(r) == index,
    {
        proof { lemma_action_of_inverse(index); }
        match index {
            0 => Action::BeginAr,
            1 => Action::EndAr,
            2 => Action::ClearEvent,
            3 => Action::ConductOps,
            4 => Action::Influence,
            5 => Action::Coup,
            6 => Action::Space,
            7 => Action::Realignment,
            8 => Action::Place,
            9 => Action::Remove,
            10 => Action::Discard,
            11 => Action::Ops,
            12 => Action::OpsEvent,
            13 => Action::EventOps,
            14 => Action::Event,
            15 => Action::SpecialEvent,
            16 => Action::War,
            17 => Action::CubanMissile,
            18 => Action::RecoverCard,
            19 => Action::ChangeDefcon,
            20 => Action::ChooseCard,
            21 => Action::BlockRegion,
            22 => Action::DoubleInf,
            _ => Action::Pass,
        }
    }
}
/// A list of allowed choices that is computed from the position when it is needed.
#[derive(Clone, Copy, Debug, PartialEq, Eq, Structural)]
pub enum LazyRule {
    /// The bonus influence of the opening placement.
    BonusInfluence,
    /// The countries Muslim Revolution may clear.
    MuslimRevolution,
    /// The countries NORAD may place in.
    Norad,
}

#[derive(Debug)]
enum AllowedType {
    Slice(Vec<usize>),
    Lazy(LazyRule),
    Owned(Vec<usize>),
    Empty,
    Unknown,
}

/// What is known of a list of allowed choices.
pub enum AllowedView {
    /// The choices are known.
    Known(Seq<usize>),
    /// The choices follow from the position by a rule.
    Lazy(LazyRule),
    /// The choices cannot be read; used for meta actions.
    Unknown,
}

/// Abstraction across data which is known when the decision is made and data that must be
/// computed on the fly.
#[derive(Debug)]
pub struct Allowed {
    allowed: AllowedType,
}

impl View for Allowed {
    type V = AllowedView;

    closed spec fn view(&self) -> AllowedView {
        match self.allowed {
            AllowedType::Slice(v) => AllowedView::Known(v@),
            AllowedType::Owned(v) => AllowedView::Known(v@),
            AllowedType::Empty => AllowedView::Known(Seq::empty()),
            AllowedType::Lazy(f) => AllowedView::Lazy(f),
            AllowedType::Unknown => AllowedView::Unknown,
        }
    }
}

impl Clone for Allowed {
    /// A copy of the same choices.
    fn clone(&self) -> (r: Self)
        ensures
            r@ == self@,
    {
        let allowed = match &self.allowed {
            AllowedType::Slice(v) => AllowedType::Slice(copy_list(v)),
            AllowedType::Owned(v) => AllowedType::Owned(copy_list(v)),
            AllowedType::Lazy(f) => AllowedType::Lazy(*f),
            AllowedType::Empty => AllowedType::Empty,
            AllowedType::Unknown => AllowedType::Unknown,
        };
        Allowed { allowed }
    }
}

/// A copy of a list of choices.
fn copy_list(v: &Vec<usize>) -> (r: Vec<usize>)
    ensures
        r@ == v@,
{
    let mut out: Vec<usize> = Vec::new();
    let mut i: usize = 0;
    while i < v.len()
        invariant
            i <= v.len(),
            out@ == v@.take(i as int),
        decreases v.len() - i,
    {
        proof {
            assert(v@.take(i + 1) =~= v@.take(i as int).push(v@[i as int]));
        }
        out.push(v[i]);
        i = i + 1;
    }
    proof {
        assert(v@.take(v.len() as int) =~= v@);
    }
    out
}

impl Allowed {
    /// Allowed choices given by a list known in advance.
    pub fn new_slice(allowed: &[usize]) -> (r: Allowed)
        ensures
            r@ == AllowedView::Known(allowed@),
    {
        let mut out: Vec<usize> = Vec::new();
        let mut i: usize = 0;
        while i < allowed.len()
            invariant
                i <= allowed.len(),
                out@ == allowed@.take(i as int),
            decreases allowed.len() - i,
        {
            proof {
                assert(allowed@.take(i + 1) =~= allowed@.take(i as int).push(allowed@[i as int]));
            }
            out.push(allowed[i]);
            i = i + 1;
        }
        proof {
            assert(allowed@.take(allowed.len() as int) =~= allowed@);
        }
        Allowed { allowed: AllowedType::Slice(out) }
    }

    /// Allowed choices given by a list computed for this decision.
    pub fn new_owned(allowed: Vec<usize>) -> (r: Allowed)
        ensures
            r@ == AllowedView::Known(allowed@),
            r.is_owned_single() == (allowed@.len() == 1),
    {
        Allowed { allowed: AllowedType::Owned(allowed) }
    }

    /// No choice allowed.
    pub fn new_empty() -> (r: Allowed)
        ensures
            r@ == AllowedView::Known(Seq::<usize>::empty()),
    {
        Allowed { allowed: AllowedType::Empty }
    }

    /// Allowed choices that follow from the position by a rule, when they are needed.
    pub fn new_lazy(f: LazyRule) -> (r: Allowed)
        ensures
            r@ == AllowedView::Lazy(f),
    {
        Allowed { allowed: AllowedType::Lazy(f) }
    }

    /// Allowed choices that cannot be read, for meta actions.
    pub fn new_unknown() -> (r: Allowed)
        ensures
            r@ == AllowedView::Unknown,
    {
        Allowed { allowed: AllowedType::Unknown }
    }

    /// Whether the choices cannot be read.
    pub open spec fn is_unknown(&self) -> bool {
        self@ is Unknown
    }

    /// Attempts to slice allowed data that is currently readable.
    pub fn try_slice(&self) -> (r: Option<&[usize]>)
        ensures
            self@ matches AllowedView::Known(s) ==> r matches Some(x) && x@ == s,
            !(self@ is Known) ==> r is None,
    {
        match &self.allowed {
            AllowedType::Slice(s) => Some(s.as_slice()),
            AllowedType::Owned(s) => Some(s.as_slice()),
            AllowedType::Empty => Some(empty_slice()),
            _ => None,
        }
    }

    /// Forces a resolution of problem cases: a lazy list is computed from the position and
    /// stored. Unreadable choices cannot be forced.
    pub fn force_slice(&mut self, state: &GameState) -> (r: &[usize])
        requires
            !old(self).is_unknown(),
            state.wf(),
        ensures
            old(self)@ matches AllowedView::Known(s) ==> r@ == s && final(self)@ == old(self)@,
            old(self)@ matches AllowedView::Lazy(f) ==> r@ == lazy_spec(f, *state) && final(self)@ == AllowedView::Known(r@),
    {
        if let AllowedType::Lazy(f) = self.allowed {
            let v = resolve_lazy(f, state);
            self.allowed = AllowedType::Owned(v);
        }
        match &self.allowed {
            AllowedType::Slice(s) => s.as_slice(),
            AllowedType::Owned(s) => s.as_slice(),
            _ => empty_slice(),
        }
    }
}

/// An empty list of choices.
fn empty_slice<'a>() -> (r: &'a [usize])
    ensures
        r@ == Seq::<usize>::empty(),
{
    &[]
}

/// A choice an agent has to make.
pub struct Decision {
    pub agent: Side,
    pub action: Action,
    pub allowed: Allowed,
    pub quantity: i8,
}

impl Clone for Decision {
    /// A copy of the same decision.
    fn clone(&self) -> (r: Self)
        ensures
            r.agent == self.agent,
            r.action == self.action,
            r.allowed@ == self.allowed@,
            r.quantity == self.quantity,
    {
        Decision { agent: self.agent, action: self.action, allowed: self.allowed.clone(), quantity: self.quantity }
    }
}

/// Whether a decision of a kind of action may be made by a side with such choices: end of
/// round and clearing an event belong to neither side, meta actions have unreadable choices,
/// and every other action belongs to a superpower.
pub open spec fn decision_ok(agent: Side, action: Action, allowed: AllowedView) -> bool {
    match action {
        Action::EndAr | Action::ClearEvent => agent == Side::Neutral,
        Action::ConductOps | Action::BeginAr => allowed is Unknown,
        _ => agent != Side::Neutral,
    }
}

impl Decision {
    /// A decision with a quantity of one.
    pub fn new(agent: Side, action: Action, allowed: Allowed) -> (r: Decision)
        requires
            decision_ok(agent, action, allowed@),
        ensures
            r.agent == agent,
            r.action == action,
            r.allowed@ == allowed@,
            r.allowed == allowed,
            r.quantity == 1,
    {
        Decision::with_quantity(agent, action, allowed, 1)
    }

    /// A decision to be made `q` times.
    pub fn with_quantity(agent: Side, action: Action, allowed: Allowed, q: i8) -> (r: Decision)
        requires
            decision_ok(agent, action, allowed@),
        ensures
            r.agent == agent,
            r.action == action,
            r.allowed@ == allowed@,
            r.allowed == allowed,
            r.quantity == q,
    {
        Decision { agent, action, allowed, quantity: q }
    }

    /// Creates a (trivial) decision for eventing a single given card.
    pub fn new_event(caller: Side, card: Card) -> (r: Self)
        requires
            caller != Side::Neutral,
        ensures
            r.agent == caller,
            r.action == Action::Event,
            r.allowed@ == AllowedView::Known(seq![card_index(card)]),
            r.allowed.is_owned_single(),
            r.quantity == 1,
    {
        let v = vec![card.index()];
        proof {
            assert(v@ =~= seq![card_index(card)]);
        }
        Decision::new(caller, Action::Event, Allowed::new_owned(v))
    }

    /// Whether this is the decision to event one given card.
    pub fn is_single_event(&self) -> (r: bool)
        ensures
            r == (self.action == Action::Event && self.allowed.is_owned_single()),
    {
        if self.action != Action::Event {
            return false;
        }
        match &self.allowed.allowed {
            AllowedType::Owned(vec) => vec.len() == 1,
            _ => false,
        }
    }

    /// Whether this is the decision to event Defectors alone.
    pub fn is_defectors(&self) -> (r: bool)
        ensures
            r == (self.action == Action::Event && self.allowed.is_owned_single()
                && self.allowed@ == AllowedView::Known(seq![card_index(Card::Defectors)])),
    {
        if self.action != Action::Event {
            return false;
        }
        match &self.allowed.allowed {
            AllowedType::Owned(vec) => {
                proof {
                    if vec.len() == 1 {
                        assert(vec@ =~= seq![vec@[0]]);
                    }
                }
                vec.len() == 1 && vec[0] == Card::Defectors.index()
            },
            _ => false,
        }
    }

    /// Whether the decision has fewer than two options, so needs no agent.
    pub fn is_trivial(&self) -> (r: bool)
        requires
            !(self.action == Action::BeginAr || self.action == Action::ConductOps) ==> !self.allowed.is_unknown(),
        ensures
            r == match self.action {
                Action::BeginAr | Action::ConductOps => false,
                _ => match self.allowed@ {
                    AllowedView::Known(s) => s.len() < 2,
                    _ => false,
                },
            },
    {
        match self.action {
            Action::BeginAr | Action::ConductOps => false,
            _ => {
                if let AllowedType::Lazy(_) = self.allowed.allowed {
                    false
                } else {
                    match self.allowed.try_slice() {
                        Some(s) => s.len() < 2,
                        None => false,
                    }
                }
            },
        }
    }

    /// The decision to begin an action round.
    pub fn begin_ar(agent: Side) -> (r: Decision)
        ensures
            r.agent == agent,
            r.action == Action::BeginAr,
            r.allowed@ is Unknown,
            r.quantity == 1,
    {
        Decision::new(agent, Action::BeginAr, Allowed::new_unknown())
    }

    /// A decision with nothing allowed.
    pub fn new_no_allowed(agent: Side, action: Action) -> (r: Decision)
        requires
            decision_ok(agent, action, AllowedView::Known(Seq::<usize>::empty())),
        ensures
            r.agent == agent,
            r.action == action,
            r.allowed@ == AllowedView::Known(Seq::<usize>::empty()),
            r.quantity == 1,
    {
        Decision::new(agent, action, Allowed::new_empty())
    }

    /// The decision to conduct `ops` operations.
    pub fn conduct_ops(agent: Side, ops: i8) -> (r: Decision)
        ensures
            r.agent == agent,
            r.action == Action::ConductOps,
            r.allowed@ is Unknown,
            r.quantity == ops,
    {
        Decision::with_quantity(agent, Action::ConductOps, Allowed::new_unknown(), ops)
    }
}

impl Allowed {
    /// Whether the choices are a list computed for the decision, of one choice.
    pub closed spec fn is_owned_single(&self) -> bool {
        self.allowed matches AllowedType::Owned(v) && v@.len() == 1
    }
}
} // verus!
