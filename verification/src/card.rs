#![allow(non_camel_case_types)]
use vstd::prelude::*;
use crate::country::{influence_spec, opposite_spec, Country, Region, Side};
use crate::state::Period;

pub mod board;
pub mod deck;
pub mod event;
pub mod effect;
pub mod legal;
pub mod rules;
pub mod stack;
pub use deck::{CardSet, Deck, DeckError};
pub use effect::Effect;

verus! {

/// Number of cards, the placeholder card included.
pub const NUM_CARDS: usize = 111;

/// The printed attributes of a card.
#[derive(Debug, Clone, Copy, PartialEq, Eq, Structural)]
pub struct Attributes {
    pub side: Side,
    pub ops: i8,
    pub starred: bool,
    pub scoring: bool,
}

impl Attributes {
    /// Attributes of a plain card of the given side and operations value.
    pub fn new(side: Side, ops: i8) -> (r: Attributes)
        ensures
            r == (Attributes { side, ops, starred: false, scoring: false }),
    {
        Attributes { side, ops, starred: false, scoring: false }
    }

    /// The same attributes, marked as removed after the event.
    pub fn star(self) -> (r: Attributes)
        ensures
            r == (Attributes { starred: true, ..self }),
    {
        let mut s = self;
        s.starred = true;
        s
    }

    /// The same attributes, marked as a scoring card.
    pub fn scoring(self) -> (r: Attributes)
        ensures
            r == (Attributes { scoring: true, ..self }),
    {
        let mut s = self;
        s.scoring = true;
        s
    }
}

/// Returns the attributes of every card, indexed by card number.
pub fn init_cards() -> (r: Vec<Attributes>)
    ensures
        r.len() == NUM_CARDS,
        forall|i: int| 0 <= i < NUM_CARDS ==> #[trigger] r@[i] == card_att(card_of(i as usize)),
{
    let mut v: Vec<Attributes> = Vec::new();
    let mut i: usize = 0;
    while i < NUM_CARDS
        invariant
            i <= NUM_CARDS,
            v.len() == i,
            forall|j: int| 0 <= j < i ==> #[trigger] v@[j] == card_att(card_of(j as usize)),
        decreases NUM_CARDS - i,
    {
        v.push(Card::from_index(i).att());
        i = i + 1;
    }
    v
}

/// The number of event options a card offers.
pub open spec fn max_e_choices_spec(c: Card) -> usize {
    match c {
        Card::Blockade | Card::Olympic_Games | Card::Warsaw_Pact_Formed | Card::Junta
        | Card::South_African_Unrest | Card::Latin_American_Debt_Crisis | Card::Wargames => 2,
        _ => 1,
    }
}

/// The operations value of a card under an offset: a positive offset cannot raise it above
/// four, a negative one cannot lower it below one.
pub open spec fn ops_spec(c: Card, offset: i8) -> int {
    let x = card_att(c).ops + offset;
    if offset > 0 {
        if x < 4 { x } else { 4 }
    } else if offset < 0 {
        if x > 1 { x } else { 1 }
    } else {
        x
    }
}

/// The region a scoring card scores.
pub open spec fn scoring_region_spec(c: Card) -> Option<Region> {
    match c {
        Card::Africa_Scoring => Some(Region::Africa),
        Card::Asia_Scoring => Some(Region::Asia),
        Card::Central_America_Scoring => Some(Region::CentralAmerica),
        Card::Europe_Scoring => Some(Region::Europe),
        Card::Middle_East_Scoring => Some(Region::MiddleEast),
        Card::South_America_Scoring => Some(Region::SouthAmerica),
        Card::Southeast_Asia_Scoring => Some(Region::SoutheastAsia),
        _ => None,
    }
}

/// Whether a card is one of the four war cards.
pub open spec fn is_war_spec(c: Card) -> bool {
    match c {
        Card::Arab_Israeli_War | Card::Korean_War | Card::Indo_Pakistani_War | Card::Brush_War => true,
        _ => false,
    }
}

/// The side whose influence a removal event takes away, and how much of it, for a country.
pub open spec fn remove_quantity_spec(c: Card, agent: Side, target: Country, p: Period) -> (Side, i8) {
    let s = match c {
        Card::De_Stalinization => Side::USSR,
        _ => opposite_spec(agent),
    };
    let q = match c {
        Card::Warsaw_Pact_Formed | Card::Truman_Doctrine => influence_spec(target, s),
        Card::East_European_Unrest => if p == Period::Late { 2i8 } else { 1i8 },
        _ => 1i8,
    };
    let inf = influence_spec(target, s);
    (s, if q < inf { q } else { inf })
}

impl Card {
    /// The number of cards, the placeholder card included.
    pub fn total() -> (r: usize)
        ensures
            r == NUM_CARDS,
    {
        NUM_CARDS
    }

    /// Whether the card's event offers a choice between several options.
    pub fn is_special(&self) -> (r: bool)
        ensures
            r == (max_e_choices_spec(*self) > 1),
    {
        self.max_e_choices() > 1
    }

    /// The side whose influence a removal event takes away from `target`, and how much of it.
    pub fn remove_quantity(&self, agent: Side, target: &Country, p: Period) -> (r: (Side, i8))
        requires
            *self != Card::De_Stalinization ==> agent != Side::Neutral,
        ensures
            r == remove_quantity_spec(*self, agent, *target, p),
    {
        let s = match self {
            Card::De_Stalinization => Side::USSR,
            _ => agent.opposite(),
        };
        let q = match self {
            Card::Warsaw_Pact_Formed | Card::Truman_Doctrine => target.influence(s),
            Card::East_European_Unrest => {
                if let Period::Late = p {
                    2
                } else {
                    1
                }
            },
            _ => 1,
        };
        let inf = target.influence(s);
        let q = if q < inf { q } else { inf };
        (s, q)
    }

    /// The number of event options this card offers.
    pub fn max_e_choices(&self) -> (r: usize)
        ensures
            r == max_e_choices_spec(*self),
    {
        match self {
            Card::Blockade => 2,
            Card::Olympic_Games => 2,
            Card::Warsaw_Pact_Formed => 2,
            Card::Junta => 2,
            Card::South_African_Unrest => 2,
            Card::Latin_American_Debt_Crisis => 2,
            Card::Wargames => 2,
            _ => 1,
        }
    }

    /// Whether the card may be chosen as a headline.
    pub fn can_headline(&self) -> (r: bool)
        ensures
            r == !(*self == Card::The_China_Card || *self == Card::UN_Intervention),
    {
        match self {
            Card::The_China_Card | Card::UN_Intervention => false,
            _ => true,
        }
    }

    /// Whether the card is removed from the game after its event.
    pub fn is_starred(&self) -> (r: bool)
        ensures
            r == card_att(*self).starred,
    {
        self.att().starred
    }

    /// Whether the card is a scoring card.
    pub fn is_scoring(&self) -> (r: bool)
        ensures
            r == card_att(*self).scoring,
    {
        self.att().scoring
    }

    /// The region this card scores, if it is a scoring card.
    pub fn scoring_region(&self) -> (r: Option<Region>)
        ensures
            r == scoring_region_spec(*self),
    {
        match self {
            Card::Africa_Scoring => Some(Region::Africa),
            Card::Asia_Scoring => Some(Region::Asia),
            Card::Central_America_Scoring => Some(Region::CentralAmerica),
            Card::Europe_Scoring => Some(Region::Europe),
            Card::Middle_East_Scoring => Some(Region::MiddleEast),
            Card::South_America_Scoring => Some(Region::SouthAmerica),
            Card::Southeast_Asia_Scoring => Some(Region::SoutheastAsia),
            _ => None,
        }
    }

    /// Whether the card is one of the four war cards.
    pub fn is_war(&self) -> (r: bool)
        ensures
            r == is_war_spec(*self),
    {
        match self {
            Card::Arab_Israeli_War | Card::Korean_War | Card::Indo_Pakistani_War | Card::Brush_War => true,
            _ => false,
        }
    }

    /// The operations value of this card under an offset to card values.
    pub fn ops(&self, offset: i8) -> (r: i8)
        requires
            i8::MIN <= card_att(*self).ops + offset <= i8::MAX,
        ensures
            r == ops_spec(*self, offset),
    {
        let x = self.base_ops() + offset;
        if offset > 0 {
            if x < 4 { x } else { 4 }
        } else if offset < 0 {
            if x > 1 { x } else { 1 }
        } else {
            x
        }
    }

    /// The printed operations value of this card.
    pub fn base_ops(&self) -> (r: i8)
        ensures
            r == card_att(*self).ops,
    {
        self.att().ops
    }

    /// The side whose event this card carries.
    pub fn side(&self) -> (r: Side)
        ensures
            r == card_att(*self).side,
    {
        self.att().side
    }
}

/// No printed operations value exceeds four, nor is any negative.
pub proof fn lemma_card_ops_range(c: Card)
    ensures
        0 <= card_att(c).ops <= 4,
{
}

/// A card's operations value under a positive offset is at most four, and under a
/// negative offset at least one.
pub proof fn lemma_ops_bounds(c: Card, offset: i8)
    ensures
        offset > 0 ==> ops_spec(c, offset) <= 4,
        offset < 0 ==> ops_spec(c, offset) >= 1,
        offset == 0 ==> ops_spec(c, offset) == card_att(c).ops,
{
}

#[derive(Clone, Copy, PartialEq, Eq, Structural, Debug)]
pub enum Card {
    Dummy,
    Asia_Scoring,
    Europe_Scoring,
    Middle_East_Scoring,
    Duck_and_Cover,
    Five_Year_Plan,
    The_China_Card,
    Socialist_Governments,
    Fidel,
    Vietnam_Revolts,
    Blockade,
    Korean_War,
    Romanian_Abdication,
    Arab_Israeli_War,
    Comecon,
    Nasser,
    Warsaw_Pact_Formed,
    De_Gaulle_Leads_France,
    Captured_Nazi_Scientist,
    Truman_Doctrine,
    Olympic_Games,
    NATO,
    Independent_Reds,
    Marshall_Plan,
    Indo_Pakistani_War,
    Containment,
    CIA_Created,
    US_Japan_Mutual_Defense_Pact,
    Suez_Crisis,
    East_European_Unrest,
    Decolonization,
    Red_Scare_Purge,
    UN_Intervention,
    De_Stalinization,
    Nuclear_Test_Ban,
    Formosan_Resolution,
    Brush_War,
    Central_America_Scoring,
    Southeast_Asia_Scoring,
    Arms_Race,
    Cuban_Missile_Crisis,
    Nuclear_Subs,
    Quagmire,
    SALT_Negotiations,
    Bear_Trap,
    Summit,
    How_I_Learned_To_Stop_Worrying,
    Junta,
    Kitchen_Debates,
    Missile_Envy,
    We_Will_Bury_You,
    Brezhnev_Doctrine,
    Portuguese_Empire_Crumbles,
    South_African_Unrest,
    Allende,
    Willy_Brandt,
    Muslim_Revolution,
    ABM_Treaty,
    Cultural_Revolution,
    Flower_Power,
    U2_Incident,
    OPEC,
    Lone_Gunman,
    Colonial_Rear_Guards,
    Panama_Canal_Returned,
    Camp_David_Accords,
    Puppet_Governments,
    Grain_Sales,
    John_Paul,
    Latin_American_Death_Squads,
    OAS_Founded,
    Nixon_Plays_China,
    Sadat_Expels_Soviets,
    Shuttle_Diplomacy,
    The_Voice_Of_America,
    Liberation_Theology,
    Ussuri_River_Skirmish,
    Ask_Not,
    Alliance_For_Progress,
    Africa_Scoring,
    One_Small_Step,
    South_America_Scoring,
    Iranian_Hostage_Crisis,
    The_Iron_Lady,
    Reagan_Bombs_Libya,
    Star_Wars,
    North_Sea_Oil,
    The_Reformer,
    Marine_Barracks_Bombing,
    Soviets_Shoot_Down_KAL,
    Glasnost,
    Ortega_Elected,
    Terrorism,
    Iran_Contra_Scandal,
    Chernobyl,
    Latin_American_Debt_Crisis,
    Tear_Down_This_Wall,
    An_Evil_Empire,
    Aldrich_Ames_Remix,
    Pershing_II_Deployed,
    Wargames,
    Solidarity,
    Iran_Iraq_War,
    Defectors,
    The_Cambridge_Five,
    Special_Relationship,
    NORAD,
    Che,
    Our_Man_In_Tehran,
    Yuri_And_Samantha,
    AWACS,
}

/// The position of a Card in the enumeration order.
pub open spec fn card_index(x: Card) -> usize {
    match x {
        Card::Dummy => 0,
        Card::Asia_Scoring => 1,
        Card::Europe_Scoring => 2,
        Card::Middle_East_Scoring => 3,
        Card::Duck_and_Cover => 4,
        Card::Five_Year_Plan => 5,
        Card::The_China_Card => 6,
        Card::Socialist_Governments => 7,
        Card::Fidel => 8,
        Card::Vietnam_Revolts => 9,
        Card::Blockade => 10,
        Card::Korean_War => 11,
        Card::Romanian_Abdication => 12,
        Card::Arab_Israeli_War => 13,
        Card::Comecon => 14,
        Card::Nasser => 15,
        Card::Warsaw_Pact_Formed => 16,
        Card::De_Gaulle_Leads_France => 17,
        Card::Captured_Nazi_Scientist => 18,
        Card::Truman_Doctrine => 19,
        Card::Olympic_Games => 20,
        Card::NATO => 21,
        Card::Independent_Reds => 22,
        Card::Marshall_Plan => 23,
        Card::Indo_Pakistani_War => 24,
        Card::Containment => 25,
        Card::CIA_Created => 26,
        Card::US_Japan_Mutual_Defense_Pact => 27,
        Card::Suez_Crisis => 28,
        Card::East_European_Unrest => 29,
        Card::Decolonization => 30,
        Card::Red_Scare_Purge => 31,
        Card::UN_Intervention => 32,
        Card::De_Stalinization => 33,
        Card::Nuclear_Test_Ban => 34,
        Card::Formosan_Resolution => 35,
        Card::Brush_War => 36,
        Card::Central_America_Scoring => 37,
        Card::Southeast_Asia_Scoring => 38,
        Card::Arms_Race => 39,
        Card::Cuban_Missile_Crisis => 40,
        Card::Nuclear_Subs => 41,
        Card::Quagmire => 42,
        Card::SALT_Negotiations => 43,
        Card::Bear_Trap => 44,
        Card::Summit => 45,
        Card::How_I_Learned_To_Stop_Worrying => 46,
        Card::Junta => 47,
        Card::Kitchen_Debates => 48,
        Card::Missile_Envy => 49,
        Card::We_Will_Bury_You => 50,
        Card::Brezhnev_Doctrine => 51,
        Card::Portuguese_Empire_Crumbles => 52,
        Card::South_African_Unrest => 53,
        Card::Allende => 54,
        Card::Willy_Brandt => 55,
        Card::Muslim_Revolution => 56,
        Card::ABM_Treaty => 57,
        Card::Cultural_Revolution => 58,
        Card::Flower_Power => 59,
        Card::U2_Incident => 60,
        Card::OPEC => 61,
        Card::Lone_Gunman => 62,
        Card::Colonial_Rear_Guards => 63,
        Card::Panama_Canal_Returned => 64,
        Card::Camp_David_Accords => 65,
        Card::Puppet_Governments => 66,
        Card::Grain_Sales => 67,
        Card::John_Paul => 68,
        Card::Latin_American_Death_Squads => 69,
        Card::OAS_Founded => 70,
        Card::Nixon_Plays_China => 71,
        Card::Sadat_Expels_Soviets => 72,
        Card::Shuttle_Diplomacy => 73,
        Card::The_Voice_Of_America => 74,
        Card::Liberation_Theology => 75,
        Card::Ussuri_River_Skirmish => 76,
        Card::Ask_Not => 77,
        Card::Alliance_For_Progress => 78,
        Card::Africa_Scoring => 79,
        Card::One_Small_Step => 80,
        Card::South_America_Scoring => 81,
        Card::Iranian_Hostage_Crisis => 82,
        Card::The_Iron_Lady => 83,
        Card::Reagan_Bombs_Libya => 84,
        Card::Star_Wars => 85,
        Card::North_Sea_Oil => 86,
        Card::The_Reformer => 87,
        Card::Marine_Barracks_Bombing => 88,
        Card::Soviets_Shoot_Down_KAL => 89,
        Card::Glasnost => 90,
        Card::Ortega_Elected => 91,
        Card::Terrorism => 92,
        Card::Iran_Contra_Scandal => 93,
        Card::Chernobyl => 94,
        Card::Latin_American_Debt_Crisis => 95,
        Card::Tear_Down_This_Wall => 96,
        Card::An_Evil_Empire => 97,
        Card::Aldrich_Ames_Remix => 98,
        Card::Pershing_II_Deployed => 99,
        Card::Wargames => 100,
        Card::Solidarity => 101,
        Card::Iran_Iraq_War => 102,
        Card::Defectors => 103,
        Card::The_Cambridge_Five => 104,
        Card::Special_Relationship => 105,
        Card::NORAD => 106,
        Card::Che => 107,
        Card::Our_Man_In_Tehran => 108,
        Card::Yuri_And_Samantha => 109,
        Card::AWACS => 110,
    }
}

/// The Card at a position of the enumeration order.
pub open spec fn card_of(i: usize) -> Card {
    match i {
        0 => Card::Dummy,
        1 => Card::Asia_Scoring,
        2 => Card::Europe_Scoring,
        3 => Card::Middle_East_Scoring,
        4 => Card::Duck_and_Cover,
        5 => Card::Five_Year_Plan,
        6 => Card::The_China_Card,
        7 => Card::Socialist_Governments,
        8 => Card::Fidel,
        9 => Card::Vietnam_Revolts,
        10 => Card::Blockade,
        11 => Card::Korean_War,
        12 => Card::Romanian_Abdication,
        13 => Card::Arab_Israeli_War,
        14 => Card::Comecon,
        15 => Card::Nasser,
        16 => Card::Warsaw_Pact_Formed,
        17 => Card::De_Gaulle_Leads_France,
        18 => Card::Captured_Nazi_Scientist,
        19 => Card::Truman_Doctrine,
        20 => Card::Olympic_Games,
        21 => Card::NATO,
        22 => Card::Independent_Reds,
        23 => Card::Marshall_Plan,
        24 => Card::Indo_Pakistani_War,
        25 => Card::Containment,
        26 => Card::CIA_Created,
        27 => Card::US_Japan_Mutual_Defense_Pact,
        28 => Card::Suez_Crisis,
        29 => Card::East_European_Unrest,
        30 => Card::Decolonization,
        31 => Card::Red_Scare_Purge,
        32 => Card::UN_Intervention,
        33 => Card::De_Stalinization,
        34 => Card::Nuclear_Test_Ban,
        35 => Card::Formosan_Resolution,
        36 => Card::Brush_War,
        37 => Card::Central_America_Scoring,
        38 => Card::Southeast_Asia_Scoring,
        39 => Card::Arms_Race,
        40 => Card::Cuban_Missile_Crisis,
        41 => Card::Nuclear_Subs,
        42 => Card::Quagmire,
        43 => Card::SALT_Negotiations,
        44 => Card::Bear_Trap,
        45 => Card::Summit,
        46 => Card::How_I_Learned_To_Stop_Worrying,
        47 => Card::Junta,
        48 => Card::Kitchen_Debates,
        49 => Card::Missile_Envy,
        50 => Card::We_Will_Bury_You,
        51 => Card::Brezhnev_Doctrine,
        52 => Card::Portuguese_Empire_Crumbles,
        53 => Card::South_African_Unrest,
        54 => Card::Allende,
        55 => Card::Willy_Brandt,
        56 => Card::Muslim_Revolution,
        57 => Card::ABM_Treaty,
        58 => Card::Cultural_Revolution,
        59 => Card::Flower_Power,
        60 => Card::U2_Incident,
        61 => Card::OPEC,
        62 => Card::Lone_Gunman,
        63 => Card::Colonial_Rear_Guards,
        64 => Card::Panama_Canal_Returned,
        65 => Card::Camp_David_Accords,
        66 => Card::Puppet_Governments,
        67 => Card::Grain_Sales,
        68 => Card::John_Paul,
        69 => Card::Latin_American_Death_Squads,
        70 => Card::OAS_Founded,
        71 => Card::Nixon_Plays_China,
        72 => Card::Sadat_Expels_Soviets,
        73 => Card::Shuttle_Diplomacy,
        74 => Card::The_Voice_Of_America,
        75 => Card::Liberation_Theology,
        76 => Card::Ussuri_River_Skirmish,
        77 => Card::Ask_Not,
        78 => Card::Alliance_For_Progress,
        79 => Card::Africa_Scoring,
        80 => Card::One_Small_Step,
        81 => Card::South_America_Scoring,
        82 => Card::Iranian_Hostage_Crisis,
        83 => Card::The_Iron_Lady,
        84 => Card::Reagan_Bombs_Libya,
        85 => Card::Star_Wars,
        86 => Card::North_Sea_Oil,
        87 => Card::The_Reformer,
        88 => Card::Marine_Barracks_Bombing,
        89 => Card::Soviets_Shoot_Down_KAL,
        90 => Card::Glasnost,
        91 => Card::Ortega_Elected,
        92 => Card::Terrorism,
        93 => Card::Iran_Contra_Scandal,
        94 => Card::Chernobyl,
        95 => Card::Latin_American_Debt_Crisis,
        96 => Card::Tear_Down_This_Wall,
        97 => Card::An_Evil_Empire,
        98 => Card::Aldrich_Ames_Remix,
        99 => Card::Pershing_II_Deployed,
        100 => Card::Wargames,
        101 => Card::Solidarity,
        102 => Card::Iran_Iraq_War,
        103 => Card::Defectors,
        104 => Card::The_Cambridge_Five,
        105 => Card::Special_Relationship,
        106 => Card::NORAD,
        107 => Card::Che,
        108 => Card::Our_Man_In_Tehran,
        109 => Card::Yuri_And_Samantha,
        _ => Card::AWACS,
    }
}

pub proof fn lemma_card_index_inverse(x: Card)
    ensures
        card_of(card_index(x)) == x,
        card_index(x) < NUM_CARDS,
{
}

pub proof fn lemma_card_of_inverse(i: usize)
    requires
        i < NUM_CARDS,
    ensures
        card_index(card_of(i)) == i,
{
}

impl Card {
    /// The position of this value in the enumeration order.
    pub fn index(&self) -> (r: usize)
        ensures
            r == card_index(*self),
    {
        match self {
            Card::Dummy => 0,
            Card::Asia_Scoring => 1,
            Card::Europe_Scoring => 2,
            Card::Middle_East_Scoring => 3,
            Card::Duck_and_Cover => 4,
            Card::Five_Year_Plan => 5,
            Card::The_China_Card => 6,
            Card::Socialist_Governments => 7,
            Card::Fidel => 8,
            Card::Vietnam_Revolts => 9,
            Card::Blockade => 10,
            Card::Korean_War => 11,
            Card::Romanian_Abdication => 12,
            Card::Arab_Israeli_War => 13,
            Card::Comecon => 14,
            Card::Nasser => 15,
            Card::Warsaw_Pact_Formed => 16,
            Card::De_Gaulle_Leads_France => 17,
            Card::Captured_Nazi_Scientist => 18,
            Card::Truman_Doctrine => 19,
            Card::Olympic_Games => 20,
            Card::NATO => 21,
            Card::Independent_Reds => 22,
            Card::Marshall_Plan => 23,
            Card::Indo_Pakistani_War => 24,
            Card::Containment => 25,
            Card::CIA_Created => 26,
            Card::US_Japan_Mutual_Defense_Pact => 27,
            Card::Suez_Crisis => 28,
            Card::East_European_Unrest => 29,
            Card::Decolonization => 30,
            Card::Red_Scare_Purge => 31,
            Card::UN_Intervention => 32,
            Card::De_Stalinization => 33,
            Card::Nuclear_Test_Ban => 34,
            Card::Formosan_Resolution => 35,
            Card::Brush_War => 36,
            Card::Central_America_Scoring => 37,
            Card::Southeast_Asia_Scoring => 38,
            Card::Arms_Race => 39,
            Card::Cuban_Missile_Crisis => 40,
            Card::Nuclear_Subs => 41,
            Card::Quagmire => 42,
            Card::SALT_Negotiations => 43,
            Card::Bear_Trap => 44,
            Card::Summit => 45,
            Card::How_I_Learned_To_Stop_Worrying => 46,
            Card::Junta => 47,
            Card::Kitchen_Debates => 48,
            Card::Missile_Envy => 49,
            Card::We_Will_Bury_You => 50,
            Card::Brezhnev_Doctrine => 51,
            Card::Portuguese_Empire_Crumbles => 52,
            Card::South_African_Unrest => 53,
            Card::Allende => 54,
            Card::Willy_Brandt => 55,
            Card::Muslim_Revolution => 56,
            Card::ABM_Treaty => 57,
            Card::Cultural_Revolution => 58,
            Card::Flower_Power => 59,
            Card::U2_Incident => 60,
            Card::OPEC => 61,
            Card::Lone_Gunman => 62,
            Card::Colonial_Rear_Guards => 63,
            Card::Panama_Canal_Returned => 64,
            Card::Camp_David_Accords => 65,
            Card::Puppet_Governments => 66,
            Card::Grain_Sales => 67,
            Card::John_Paul => 68,
            Card::Latin_American_Death_Squads => 69,
            Card::OAS_Founded => 70,
            Card::Nixon_Plays_China => 71,
            Card::Sadat_Expels_Soviets => 72,
            Card::Shuttle_Diplomacy => 73,
            Card::The_Voice_Of_America => 74,
            Card::Liberation_Theology => 75,
            Card::Ussuri_River_Skirmish => 76,
            Card::Ask_Not => 77,
            Card::Alliance_For_Progress => 78,
            Card::Africa_Scoring => 79,
            Card::One_Small_Step => 80,
            Card::South_America_Scoring => 81,
            Card::Iranian_Hostage_Crisis => 82,
            Card::The_Iron_Lady => 83,
            Card::Reagan_Bombs_Libya => 84,
            Card::Star_Wars => 85,
            Card::North_Sea_Oil => 86,
            Card::The_Reformer => 87,
            Card::Marine_Barracks_Bombing => 88,
            Card::Soviets_Shoot_Down_KAL => 89,
            Card::Glasnost => 90,
            Card::Ortega_Elected => 91,
            Card::Terrorism => 92,
            Card::Iran_Contra_Scandal => 93,
            Card::Chernobyl => 94,
            Card::Latin_American_Debt_Crisis => 95,
            Card::Tear_Down_This_Wall => 96,
            Card::An_Evil_Empire => 97,
            Card::Aldrich_Ames_Remix => 98,
            Card::Pershing_II_Deployed => 99,
            Card::Wargames => 100,
            Card::Solidarity => 101,
            Card::Iran_Iraq_War => 102,
            Card::Defectors => 103,
            Card::The_Cambridge_Five => 104,
            Card::Special_Relationship => 105,
            Card::NORAD => 106,
            Card::Che => 107,
            Card::Our_Man_In_Tehran => 108,
            Card::Yuri_And_Samantha => 109,
            Card::AWACS => 110,
        }
    }

    /// The value at a position of the enumeration order.
    pub fn from_index(index: usize) -> (r: Card)
        requires
            index < NUM_CARDS,
        ensures
            r == card_of(index),
            card_index(r) == index,
    {
        proof { lemma_card_of_inverse(index); }
        match index {
            0 => Card::Dummy,
            1 => Card::Asia_Scoring,
            2 => Card::Europe_Scoring,
            3 => Card::Middle_East_Scoring,
            4 => Card::Duck_and_Cover,
            5 => Card::Five_Year_Plan,
            6 => Card::The_China_Card,
            7 => Card::Socialist_Governments,
            8 => Card::Fidel,
            9 => Card::Vietnam_Revolts,
            10 => Card::Blockade,
            11 => Card::Korean_War,
            12 => Card::Romanian_Abdication,
            13 => Card::Arab_Israeli_War,
            14 => Card::Comecon,
            15 => Card::Nasser,
            16 => Card::Warsaw_Pact_Formed,
            17 => Card::De_Gaulle_Leads_France,
            18 => Card::Captured_Nazi_Scientist,
            19 => Card::Truman_Doctrine,
            20 => Card::Olympic_Games,
            21 => Card::NATO,
            22 => Card::Independent_Reds,
            23 => Card::Marshall_Plan,
            24 => Card::Indo_Pakistani_War,
            25 => Card::Containment,
            26 => Card::CIA_Created,
            27 => Card::US_Japan_Mutual_Defense_Pact,
            28 => Card::Suez_Crisis,
            29 => Card::East_European_Unrest,
            30 => Card::Decolonization,
            31 => Card::Red_Scare_Purge,
            32 => Card::UN_Intervention,
            33 => Card::De_Stalinization,
            34 => Card::Nuclear_Test_Ban,
            35 => Card::Formosan_Resolution,
            36 => Card::Brush_War,
            37 => Card::Central_America_Scoring,
            38 => Card::Southeast_Asia_Scoring,
            39 => Card::Arms_Race,
            40 => Card::Cuban_Missile_Crisis,
            41 => Card::Nuclear_Subs,
            42 => Card::Quagmire,
            43 => Card::SALT_Negotiations,
            44 => Card::Bear_Trap,
            45 => Card::Summit,
            46 => Card::How_I_Learned_To_Stop_Worrying,
            47 => Card::Junta,
            48 => Card::Kitchen_Debates,
            49 => Card::Missile_Envy,
            50 => Card::We_Will_Bury_You,
            51 => Card::Brezhnev_Doctrine,
            52 => Card::Portuguese_Empire_Crumbles,
            53 => Card::South_African_Unrest,
            54 => Card::Allende,
            55 => Card::Willy_Brandt,
            56 => Card::Muslim_Revolution,
            57 => Card::ABM_Treaty,
            58 => Card::Cultural_Revolution,
            59 => Card::Flower_Power,
            60 => Card::U2_Incident,
            61 => Card::OPEC,
            62 => Card::Lone_Gunman,
            63 => Card::Colonial_Rear_Guards,
            64 => Card::Panama_Canal_Returned,
            65 => Card::Camp_David_Accords,
            66 => Card::Puppet_Governments,
            67 => Card::Grain_Sales,
            68 => Card::John_Paul,
            69 => Card::Latin_American_Death_Squads,
            70 => Card::OAS_Founded,
            71 => Card::Nixon_Plays_China,
            72 => Card::Sadat_Expels_Soviets,
            73 => Card::Shuttle_Diplomacy,
            74 => Card::The_Voice_Of_America,
            75 => Card::Liberation_Theology,
            76 => Card::Ussuri_River_Skirmish,
            77 => Card::Ask_Not,
            78 => Card::Alliance_For_Progress,
            79 => Card::Africa_Scoring,
            80 => Card::One_Small_Step,
            81 => Card::South_America_Scoring,
            82 => Card::Iranian_Hostage_Crisis,
            83 => Card::The_Iron_Lady,
            84 => Card::Reagan_Bombs_Libya,
            85 => Card::Star_Wars,
            86 => Card::North_Sea_Oil,
            87 => Card::The_Reformer,
            88 => Card::Marine_Barracks_Bombing,
            89 => Card::Soviets_Shoot_Down_KAL,
            90 => Card::Glasnost,
            91 => Card::Ortega_Elected,
            92 => Card::Terrorism,
            93 => Card::Iran_Contra_Scandal,
            94 => Card::Chernobyl,
            95 => Card::Latin_American_Debt_Crisis,
            96 => Card::Tear_Down_This_Wall,
            97 => Card::An_Evil_Empire,
            98 => Card::Aldrich_Ames_Remix,
            99 => Card::Pershing_II_Deployed,
            100 => Card::Wargames,
            101 => Card::Solidarity,
            102 => Card::Iran_Iraq_War,
            103 => Card::Defectors,
            104 => Card::The_Cambridge_Five,
            105 => Card::Special_Relationship,
            106 => Card::NORAD,
            107 => Card::Che,
            108 => Card::Our_Man_In_Tehran,
            109 => Card::Yuri_And_Samantha,
            _ => Card::AWACS,
        }
    }
}

/// The printed attributes of each card: its side, its operations value, whether it is
/// removed after its event (starred) and whether it is a scoring card.
pub open spec fn card_att(c: Card) -> Attributes {
    match c {
        Card::Dummy => Attributes { side: Side::Neutral, ops: 0, starred: false, scoring: false },
        Card::Asia_Scoring => Attributes { side: Side::Neutral, ops: 0, starred: false, scoring: true },
        Card::Europe_Scoring => Attributes { side: Side::Neutral, ops: 0, starred: false, scoring: true },
        Card::Middle_East_Scoring => Attributes { side: Side::Neutral, ops: 0, starred: false, scoring: true },
        Card::Duck_and_Cover => Attributes { side: Side::US, ops: 3, starred: false, scoring: false },
        Card::Five_Year_Plan => Attributes { side: Side::US, ops: 3, starred: false, scoring: false },
        Card::The_China_Card => Attributes { side: Side::Neutral, ops: 4, starred: false, scoring: false },
        Card::Socialist_Governments => Attributes { side: Side::USSR, ops: 3, starred: false, scoring: false },
        Card::Fidel => Attributes { side: Side::USSR, ops: 2, starred: true, scoring: false },
        Card::Vietnam_Revolts => Attributes { side: Side::USSR, ops: 2, starred: true, scoring: false },
        Card::Blockade => Attributes { side: Side::USSR, ops: 1, starred: true, scoring: false },
        Card::Korean_War => Attributes { side: Side::USSR, ops: 2, starred: true, scoring: false },
        Card::Romanian_Abdication => Attributes { side: Side::USSR, ops: 1, starred: true, scoring: false },
        Card::Arab_Israeli_War => Attributes { side: Side::USSR, ops: 2, starred: false, scoring: false },
        Card::Comecon => Attributes { side: Side::USSR, ops: 3, starred: true, scoring: false },
        Card::Nasser => Attributes { side: Side::USSR, ops: 1, starred: true, scoring: false },
        Card::Warsaw_Pact_Formed => Attributes { side: Side::USSR, ops: 3, starred: true, scoring: false },
        Card::De_Gaulle_Leads_France => Attributes { side: Side::USSR, ops: 3, starred: true, scoring: false },
        Card::Captured_Nazi_Scientist => Attributes { side: Side::Neutral, ops: 1, starred: true, scoring: false },
        Card::Truman_Doctrine => Attributes { side: Side::US, ops: 1, starred: true, scoring: false },
        Card::Olympic_Games => Attributes { side: Side::Neutral, ops: 2, starred: false, scoring: false },
        Card::NATO => Attributes { side: Side::US, ops: 4, starred: true, scoring: false },
        Card::Independent_Reds => Attributes { side: Side::US, ops: 2, starred: true, scoring: false },
        Card::Marshall_Plan => Attributes { side: Side::US, ops: 4, starred: true, scoring: false },
        Card::Indo_Pakistani_War => Attributes { side: Side::Neutral, ops: 2, starred: false, scoring: false },
        Card::Containment => Attributes { side: Side::US, ops: 3, starred: true, scoring: false },
        Card::CIA_Created => Attributes { side: Side::US, ops: 1, starred: true, scoring: false },
        Card::US_Japan_Mutual_Defense_Pact => Attributes { side: Side::US, ops: 4, starred: true, scoring: false },
        Card::Suez_Crisis => Attributes { side: Side::USSR, ops: 3, starred: true, scoring: false },
        Card::East_European_Unrest => Attributes { side: Side::US, ops: 3, starred: false, scoring: false },
        Card::Decolonization => Attributes { side: Side::USSR, ops: 2, starred: false, scoring: false },
        Card::Red_Scare_Purge => Attributes { side: Side::Neutral, ops: 4, starred: false, scoring: false },
        Card::UN_Intervention => Attributes { side: Side::Neutral, ops: 1, starred: false, scoring: false },
        Card::De_Stalinization => Attributes { side: Side::USSR, ops: 3, starred: true, scoring: false },
        Card::Nuclear_Test_Ban => Attributes { side: Side::Neutral, ops: 4, starred: false, scoring: false },
        Card::Formosan_Resolution => Attributes { side: Side::US, ops: 2, starred: true, scoring: false },
        Card::Brush_War => Attributes { side: Side::Neutral, ops: 3, starred: false, scoring: false },
        Card::Central_America_Scoring => Attributes { side: Side::Neutral, ops: 0, starred: false, scoring: true },
        Card::Southeast_Asia_Scoring => Attributes { side: Side::Neutral, ops: 0, starred: true, scoring: true },
        Card::Arms_Race => Attributes { side: Side::Neutral, ops: 3, starred: false, scoring: false },
        Card::Cuban_Missile_Crisis => Attributes { side: Side::Neutral, ops: 3, starred: true, scoring: false },
        Card::Nuclear_Subs => Attributes { side: Side::US, ops: 2, starred: true, scoring: false },
        Card::Quagmire => Attributes { side: Side::USSR, ops: 3, starred: true, scoring: false },
        Card::SALT_Negotiations => Attributes { side: Side::Neutral, ops: 3, starred: true, scoring: false },
        Card::Bear_Trap => Attributes { side: Side::US, ops: 3, starred: true, scoring: false },
        Card::Summit => Attributes { side: Side::Neutral, ops: 1, starred: false, scoring: false },
        Card::How_I_Learned_To_Stop_Worrying => Attributes { side: Side::Neutral, ops: 2, starred: true, scoring: false },
        Card::Junta => Attributes { side: Side::Neutral, ops: 2, starred: false, scoring: false },
        Card::Kitchen_Debates => Attributes { side: Side::US, ops: 1, starred: true, scoring: false },
        Card::Missile_Envy => Attributes { side: Side::Neutral, ops: 2, starred: false, scoring: false },
        Card::We_Will_Bury_You => Attributes { side: Side::USSR, ops: 4, starred: true, scoring: false },
        Card::Brezhnev_Doctrine => Attributes { side: Side::USSR, ops: 3, starred: true, scoring: false },
        Card::Portuguese_Empire_Crumbles => Attributes { side: Side::USSR, ops: 2, starred: true, scoring: false },
        Card::South_African_Unrest => Attributes { side: Side::USSR, ops: 2, starred: false, scoring: false },
        Card::Allende => Attributes { side: Side::USSR, ops: 1, starred: true, scoring: false },
        Card::Willy_Brandt => Attributes { side: Side::USSR, ops: 2, starred: true, scoring: false },
        Card::Muslim_Revolution => Attributes { side: Side::USSR, ops: 4, starred: false, scoring: false },
        Card::ABM_Treaty => Attributes { side: Side::Neutral, ops: 4, starred: false, scoring: false },
        Card::Cultural_Revolution => Attributes { side: Side::USSR, ops: 3, starred: true, scoring: false },
        Card::Flower_Power => Attributes { side: Side::USSR, ops: 4, starred: true, scoring: false },
        Card::U2_Incident => Attributes { side: Side::USSR, ops: 3, starred: true, scoring: false },
        Card::OPEC => Attributes { side: Side::USSR, ops: 3, starred: false, scoring: false },
        Card::Lone_Gunman => Attributes { side: Side::USSR, ops: 1, starred: true, scoring: false },
        Card::Colonial_Rear_Guards => Attributes { side: Side::US, ops: 2, starred: false, scoring: false },
        Card::Panama_Canal_Returned => Attributes { side: Side::US, ops: 1, starred: true, scoring: false },
        Card::Camp_David_Accords => Attributes { side: Side::US, ops: 2, starred: true, scoring: false },
        Card::Puppet_Governments => Attributes { side: Side::US, ops: 2, starred: true, scoring: false },
        Card::Grain_Sales => Attributes { side: Side::US, ops: 2, starred: false, scoring: false },
        Card::John_Paul => Attributes { side: Side::US, ops: 2, starred: true, scoring: false },
        Card::Latin_American_Death_Squads => Attributes { side: Side::Neutral, ops: 2, starred: false, scoring: false },
        Card::OAS_Founded => Attributes { side: Side::US, ops: 1, starred: true, scoring: false },
        Card::Nixon_Plays_China => Attributes { side: Side::US, ops: 2, starred: true, scoring: false },
        Card::Sadat_Expels_Soviets => Attributes { side: Side::US, ops: 1, starred: true, scoring: false },
        Card::Shuttle_Diplomacy => Attributes { side: Side::US, ops: 3, starred: false, scoring: false },
        Card::The_Voice_Of_America => Attributes { side: Side::US, ops: 2, starred: false, scoring: false },
        Card::Liberation_Theology => Attributes { side: Side::USSR, ops: 2, starred: false, scoring: false },
        Card::Ussuri_River_Skirmish => Attributes { side: Side::US, ops: 3, starred: true, scoring: false },
        Card::Ask_Not => Attributes { side: Side::US, ops: 3, starred: true, scoring: false },
        Card::Alliance_For_Progress => Attributes { side: Side::US, ops: 3, starred: true, scoring: false },
        Card::Africa_Scoring => Attributes { side: Side::Neutral, ops: 0, starred: false, scoring: true },
        Card::One_Small_Step => Attributes { side: Side::Neutral, ops: 2, starred: false, scoring: false },
        Card::South_America_Scoring => Attributes { side: Side::Neutral, ops: 0, starred: false, scoring: true },
        Card::Iranian_Hostage_Crisis => Attributes { side: Side::USSR, ops: 3, starred: true, scoring: false },
        Card::The_Iron_Lady => Attributes { side: Side::US, ops: 3, starred: true, scoring: false },
        Card::Reagan_Bombs_Libya => Attributes { side: Side::US, ops: 2, starred: true, scoring: false },
        Card::Star_Wars => Attributes { side: Side::US, ops: 2, starred: true, scoring: false },
        Card::North_Sea_Oil => Attributes { side: Side::US, ops: 3, starred: true, scoring: false },
        Card::The_Reformer => Attributes { side: Side::USSR, ops: 3, starred: true, scoring: false },
        Card::Marine_Barracks_Bombing => Attributes { side: Side::USSR, ops: 2, starred: true, scoring: false },
        Card::Soviets_Shoot_Down_KAL => Attributes { side: Side::US, ops: 4, starred: true, scoring: false },
        Card::Glasnost => Attributes { side: Side::USSR, ops: 4, starred: true, scoring: false },
        Card::Ortega_Elected => Attributes { side: Side::USSR, ops: 2, starred: true, scoring: false },
        Card::Terrorism => Attributes { side: Side::Neutral, ops: 2, starred: false, scoring: false },
        Card::Iran_Contra_Scandal => Attributes { side: Side::USSR, ops: 2, starred: true, scoring: false },
        Card::Chernobyl => Attributes { side: Side::US, ops: 3, starred: true, scoring: false },
        Card::Latin_American_Debt_Crisis => Attributes { side: Side::USSR, ops: 2, starred: false, scoring: false },
        Card::Tear_Down_This_Wall => Attributes { side: Side::US, ops: 3, starred: true, scoring: false },
        Card::An_Evil_Empire => Attributes { side: Side::US, ops: 3, starred: true, scoring: false },
        Card::Aldrich_Ames_Remix => Attributes { side: Side::USSR, ops: 3, starred: true, scoring: false },
        Card::Pershing_II_Deployed => Attributes { side: Side::USSR, ops: 3, starred: true, scoring: false },
        Card::Wargames => Attributes { side: Side::Neutral, ops: 4, starred: true, scoring: false },
        Card::Solidarity => Attributes { side: Side::US, ops: 2, starred: true, scoring: false },
        Card::Iran_Iraq_War => Attributes { side: Side::Neutral, ops: 2, starred: true, scoring: false },
        Card::Defectors => Attributes { side: Side::US, ops: 2, starred: false, scoring: false },
        Card::The_Cambridge_Five => Attributes { side: Side::USSR, ops: 2, starred: false, scoring: false },
        Card::Special_Relationship => Attributes { side: Side::US, ops: 2, starred: false, scoring: false },
        Card::NORAD => Attributes { side: Side::US, ops: 3, starred: true, scoring: false },
        Card::Che => Attributes { side: Side::USSR, ops: 3, starred: false, scoring: false },
        Card::Our_Man_In_Tehran => Attributes { side: Side::US, ops: 2, starred: true, scoring: false },
        Card::Yuri_And_Samantha => Attributes { side: Side::USSR, ops: 2, starred: true, scoring: false },
        Card::AWACS => Attributes { side: Side::US, ops: 3, starred: true, scoring: false },
    }
}

impl Card {
    /// Returns the attributes relevant to each unique card.
    pub fn att(&self) -> (r: Attributes)
        ensures
            r == card_att(*self),
    {
        match self {
            Card::Dummy => Attributes { side: Side::Neutral, ops: 0, starred: false, scoring: false },
            Card::Asia_Scoring => Attributes { side: Side::Neutral, ops: 0, starred: false, scoring: true },
            Card::Europe_Scoring => Attributes { side: Side::Neutral, ops: 0, starred: false, scoring: true },
            Card::Middle_East_Scoring => Attributes { side: Side::Neutral, ops: 0, starred: false, scoring: true },
            Card::Duck_and_Cover => Attributes { side: Side::US, ops: 3, starred: false, scoring: false },
            Card::Five_Year_Plan => Attributes { side: Side::US, ops: 3, starred: false, scoring: false },
            Card::The_China_Card => Attributes { side: Side::Neutral, ops: 4, starred: false, scoring: false },
            Card::Socialist_Governments => Attributes { side: Side::USSR, ops: 3, starred: false, scoring: false },
            Card::Fidel => Attributes { side: Side::USSR, ops: 2, starred: true, scoring: false },
            Card::Vietnam_Revolts => Attributes { side: Side::USSR, ops: 2, starred: true, scoring: false },
            Card::Blockade => Attributes { side: Side::USSR, ops: 1, starred: true, scoring: false },
            Card::Korean_War => Attributes { side: Side::USSR, ops: 2, starred: true, scoring: false },
            Card::Romanian_Abdication => Attributes { side: Side::USSR, ops: 1, starred: true, scoring: false },
            Card::Arab_Israeli_War => Attributes { side: Side::USSR, ops: 2, starred: false, scoring: false },
            Card::Comecon => Attributes { side: Side::USSR, ops: 3, starred: true, scoring: false },
            Card::Nasser => Attributes { side: Side::USSR, ops: 1, starred: true, scoring: false },
            Card::Warsaw_Pact_Formed => Attributes { side: Side::USSR, ops: 3, starred: true, scoring: false },
            Card::De_Gaulle_Leads_France => Attributes { side: Side::USSR, ops: 3, starred: true, scoring: false },
            Card::Captured_Nazi_Scientist => Attributes { side: Side::Neutral, ops: 1, starred: true, scoring: false },
            Card::Truman_Doctrine => Attributes { side: Side::US, ops: 1, starred: true, scoring: false },
            Card::Olympic_Games => Attributes { side: Side::Neutral, ops: 2, starred: false, scoring: false },
            Card::NATO => Attributes { side: Side::US, ops: 4, starred: true, scoring: false },
            Card::Independent_Reds => Attributes { side: Side::US, ops: 2, starred: true, scoring: false },
            Card::Marshall_Plan => Attributes { side: Side::US, ops: 4, starred: true, scoring: false },
            Card::Indo_Pakistani_War => Attributes { side: Side::Neutral, ops: 2, starred: false, scoring: false },
            Card::Containment => Attributes { side: Side::US, ops: 3, starred: true, scoring: false },
            Card::CIA_Created => Attributes { side: Side::US, ops: 1, starred: true, scoring: false },
            Card::US_Japan_Mutual_Defense_Pact => Attributes { side: Side::US, ops: 4, starred: true, scoring: false },
            Card::Suez_Crisis => Attributes { side: Side::USSR, ops: 3, starred: true, scoring: false },
            Card::East_European_Unrest => Attributes { side: Side::US, ops: 3, starred: false, scoring: false },
            Card::Decolonization => Attributes { side: Side::USSR, ops: 2, starred: false, scoring: false },
            Card::Red_Scare_Purge => Attributes { side: Side::Neutral, ops: 4, starred: false, scoring: false },
            Card::UN_Intervention => Attributes { side: Side::Neutral, ops: 1, starred: false, scoring: false },
            Card::De_Stalinization => Attributes { side: Side::USSR, ops: 3, starred: true, scoring: false },
            Card::Nuclear_Test_Ban => Attributes { side: Side::Neutral, ops: 4, starred: false, scoring: false },
            Card::Formosan_Resolution => Attributes { side: Side::US, ops: 2, starred: true, scoring: false },
            Card::Brush_War => Attributes { side: Side::Neutral, ops: 3, starred: false, scoring: false },
            Card::Central_America_Scoring => Attributes { side: Side::Neutral, ops: 0, starred: false, scoring: true },
            Card::Southeast_Asia_Scoring => Attributes { side: Side::Neutral, ops: 0, starred: true, scoring: true },
            Card::Arms_Race => Attributes { side: Side::Neutral, ops: 3, starred: false, scoring: false },
            Card::Cuban_Missile_Crisis => Attributes { side: Side::Neutral, ops: 3, starred: true, scoring: false },
            Card::Nuclear_Subs => Attributes { side: Side::US, ops: 2, starred: true, scoring: false },
            Card::Quagmire => Attributes { side: Side::USSR, ops: 3, starred: true, scoring: false },
            Card::SALT_Negotiations => Attributes { side: Side::Neutral, ops: 3, starred: true, scoring: false },
            Card::Bear_Trap => Attributes { side: Side::US, ops: 3, starred: true, scoring: false },
            Card::Summit => Attributes { side: Side::Neutral, ops: 1, starred: false, scoring: false },
            Card::How_I_Learned_To_Stop_Worrying => Attributes { side: Side::Neutral, ops: 2, starred: true, scoring: false },
            Card::Junta => Attributes { side: Side::Neutral, ops: 2, starred: false, scoring: false },
            Card::Kitchen_Debates => Attributes { side: Side::US, ops: 1, starred: true, scoring: false },
            Card::Missile_Envy => Attributes { side: Side::Neutral, ops: 2, starred: false, scoring: false },
            Card::We_Will_Bury_You => Attributes { side: Side::USSR, ops: 4, starred: true, scoring: false },
            Card::Brezhnev_Doctrine => Attributes { side: Side::USSR, ops: 3, starred: true, scoring: false },
            Card::Portuguese_Empire_Crumbles => Attributes { side: Side::USSR, ops: 2, starred: true, scoring: false },
            Card::South_African_Unrest => Attributes { side: Side::USSR, ops: 2, starred: false, scoring: false },
            Card::Allende => Attributes { side: Side::USSR, ops: 1, starred: true, scoring: false },
            Card::Willy_Brandt => Attributes { side: Side::USSR, ops: 2, starred: true, scoring: false },
            Card::Muslim_Revolution => Attributes { side: Side::USSR, ops: 4, starred: false, scoring: false },
            Card::ABM_Treaty => Attributes { side: Side::Neutral, ops: 4, starred: false, scoring: false },
            Card::Cultural_Revolution => Attributes { side: Side::USSR, ops: 3, starred: true, scoring: false },
            Card::Flower_Power => Attributes { side: Side::USSR, ops: 4, starred: true, scoring: false },
            Card::U2_Incident => Attributes { side: Side::USSR, ops: 3, starred: true, scoring: false },
            Card::OPEC => Attributes { side: Side::USSR, ops: 3, starred: false, scoring: false },
            Card::Lone_Gunman => Attributes { side: Side::USSR, ops: 1, starred: true, scoring: false },
            Card::Colonial_Rear_Guards => Attributes { side: Side::US, ops: 2, starred: false, scoring: false },
            Card::Panama_Canal_Returned => Attributes { side: Side::US, ops: 1, starred: true, scoring: false },
            Card::Camp_David_Accords => Attributes { side: Side::US, ops: 2, starred: true, scoring: false },
            Card::Puppet_Governments => Attributes { side: Side::US, ops: 2, starred: true, scoring: false },
            Card::Grain_Sales => Attributes { side: Side::US, ops: 2, starred: false, scoring: false },
            Card::John_Paul => Attributes { side: Side::US, ops: 2, starred: true, scoring: false },
            Card::Latin_American_Death_Squads => Attributes { side: Side::Neutral, ops: 2, starred: false, scoring: false },
            Card::OAS_Founded => Attributes { side: Side::US, ops: 1, starred: true, scoring: false },
            Card::Nixon_Plays_China => Attributes { side: Side::US, ops: 2, starred: true, scoring: false },
            Card::Sadat_Expels_Soviets => Attributes { side: Side::US, ops: 1, starred: true, scoring: false },
            Card::Shuttle_Diplomacy => Attributes { side: Side::US, ops: 3, starred: false, scoring: false },
            Card::The_Voice_Of_America => Attributes { side: Side::US, ops: 2, starred: false, scoring: false },
            Card::Liberation_Theology => Attributes { side: Side::USSR, ops: 2, starred: false, scoring: false },
            Card::Ussuri_River_Skirmish => Attributes { side: Side::US, ops: 3, starred: true, scoring: false },
            Card::Ask_Not => Attributes { side: Side::US, ops: 3, starred: true, scoring: false },
            Card::Alliance_For_Progress => Attributes { side: Side::US, ops: 3, starred: true, scoring: false },
            Card::Africa_Scoring => Attributes { side: Side::Neutral, ops: 0, starred: false, scoring: true },
            Card::One_Small_Step => Attributes { side: Side::Neutral, ops: 2, starred: false, scoring: false },
            Card::South_America_Scoring => Attributes { side: Side::Neutral, ops: 0, starred: false, scoring: true },
            Card::Iranian_Hostage_Crisis => Attributes { side: Side::USSR, ops: 3, starred: true, scoring: false },
            Card::The_Iron_Lady => Attributes { side: Side::US, ops: 3, starred: true, scoring: false },
            Card::Reagan_Bombs_Libya => Attributes { side: Side::US, ops: 2, starred: true, scoring: false },
            Card::Star_Wars => Attributes { side: Side::US, ops: 2, starred: true, scoring: false },
            Card::North_Sea_Oil => Attributes { side: Side::US, ops: 3, starred: true, scoring: false },
            Card::The_Reformer => Attributes { side: Side::USSR, ops: 3, starred: true, scoring: false },
            Card::Marine_Barracks_Bombing => Attributes { side: Side::USSR, ops: 2, starred: true, scoring: false },
            Card::Soviets_Shoot_Down_KAL => Attributes { side: Side::US, ops: 4, starred: true, scoring: false },
            Card::Glasnost => Attributes { side: Side::USSR, ops: 4, starred: true, scoring: false },
            Card::Ortega_Elected => Attributes { side: Side::USSR, ops: 2, starred: true, scoring: false },
            Card::Terrorism => Attributes { side: Side::Neutral, ops: 2, starred: false, scoring: false },
            Card::Iran_Contra_Scandal => Attributes { side: Side::USSR, ops: 2, starred: true, scoring: false },
            Card::Chernobyl => Attributes { side: Side::US, ops: 3, starred: true, scoring: false },
            Card::Latin_American_Debt_Crisis => Attributes { side: Side::USSR, ops: 2, starred: false, scoring: false },
            Card::Tear_Down_This_Wall => Attributes { side: Side::US, ops: 3, starred: true, scoring: false },
            Card::An_Evil_Empire => Attributes { side: Side::US, ops: 3, starred: true, scoring: false },
            Card::Aldrich_Ames_Remix => Attributes { side: Side::USSR, ops: 3, starred: true, scoring: false },
            Card::Pershing_II_Deployed => Attributes { side: Side::USSR, ops: 3, starred: true, scoring: false },
            Card::Wargames => Attributes { side: Side::Neutral, ops: 4, starred: true, scoring: false },
            Card::Solidarity => Attributes { side: Side::US, ops: 2, starred: true, scoring: false },
            Card::Iran_Iraq_War => Attributes { side: Side::Neutral, ops: 2, starred: true, scoring: false },
            Card::Defectors => Attributes { side: Side::US, ops: 2, starred: false, scoring: false },
            Card::The_Cambridge_Five => Attributes { side: Side::USSR, ops: 2, starred: false, scoring: false },
            Card::Special_Relationship => Attributes { side: Side::US, ops: 2, starred: false, scoring: false },
            Card::NORAD => Attributes { side: Side::US, ops: 3, starred: true, scoring: false },
            Card::Che => Attributes { side: Side::USSR, ops: 3, starred: false, scoring: false },
            Card::Our_Man_In_Tehran => Attributes { side: Side::US, ops: 2, starred: true, scoring: false },
            Card::Yuri_And_Samantha => Attributes { side: Side::USSR, ops: 2, starred: true, scoring: false },
            Card::AWACS => Attributes { side: Side::US, ops: 3, starred: true, scoring: false },
        }
    }
}

} // verus!
