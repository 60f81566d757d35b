use vstd::prelude::*;
use crate::state::GameState;

pub mod scoring;

verus! {

/// Number of entries on the map, the two superpowers included.
pub const NUM_COUNTRIES: usize = 86;
/// Map index of the United States.
pub const US_INDEX: usize = 84;
/// Map index of the Soviet Union.
pub const USSR_INDEX: usize = 85;

/// A player of the game, or neither.
#[derive(Clone, Copy, PartialEq, Eq, Structural, Debug)]
pub enum Side {
    US,
    USSR,
    Neutral,
}

/// The numeric value of a side: US 0, USSR 1, Neutral 2.
pub open spec fn side_index(s: Side) -> usize {
    match s {
        Side::US => 0,
        Side::USSR => 1,
        Side::Neutral => 2,
    }
}

/// The opposing superpower.
pub open spec fn opposite_spec(s: Side) -> Side {
    match s {
        Side::US => Side::USSR,
        _ => Side::US,
    }
}

/// The side with a numeric value: US 0, USSR 1, and Neutral for any other.
pub open spec fn side_from_spec(num: usize) -> Side {
    if num == 0 {
        Side::US
    } else if num == 1 {
        Side::USSR
    } else {
        Side::Neutral
    }
}

impl From<usize> for Side {
    /// The side with a numeric value: US 0, USSR 1, and Neutral for any other.
    fn from(num: usize) -> (r: Self) {
        if num == 0 {
            Side::US
        } else if num == 1 {
            Side::USSR
        } else {
            Side::Neutral
        }
    }
}

impl vstd::std_specs::convert::FromSpecImpl<usize> for Side {
    open spec fn obeys_from_spec() -> bool {
        true
    }

    open spec fn from_spec(num: usize) -> Self {
        side_from_spec(num)
    }
}

impl Side {
    /// The numeric value of this side: US 0, USSR 1, Neutral 2.
    pub fn index(&self) -> (r: usize)
        ensures
            r == side_index(*self),
    {
        match self {
            Side::US => 0,
            Side::USSR => 1,
            Side::Neutral => 2,
        }
    }

    /// The opposing superpower. Neither side has no opponent.
    pub fn opposite(&self) -> (r: Side)
        requires
            *self != Side::Neutral,
        ensures
            r == opposite_spec(*self),
            r != Side::Neutral,
            r != *self,
    {
        match self {
            Side::US => Side::USSR,
            _ => Side::US,
        }
    }

    /// The side with a given numeric value: 0 is the US, 1 the USSR, anything else neither.
    pub fn from_usize(num: usize) -> (r: Side)
        ensures
            num == 0 ==> r == Side::US,
            num == 1 ==> r == Side::USSR,
            num > 1 ==> r == Side::Neutral,
    {
        if num == 0 {
            Side::US
        } else if num == 1 {
            Side::USSR
        } else {
            Side::Neutral
        }
    }
}

/// Taking the opponent twice gives back the superpower one started from.
pub proof fn lemma_opposite_involution(s: Side)
    requires
        s != Side::Neutral,
    ensures
        opposite_spec(opposite_spec(s)) == s,
        opposite_spec(s) != s,
{
}

/// A scoring region of the map.
#[derive(Clone, Copy, PartialEq, Eq, Structural, Debug)]
pub enum Region {
    Europe,
    WesternEurope,
    EasternEurope,
    MiddleEast,
    Asia,
    SoutheastAsia,
    Africa,
    CentralAmerica,
    SouthAmerica,
}

/// The standing of one side in a region.
#[derive(Clone, Copy, PartialEq, Eq, Structural, Debug)]
pub enum Status {
    Zero,
    Presence,
    Domination,
    Control,
}

/// The first and last map index of a region; the countries of a region are contiguous.
pub open spec fn low_high_spec(r: Region) -> (usize, usize) {
    match r {
        Region::Europe => (0, 20),
        Region::WesternEurope => (0, 13),
        Region::EasternEurope => (12, 20),
        Region::MiddleEast => (21, 30),
        Region::Asia => (31, 45),
        Region::SoutheastAsia => (34, 40),
        Region::Africa => (46, 63),
        Region::CentralAmerica => (64, 73),
        Region::SouthAmerica => (74, 83),
    }
}

/// Whether a map index lies in a region.
pub open spec fn region_has(r: Region, index: int) -> bool {
    low_high_spec(r).0 <= index <= low_high_spec(r).1
}

/// The map indices of a region, in increasing order.
pub open spec fn region_countries(r: Region) -> Seq<usize> {
    Seq::new(
        (low_high_spec(r).1 - low_high_spec(r).0 + 1) as nat,
        |i: int| (low_high_spec(r).0 + i) as usize,
    )
}

impl Region {
    /// The six regions that have a scoring card.
    pub fn major_regions() -> (r: Vec<Region>)
        ensures
            r@ == seq![
                Region::Europe,
                Region::MiddleEast,
                Region::Asia,
                Region::Africa,
                Region::CentralAmerica,
                Region::SouthAmerica,
            ],
    {
        vec![
            Region::Europe,
            Region::MiddleEast,
            Region::Asia,
            Region::Africa,
            Region::CentralAmerica,
            Region::SouthAmerica,
        ]
    }

    /// The first and last map index of this region.
    pub fn low_high(&self) -> (r: (usize, usize))
        ensures
            r == low_high_spec(*self),
    {
        match self {
            Region::Europe => (CName::Turkey.index(), CName::Bulgaria.index()),
            Region::WesternEurope => (CName::Turkey.index(), CName::Finland.index()),
            Region::EasternEurope => (CName::Austria.index(), CName::Bulgaria.index()),
            Region::MiddleEast => (CName::Lebanon.index(), CName::SaudiaArabia.index()),
            Region::Asia => (CName::Afghanistan.index(), CName::NKorea.index()),
            Region::SoutheastAsia => (CName::Burma.index(), CName::Philippines.index()),
            Region::Africa => (CName::Morocco.index(), CName::SouthAfrica.index()),
            Region::CentralAmerica => (CName::Mexico.index(), CName::DominicanRep.index()),
            Region::SouthAmerica => (CName::Venezuela.index(), CName::Uruguay.index()),
        }
    }

    /// Whether the country with the given map index lies in this region.
    pub fn has_country(&self, index: usize) -> (r: bool)
        ensures
            r == region_has(*self, index as int),
    {
        let (low, high) = self.low_high();
        low <= index && index <= high
    }

    /// The map indices of this region, in increasing order.
    pub fn all_countries(&self) -> (r: Vec<usize>)
        ensures
            r@ == region_countries(*self),
    {
        let (low, high) = self.low_high();
        let mut v: Vec<usize> = Vec::new();
        let mut i: usize = low;
        while i <= high
            invariant
                low <= i <= high + 1,
                (low, high) == low_high_spec(*self),
                v@ =~= Seq::new((i - low) as nat, |j: int| (low + j) as usize),
            decreases high + 1 - i,
        {
            v.push(i);
            i = i + 1;
        }
        v
    }
}

/// A region holds exactly the indices that its list of countries holds.
pub proof fn lemma_region_list(r: Region, index: usize)
    ensures
        region_countries(r).contains(index) <==> region_has(r, index as int),
        region_countries(r).no_duplicates(),
{
    let s = region_countries(r);
    if region_has(r, index as int) {
        assert(s[index - low_high_spec(r).0] == index);
    }
}

/// One entry of the map: its stability, the influence of each side, and whether it is a
/// battleground.
#[derive(Clone, Copy, Debug, PartialEq, Eq, Structural)]
pub struct Country {
    pub stability: i8,
    pub us: i8,
    pub ussr: i8,
    pub bg: bool,
}

/// Who controls a country: a side whose influence exceeds the other's by at least the
/// stability number.
pub open spec fn controller_spec(c: Country) -> Side {
    if c.us - c.ussr >= c.stability {
        Side::US
    } else if c.us - c.ussr <= -c.stability {
        Side::USSR
    } else {
        Side::Neutral
    }
}

/// The influence a side holds in a country.
pub open spec fn influence_spec(c: Country, s: Side) -> i8 {
    match s {
        Side::US => c.us,
        _ => c.ussr,
    }
}

impl Country {
    /// A country whose arithmetic on influence and stability cannot leave `i8`.
    pub open spec fn fits(&self) -> bool {
        &&& i8::MIN <= self.us - self.ussr <= i8::MAX
        &&& self.stability > i8::MIN
    }

    /// The side that controls this country, or Neutral.
    pub fn controller(&self) -> (r: Side)
        requires
            self.fits(),
        ensures
            r == controller_spec(*self),
    {
        let diff = self.us - self.ussr;
        assert(-1 * self.stability == -self.stability) by (nonlinear_arith);
        if diff >= self.stability {
            Side::US
        } else if diff <= -1 * self.stability {
            Side::USSR
        } else {
            Side::Neutral
        }
    }

    /// Whether a superpower has any influence here.
    pub fn has_influence(&self, side: Side) -> (r: bool)
        requires
            side != Side::Neutral,
        ensures
            r == (influence_spec(*self, side) > 0),
    {
        match side {
            Side::US => self.us > 0,
            _ => self.ussr > 0,
        }
    }

    /// The influence of a superpower here.
    pub fn influence(&self, side: Side) -> (r: i8)
        requires
            side != Side::Neutral,
        ensures
            r == influence_spec(*self, side),
    {
        match side {
            Side::US => self.us,
            _ => self.ussr,
        }
    }

    /// The side with strictly more influence here, or Neutral on a tie.
    pub fn greater_influence(&self) -> (r: Side)
        ensures
            self.ussr > self.us ==> r == Side::USSR,
            self.us > self.ussr ==> r == Side::US,
            self.us == self.ussr ==> r == Side::Neutral,
    {
        if self.ussr > self.us {
            Side::USSR
        } else if self.us > self.ussr {
            Side::US
        } else {
            Side::Neutral
        }
    }

    /// An empty battleground of the given stability.
    pub fn new_bg(stability: i8) -> (r: Country)
        ensures
            r == (Country { stability, us: 0, ussr: 0, bg: true }),
    {
        Country { stability, us: 0, ussr: 0, bg: true }
    }

    /// An empty non-battleground of the given stability.
    pub fn new_non(stability: i8) -> (r: Country)
        ensures
            r == (Country { stability, us: 0, ussr: 0, bg: false }),
    {
        Country { stability, us: 0, ussr: 0, bg: false }
    }
}

/// The empty map entry of a country.
pub open spec fn base_country(n: CName) -> Country {
    Country { stability: base_stability(n), us: 0, ussr: 0, bg: base_bg(n) }
}

/// The map entry of a country at the start of the game.
pub open spec fn start_country(n: CName) -> Country {
    Country { stability: base_stability(n), us: start_us(n), ussr: start_ussr(n), bg: base_bg(n) }
}

/// Returns the map with every country empty, indexed by map index.
pub fn countries() -> (r: Vec<Country>)
    ensures
        r.len() == NUM_COUNTRIES,
        forall|i: int| 0 <= i < NUM_COUNTRIES ==> #[trigger] r@[i] == base_country(cname_of(i as usize)),
{
    let mut v: Vec<Country> = Vec::new();
    let mut i: usize = 0;
    while i < NUM_COUNTRIES
        invariant
            i <= NUM_COUNTRIES,
            v.len() == i,
            forall|j: int| 0 <= j < i ==> #[trigger] v@[j] == base_country(cname_of(j as usize)),
        decreases NUM_COUNTRIES - i,
    {
        let (stability, bg) = CName::from_index(i).stability_bg();
        if bg {
            v.push(Country::new_bg(stability));
        } else {
            v.push(Country::new_non(stability));
        }
        i = i + 1;
    }
    v
}

/// Returns countries with their starting influence before players have any agency.
pub fn standard_start() -> (r: Vec<Country>)
    ensures
        r.len() == NUM_COUNTRIES,
        forall|i: int| 0 <= i < NUM_COUNTRIES ==> #[trigger] r@[i] == start_country(cname_of(i as usize)),
{
    let mut c = countries();
    let mut i: usize = 0;
    while i < NUM_COUNTRIES
        invariant
            i <= NUM_COUNTRIES,
            c.len() == NUM_COUNTRIES,
            forall|j: int| 0 <= j < i ==> #[trigger] c@[j] == start_country(cname_of(j as usize)),
            forall|j: int| i <= j < NUM_COUNTRIES ==> #[trigger] c@[j] == base_country(cname_of(j as usize)),
        decreases NUM_COUNTRIES - i,
    {
        let (us, ussr) = CName::from_index(i).start_influence();
        let mut entry = c[i];
        entry.us = entry.us + us;
        entry.ussr = entry.ussr + ussr;
        c.set(i, entry);
        i = i + 1;
    }
    c
}

#[derive(Clone, Copy, PartialEq, Eq, Structural, Debug)]
pub enum CName {
    Turkey,
    Greece,
    Italy,
    SpainPortugal,
    France,
    WGermany,
    Benelux,
    UK,
    Canada,
    Norway,
    Denmark,
    Sweden,
    Austria,
    Finland,
    EGermany,
    Poland,
    Czechoslovakia,
    Hungary,
    Romania,
    Yugoslavia,
    Bulgaria,
    Lebanon,
    Syria,
    Israel,
    Iraq,
    Iran,
    Libya,
    Egypt,
    Jordan,
    GulfStates,
    SaudiaArabia,
    Afghanistan,
    Pakistan,
    India,
    Burma,
    LaosCambodia,
    Thailand,
    Vietnam,
    Malaysia,
    Indonesia,
    Philippines,
    Australia,
    Taiwan,
    Japan,
    SKorea,
    NKorea,
    Morocco,
    Algeria,
    Tunisia,
    WestAfricanStates,
    SaharanStates,
    Sudan,
    IvoryCoast,
    Nigeria,
    Ethiopia,
    Somalia,
    Cameroon,
    Zaire,
    Kenya,
    Angola,
    SEAfricanStates,
    Zimbabwe,
    Botswana,
    SouthAfrica,
    Mexico,
    Guatemala,
    ElSalvador,
    Honduras,
    CostaRica,
    Panama,
    Nicaragua,
    Cuba,
    Haiti,
    DominicanRep,
    Venezuela,
    Colombia,
    Ecuador,
    Peru,
    Brazil,
    Bolivia,
    Chile,
    Paraguay,
    Argentina,
    Uruguay,
    US,
    USSR,
}

/// The position of a CName in the enumeration order.
pub open spec fn cname_index(x: CName) -> usize {
    match x {
        CName::Turkey => 0,
        CName::Greece => 1,
        CName::Italy => 2,
        CName::SpainPortugal => 3,
        CName::France => 4,
        CName::WGermany => 5,
        CName::Benelux => 6,
        CName::UK => 7,
        CName::Canada => 8,
        CName::Norway => 9,
        CName::Denmark => 10,
        CName::Sweden => 11,
        CName::Austria => 12,
        CName::Finland => 13,
        CName::EGermany => 14,
        CName::Poland => 15,
        CName::Czechoslovakia => 16,
        CName::Hungary => 17,
        CName::Romania => 18,
        CName::Yugoslavia => 19,
        CName::Bulgaria => 20,
        CName::Lebanon => 21,
        CName::Syria => 22,
        CName::Israel => 23,
        CName::Iraq => 24,
        CName::Iran => 25,
        CName::Libya => 26,
        CName::Egypt => 27,
        CName::Jordan => 28,
        CName::GulfStates => 29,
        CName::SaudiaArabia => 30,
        CName::Afghanistan => 31,
        CName::Pakistan => 32,
        CName::India => 33,
        CName::Burma => 34,
        CName::LaosCambodia => 35,
        CName::Thailand => 36,
        CName::Vietnam => 37,
        CName::Malaysia => 38,
        CName::Indonesia => 39,
        CName::Philippines => 40,
        CName::Australia => 41,
        CName::Taiwan => 42,
        CName::Japan => 43,
        CName::SKorea => 44,
        CName::NKorea => 45,
        CName::Morocco => 46,
        CName::Algeria => 47,
        CName::Tunisia => 48,
        CName::WestAfricanStates => 49,
        CName::SaharanStates => 50,
        CName::Sudan => 51,
        CName::IvoryCoast => 52,
        CName::Nigeria => 53,
        CName::Ethiopia => 54,
        CName::Somalia => 55,
        CName::Cameroon => 56,
        CName::Zaire => 57,
        CName::Kenya => 58,
        CName::Angola => 59,
        CName::SEAfricanStates => 60,
        CName::Zimbabwe => 61,
        CName::Botswana => 62,
        CName::SouthAfrica => 63,
        CName::Mexico => 64,
        CName::Guatemala => 65,
        CName::ElSalvador => 66,
        CName::Honduras => 67,
        CName::CostaRica => 68,
        CName::Panama => 69,
        CName::Nicaragua => 70,
        CName::Cuba => 71,
        CName::Haiti => 72,
        CName::DominicanRep => 73,
        CName::Venezuela => 74,
        CName::Colombia => 75,
        CName::Ecuador => 76,
        CName::Peru => 77,
        CName::Brazil => 78,
        CName::Bolivia => 79,
        CName::Chile => 80,
        CName::Paraguay => 81,
        CName::Argentina => 82,
        CName::Uruguay => 83,
        CName::US => 84,
        CName::USSR => 85,
    }
}

/// The CName at a position of the enumeration order.
pub open spec fn cname_of(i: usize) -> CName {
    match i {
        0 => CName::Turkey,
        1 => CName::Greece,
        2 => CName::Italy,
        3 => CName::SpainPortugal,
        4 => CName::France,
        5 => CName::WGermany,
        6 => CName::Benelux,
        7 => CName::UK,
        8 => CName::Canada,
        9 => CName::Norway,
        10 => CName::Denmark,
        11 => CName::Sweden,
        12 => CName::Austria,
        13 => CName::Finland,
        14 => CName::EGermany,
        15 => CName::Poland,
        16 => CName::Czechoslovakia,
        17 => CName::Hungary,
        18 => CName::Romania,
        19 => CName::Yugoslavia,
        20 => CName::Bulgaria,
        21 => CName::Lebanon,
        22 => CName::Syria,
        23 => CName::Israel,
        24 => CName::Iraq,
        25 => CName::Iran,
        26 => CName::Libya,
        27 => CName::Egypt,
        28 => CName::Jordan,
        29 => CName::GulfStates,
        30 => CName::SaudiaArabia,
        31 => CName::Afghanistan,
        32 => CName::Pakistan,
        33 => CName::India,
        34 => CName::Burma,
        35 => CName::LaosCambodia,
        36 => CName::Thailand,
        37 => CName::Vietnam,
        38 => CName::Malaysia,
        39 => CName::Indonesia,
        40 => CName::Philippines,
        41 => CName::Australia,
        42 => CName::Taiwan,
        43 => CName::Japan,
        44 => CName::SKorea,
        45 => CName::NKorea,
        46 => CName::Morocco,
        47 => CName::Algeria,
        48 => CName::Tunisia,
        49 => CName::WestAfricanStates,
        50 => CName::SaharanStates,
        51 => CName::Sudan,
        52 => CName::IvoryCoast,
        53 => CName::Nigeria,
        54 => CName::Ethiopia,
        55 => CName::Somalia,
        56 => CName::Cameroon,
        57 => CName::Zaire,
        58 => CName::Kenya,
        59 => CName::Angola,
        60 => CName::SEAfricanStates,
        61 => CName::Zimbabwe,
        62 => CName::Botswana,
        63 => CName::SouthAfrica,
        64 => CName::Mexico,
        65 => CName::Guatemala,
        66 => CName::ElSalvador,
        67 => CName::Honduras,
        68 => CName::CostaRica,
        69 => CName::Panama,
        70 => CName::Nicaragua,
        71 => CName::Cuba,
        72 => CName::Haiti,
        73 => CName::DominicanRep,
        74 => CName::Venezuela,
        75 => CName::Colombia,
        76 => CName::Ecuador,
        77 => CName::Peru,
        78 => CName::Brazil,
        79 => CName::Bolivia,
        80 => CName::Chile,
        81 => CName::Paraguay,
        82 => CName::Argentina,
        83 => CName::Uruguay,
        84 => CName::US,
        _ => CName::USSR,
    }
}

pub proof fn lemma_cname_index_inverse(x: CName)
    ensures
        cname_of(cname_index(x)) == x,
        cname_index(x) < NUM_COUNTRIES,
{
}

pub proof fn lemma_cname_of_inverse(i: usize)
    requires
        i < NUM_COUNTRIES,
    ensures
        cname_index(cname_of(i)) == i,
{
}

impl CName {
    /// The position of this value in the enumeration order.
    pub fn index(&self) -> (r: usize)
        ensures
            r == cname_index(*self),
    {
        match self {
            CName::Turkey => 0,
            CName::Greece => 1,
            CName::Italy => 2,
            CName::SpainPortugal => 3,
            CName::France => 4,
            CName::WGermany => 5,
            CName::Benelux => 6,
            CName::UK => 7,
            CName::Canada => 8,
            CName::Norway => 9,
            CName::Denmark => 10,
            CName::Sweden => 11,
            CName::Austria => 12,
            CName::Finland => 13,
            CName::EGermany => 14,
            CName::Poland => 15,
            CName::Czechoslovakia => 16,
            CName::Hungary => 17,
            CName::Romania => 18,
            CName::Yugoslavia => 19,
            CName::Bulgaria => 20,
            CName::Lebanon => 21,
            CName::Syria => 22,
            CName::Israel => 23,
            CName::Iraq => 24,
            CName::Iran => 25,
            CName::Libya => 26,
            CName::Egypt => 27,
            CName::Jordan => 28,
            CName::GulfStates => 29,
            CName::SaudiaArabia => 30,
            CName::Afghanistan => 31,
            CName::Pakistan => 32,
            CName::India => 33,
            CName::Burma => 34,
            CName::LaosCambodia => 35,
            CName::Thailand => 36,
            CName::Vietnam => 37,
            CName::Malaysia => 38,
            CName::Indonesia => 39,
            CName::Philippines => 40,
            CName::Australia => 41,
            CName::Taiwan => 42,
            CName::Japan => 43,
            CName::SKorea => 44,
            CName::NKorea => 45,
            CName::Morocco => 46,
            CName::Algeria => 47,
            CName::Tunisia => 48,
            CName::WestAfricanStates => 49,
            CName::SaharanStates => 50,
            CName::Sudan => 51,
            CName::IvoryCoast => 52,
            CName::Nigeria => 53,
            CName::Ethiopia => 54,
            CName::Somalia => 55,
            CName::Cameroon => 56,
            CName::Zaire => 57,
            CName::Kenya => 58,
            CName::Angola => 59,
            CName::SEAfricanStates => 60,
            CName::Zimbabwe => 61,
            CName::Botswana => 62,
            CName::SouthAfrica => 63,
            CName::Mexico => 64,
            CName::Guatemala => 65,
            CName::ElSalvador => 66,
            CName::Honduras => 67,
            CName::CostaRica => 68,
            CName::Panama => 69,
            CName::Nicaragua => 70,
            CName::Cuba => 71,
            CName::Haiti => 72,
            CName::DominicanRep => 73,
            CName::Venezuela => 74,
            CName::Colombia => 75,
            CName::Ecuador => 76,
            CName::Peru => 77,
            CName::Brazil => 78,
            CName::Bolivia => 79,
            CName::Chile => 80,
            CName::Paraguay => 81,
            CName::Argentina => 82,
            CName::Uruguay => 83,
            CName::US => 84,
            CName::USSR => 85,
        }
    }

    /// The value at a position of the enumeration order.
    pub fn from_index(index: usize) -> (r: CName)
        requires
            index < NUM_COUNTRIES,
        ensures
            r == cname_of(index),
            cname_index(r) == index,
    {
        proof { lemma_cname_of_inverse(index); }
        match index {
            0 => CName::Turkey,
            1 => CName::Greece,
            2 => CName::Italy,
            3 => CName::SpainPortugal,
            4 => CName::France,
            5 => CName::WGermany,
            6 => CName::Benelux,
            7 => CName::UK,
            8 => CName::Canada,
            9 => CName::Norway,
            10 => CName::Denmark,
            11 => CName::Sweden,
            12 => CName::Austria,
            13 => CName::Finland,
            14 => CName::EGermany,
            15 => CName::Poland,
            16 => CName::Czechoslovakia,
            17 => CName::Hungary,
            18 => CName::Romania,
            19 => CName::Yugoslavia,
            20 => CName::Bulgaria,
            21 => CName::Lebanon,
            22 => CName::Syria,
            23 => CName::Israel,
            24 => CName::Iraq,
            25 => CName::Iran,
            26 => CName::Libya,
            27 => CName::Egypt,
            28 => CName::Jordan,
            29 => CName::GulfStates,
            30 => CName::SaudiaArabia,
            31 => CName::Afghanistan,
            32 => CName::Pakistan,
            33 => CName::India,
            34 => CName::Burma,
            35 => CName::LaosCambodia,
            36 => CName::Thailand,
            37 => CName::Vietnam,
            38 => CName::Malaysia,
            39 => CName::Indonesia,
            40 => CName::Philippines,
            41 => CName::Australia,
            42 => CName::Taiwan,
            43 => CName::Japan,
            44 => CName::SKorea,
            45 => CName::NKorea,
            46 => CName::Morocco,
            47 => CName::Algeria,
            48 => CName::Tunisia,
            49 => CName::WestAfricanStates,
            50 => CName::SaharanStates,
            51 => CName::Sudan,
            52 => CName::IvoryCoast,
            53 => CName::Nigeria,
            54 => CName::Ethiopia,
            55 => CName::Somalia,
            56 => CName::Cameroon,
            57 => CName::Zaire,
            58 => CName::Kenya,
            59 => CName::Angola,
            60 => CName::SEAfricanStates,
            61 => CName::Zimbabwe,
            62 => CName::Botswana,
            63 => CName::SouthAfrica,
            64 => CName::Mexico,
            65 => CName::Guatemala,
            66 => CName::ElSalvador,
            67 => CName::Honduras,
            68 => CName::CostaRica,
            69 => CName::Panama,
            70 => CName::Nicaragua,
            71 => CName::Cuba,
            72 => CName::Haiti,
            73 => CName::DominicanRep,
            74 => CName::Venezuela,
            75 => CName::Colombia,
            76 => CName::Ecuador,
            77 => CName::Peru,
            78 => CName::Brazil,
            79 => CName::Bolivia,
            80 => CName::Chile,
            81 => CName::Paraguay,
            82 => CName::Argentina,
            83 => CName::Uruguay,
            84 => CName::US,
            _ => CName::USSR,
        }
    }
}

/// The stability number of each country on the map.
pub open spec fn base_stability(n: CName) -> i8 {
    match n {
        CName::Turkey => 2,
        CName::Greece => 2,
        CName::Italy => 2,
        CName::SpainPortugal => 2,
        CName::France => 3,
        CName::WGermany => 4,
        CName::Benelux => 3,
        CName::UK => 5,
        CName::Canada => 4,
        CName::Norway => 4,
        CName::Denmark => 3,
        CName::Sweden => 4,
        CName::Austria => 4,
        CName::Finland => 4,
        CName::EGermany => 3,
        CName::Poland => 3,
        CName::Czechoslovakia => 3,
        CName::Hungary => 3,
        CName::Romania => 3,
        CName::Yugoslavia => 3,
        CName::Bulgaria => 3,
        CName::Lebanon => 1,
        CName::Syria => 2,
        CName::Israel => 4,
        CName::Iraq => 3,
        CName::Iran => 2,
        CName::Libya => 2,
        CName::Egypt => 2,
        CName::Jordan => 2,
        CName::GulfStates => 3,
        CName::SaudiaArabia => 3,
        CName::Afghanistan => 2,
        CName::Pakistan => 2,
        CName::India => 3,
        CName::Burma => 2,
        CName::LaosCambodia => 1,
        CName::Thailand => 2,
        CName::Vietnam => 1,
        CName::Malaysia => 2,
        CName::Indonesia => 1,
        CName::Philippines => 2,
        CName::Australia => 4,
        CName::Taiwan => 3,
        CName::Japan => 4,
        CName::SKorea => 3,
        CName::NKorea => 3,
        CName::Morocco => 3,
        CName::Algeria => 2,
        CName::Tunisia => 2,
        CName::WestAfricanStates => 2,
        CName::SaharanStates => 1,
        CName::Sudan => 1,
        CName::IvoryCoast => 2,
        CName::Nigeria => 1,
        CName::Ethiopia => 1,
        CName::Somalia => 2,
        CName::Cameroon => 1,
        CName::Zaire => 1,
        CName::Kenya => 2,
        CName::Angola => 1,
        CName::SEAfricanStates => 1,
        CName::Zimbabwe => 1,
        CName::Botswana => 2,
        CName::SouthAfrica => 3,
        CName::Mexico => 2,
        CName::Guatemala => 1,
        CName::ElSalvador => 1,
        CName::Honduras => 2,
        CName::CostaRica => 3,
        CName::Panama => 2,
        CName::Nicaragua => 1,
        CName::Cuba => 3,
        CName::Haiti => 1,
        CName::DominicanRep => 1,
        CName::Venezuela => 2,
        CName::Colombia => 1,
        CName::Ecuador => 2,
        CName::Peru => 2,
        CName::Brazil => 2,
        CName::Bolivia => 2,
        CName::Chile => 3,
        CName::Paraguay => 2,
        CName::Argentina => 2,
        CName::Uruguay => 2,
        CName::US => 6,
        CName::USSR => 6,
    }
}

/// Whether a country is a battleground.
pub open spec fn base_bg(n: CName) -> bool {
    match n {
        CName::Turkey => false,
        CName::Greece => false,
        CName::Italy => true,
        CName::SpainPortugal => false,
        CName::France => true,
        CName::WGermany => true,
        CName::Benelux => false,
        CName::UK => false,
        CName::Canada => false,
        CName::Norway => false,
        CName::Denmark => false,
        CName::Sweden => false,
        CName::Austria => false,
        CName::Finland => false,
        CName::EGermany => true,
        CName::Poland => true,
        CName::Czechoslovakia => false,
        CName::Hungary => false,
        CName::Romania => false,
        CName::Yugoslavia => false,
        CName::Bulgaria => false,
        CName::Lebanon => false,
        CName::Syria => false,
        CName::Israel => true,
        CName::Iraq => true,
        CName::Iran => true,
        CName::Libya => true,
        CName::Egypt => true,
        CName::Jordan => false,
        CName::GulfStates => false,
        CName::SaudiaArabia => true,
        CName::Afghanistan => false,
        CName::Pakistan => true,
        CName::India => true,
        CName::Burma => false,
        CName::LaosCambodia => false,
        CName::Thailand => true,
        CName::Vietnam => false,
        CName::Malaysia => false,
        CName::Indonesia => false,
        CName::Philippines => false,
        CName::Australia => false,
        CName::Taiwan => false,
        CName::Japan => true,
        CName::SKorea => true,
        CName::NKorea => true,
        CName::Morocco => false,
        CName::Algeria => true,
        CName::Tunisia => false,
        CName::WestAfricanStates => false,
        CName::SaharanStates => false,
        CName::Sudan => false,
        CName::IvoryCoast => false,
        CName::Nigeria => true,
        CName::Ethiopia => false,
        CName::Somalia => false,
        CName::Cameroon => false,
        CName::Zaire => true,
        CName::Kenya => false,
        CName::Angola => true,
        CName::SEAfricanStates => false,
        CName::Zimbabwe => false,
        CName::Botswana => false,
        CName::SouthAfrica => true,
        CName::Mexico => true,
        CName::Guatemala => false,
        CName::ElSalvador => false,
        CName::Honduras => false,
        CName::CostaRica => false,
        CName::Panama => true,
        CName::Nicaragua => false,
        CName::Cuba => true,
        CName::Haiti => false,
        CName::DominicanRep => false,
        CName::Venezuela => true,
        CName::Colombia => false,
        CName::Ecuador => false,
        CName::Peru => false,
        CName::Brazil => true,
        CName::Bolivia => false,
        CName::Chile => true,
        CName::Paraguay => false,
        CName::Argentina => true,
        CName::Uruguay => false,
        CName::US => false,
        CName::USSR => false,
    }
}

/// The influence the US holds in a country before players have any agency.
pub open spec fn start_us(n: CName) -> i8 {
    match n {
        CName::UK => 5,
        CName::Canada => 2,
        CName::Israel => 1,
        CName::Iran => 1,
        CName::Philippines => 1,
        CName::Australia => 4,
        CName::Japan => 1,
        CName::SKorea => 1,
        CName::SouthAfrica => 1,
        CName::Panama => 1,
        CName::US => 6,
        _ => 0,
    }
}

/// The influence the USSR holds in a country before players have any agency.
pub open spec fn start_ussr(n: CName) -> i8 {
    match n {
        CName::Finland => 1,
        CName::EGermany => 3,
        CName::Syria => 1,
        CName::Iraq => 1,
        CName::NKorea => 3,
        CName::USSR => 6,
        _ => 0,
    }
}

impl CName {
    /// The number of map entries, the superpowers included.
    pub fn total() -> (r: usize)
        ensures
            r == NUM_COUNTRIES,
    {
        NUM_COUNTRIES
    }
}

impl CName {
    /// The stability number and battleground flag of this country.
    fn stability_bg(&self) -> (r: (i8, bool))
        ensures
            r.0 == base_stability(*self),
            r.1 == base_bg(*self),
    {
        match self {
            CName::Turkey => (2, false),
            CName::Greece => (2, false),
            CName::Italy => (2, true),
            CName::SpainPortugal => (2, false),
            CName::France => (3, true),
            CName::WGermany => (4, true),
            CName::Benelux => (3, false),
            CName::UK => (5, false),
            CName::Canada => (4, false),
            CName::Norway => (4, false),
            CName::Denmark => (3, false),
            CName::Sweden => (4, false),
            CName::Austria => (4, false),
            CName::Finland => (4, false),
            CName::EGermany => (3, true),
            CName::Poland => (3, true),
            CName::Czechoslovakia => (3, false),
            CName::Hungary => (3, false),
            CName::Romania => (3, false),
            CName::Yugoslavia => (3, false),
            CName::Bulgaria => (3, false),
            CName::Lebanon => (1, false),
            CName::Syria => (2, false),
            CName::Israel => (4, true),
            CName::Iraq => (3, true),
            CName::Iran => (2, true),
            CName::Libya => (2, true),
            CName::Egypt => (2, true),
            CName::Jordan => (2, false),
            CName::GulfStates => (3, false),
            CName::SaudiaArabia => (3, true),
            CName::Afghanistan => (2, false),
            CName::Pakistan => (2, true),
            CName::India => (3, true),
            CName::Burma => (2, false),
            CName::LaosCambodia => (1, false),
            CName::Thailand => (2, true),
            CName::Vietnam => (1, false),
            CName::Malaysia => (2, false),
            CName::Indonesia => (1, false),
            CName::Philippines => (2, false),
            CName::Australia => (4, false),
            CName::Taiwan => (3, false),
            CName::Japan => (4, true),
            CName::SKorea => (3, true),
            CName::NKorea => (3, true),
            CName::Morocco => (3, false),
            CName::Algeria => (2, true),
            CName::Tunisia => (2, false),
            CName::WestAfricanStates => (2, false),
            CName::SaharanStates => (1, false),
            CName::Sudan => (1, false),
            CName::IvoryCoast => (2, false),
            CName::Nigeria => (1, true),
            CName::Ethiopia => (1, false),
            CName::Somalia => (2, false),
            CName::Cameroon => (1, false),
            CName::Zaire => (1, true),
            CName::Kenya => (2, false),
            CName::Angola => (1, true),
            CName::SEAfricanStates => (1, false),
            CName::Zimbabwe => (1, false),
            CName::Botswana => (2, false),
            CName::SouthAfrica => (3, true),
            CName::Mexico => (2, true),
            CName::Guatemala => (1, false),
            CName::ElSalvador => (1, false),
            CName::Honduras => (2, false),
            CName::CostaRica => (3, false),
            CName::Panama => (2, true),
            CName::Nicaragua => (1, false),
            CName::Cuba => (3, true),
            CName::Haiti => (1, false),
            CName::DominicanRep => (1, false),
            CName::Venezuela => (2, true),
            CName::Colombia => (1, false),
            CName::Ecuador => (2, false),
            CName::Peru => (2, false),
            CName::Brazil => (2, true),
            CName::Bolivia => (2, false),
            CName::Chile => (3, true),
            CName::Paraguay => (2, false),
            CName::Argentina => (2, true),
            CName::Uruguay => (2, false),
            CName::US => (6, false),
            CName::USSR => (6, false),
        }
    }

    /// The starting influence of (US, USSR) in this country.
    fn start_influence(&self) -> (r: (i8, i8))
        ensures
            r.0 == start_us(*self),
            r.1 == start_ussr(*self),
    {
        match self {
            CName::UK => (5, 0),
            CName::Canada => (2, 0),
            CName::Finland => (0, 1),
            CName::EGermany => (0, 3),
            CName::Syria => (0, 1),
            CName::Israel => (1, 0),
            CName::Iraq => (0, 1),
            CName::Iran => (1, 0),
            CName::Philippines => (1, 0),
            CName::Australia => (4, 0),
            CName::Japan => (1, 0),
            CName::SKorea => (1, 0),
            CName::NKorea => (0, 3),
            CName::SouthAfrica => (1, 0),
            CName::Panama => (1, 0),
            CName::US => (6, 0),
            CName::USSR => (0, 6),
            _ => (0, 0),
        }
    }
}

/// The adjacencies of the map, each listed once.
pub open spec fn edge_list() -> Seq<(CName, CName)> {
    seq![
        (CName::US, CName::Canada),
        (CName::Canada, CName::UK),
        (CName::UK, CName::France),
        (CName::UK, CName::Norway),
        (CName::UK, CName::Benelux),
        (CName::Norway, CName::Sweden),
        (CName::Sweden, CName::Denmark),
        (CName::Sweden, CName::Finland),
        (CName::Finland, CName::USSR),
        (CName::France, CName::WGermany),
        (CName::France, CName::Italy),
        (CName::France, CName::SpainPortugal),
        (CName::France, CName::Algeria),
        (CName::WGermany, CName::Benelux),
        (CName::WGermany, CName::Denmark),
        (CName::WGermany, CName::Austria),
        (CName::WGermany, CName::EGermany),
        (CName::EGermany, CName::Poland),
        (CName::EGermany, CName::Czechoslovakia),
        (CName::Poland, CName::USSR),
        (CName::Poland, CName::Czechoslovakia),
        (CName::Czechoslovakia, CName::Hungary),
        (CName::Austria, CName::Italy),
        (CName::Austria, CName::Hungary),
        (CName::Hungary, CName::Yugoslavia),
        (CName::Hungary, CName::Romania),
        (CName::Romania, CName::USSR),
        (CName::Romania, CName::Turkey),
        (CName::Romania, CName::Yugoslavia),
        (CName::Yugoslavia, CName::Italy),
        (CName::Yugoslavia, CName::Greece),
        (CName::Greece, CName::Italy),
        (CName::Greece, CName::Bulgaria),
        (CName::Greece, CName::Turkey),
        (CName::Bulgaria, CName::Turkey),
        (CName::Turkey, CName::Syria),
        (CName::Syria, CName::Lebanon),
        (CName::Syria, CName::Israel),
        (CName::Lebanon, CName::Israel),
        (CName::Lebanon, CName::Jordan),
        (CName::Israel, CName::Egypt),
        (CName::Israel, CName::Jordan),
        (CName::Egypt, CName::Libya),
        (CName::Egypt, CName::Sudan),
        (CName::Libya, CName::Tunisia),
        (CName::Jordan, CName::Iraq),
        (CName::Jordan, CName::SaudiaArabia),
        (CName::Iraq, CName::SaudiaArabia),
        (CName::Iraq, CName::GulfStates),
        (CName::Iraq, CName::Iran),
        (CName::SaudiaArabia, CName::GulfStates),
        (CName::Iran, CName::Afghanistan),
        (CName::Iran, CName::Pakistan),
        (CName::Afghanistan, CName::USSR),
        (CName::Afghanistan, CName::Pakistan),
        (CName::Pakistan, CName::India),
        (CName::India, CName::Burma),
        (CName::Burma, CName::LaosCambodia),
        (CName::LaosCambodia, CName::Thailand),
        (CName::LaosCambodia, CName::Vietnam),
        (CName::Thailand, CName::Vietnam),
        (CName::Thailand, CName::Malaysia),
        (CName::Malaysia, CName::Australia),
        (CName::Malaysia, CName::Indonesia),
        (CName::Indonesia, CName::Philippines),
        (CName::Philippines, CName::Japan),
        (CName::Japan, CName::US),
        (CName::Japan, CName::Taiwan),
        (CName::Japan, CName::SKorea),
        (CName::Taiwan, CName::SKorea),
        (CName::SKorea, CName::NKorea),
        (CName::NKorea, CName::USSR),
        (CName::SpainPortugal, CName::Morocco),
        (CName::SpainPortugal, CName::Italy),
        (CName::Morocco, CName::Algeria),
        (CName::Algeria, CName::Tunisia),
        (CName::Algeria, CName::SaharanStates),
        (CName::Morocco, CName::WestAfricanStates),
        (CName::WestAfricanStates, CName::IvoryCoast),
        (CName::IvoryCoast, CName::Nigeria),
        (CName::SaharanStates, CName::Nigeria),
        (CName::Nigeria, CName::Cameroon),
        (CName::Cameroon, CName::Zaire),
        (CName::Zaire, CName::Angola),
        (CName::Zaire, CName::Zimbabwe),
        (CName::Angola, CName::Botswana),
        (CName::Angola, CName::SouthAfrica),
        (CName::SouthAfrica, CName::Botswana),
        (CName::Botswana, CName::Zimbabwe),
        (CName::Zimbabwe, CName::SEAfricanStates),
        (CName::SEAfricanStates, CName::Kenya),
        (CName::Kenya, CName::Somalia),
        (CName::Somalia, CName::Ethiopia),
        (CName::Sudan, CName::Ethiopia),
        (CName::US, CName::Mexico),
        (CName::US, CName::Cuba),
        (CName::Mexico, CName::Guatemala),
        (CName::Guatemala, CName::ElSalvador),
        (CName::ElSalvador, CName::Honduras),
        (CName::Guatemala, CName::Honduras),
        (CName::Honduras, CName::CostaRica),
        (CName::Honduras, CName::Nicaragua),
        (CName::Nicaragua, CName::Cuba),
        (CName::Cuba, CName::Haiti),
        (CName::Haiti, CName::DominicanRep),
        (CName::CostaRica, CName::Panama),
        (CName::Panama, CName::Colombia),
        (CName::Colombia, CName::Venezuela),
        (CName::Colombia, CName::Ecuador),
        (CName::Venezuela, CName::Brazil),
        (CName::Brazil, CName::Uruguay),
        (CName::Uruguay, CName::Paraguay),
        (CName::Uruguay, CName::Argentina),
        (CName::Paraguay, CName::Argentina),
        (CName::Paraguay, CName::Bolivia),
        (CName::Bolivia, CName::Peru),
        (CName::Argentina, CName::Chile),
        (CName::Chile, CName::Peru),
        (CName::Peru, CName::Ecuador),
        (CName::EGermany, CName::Austria),
        (CName::Nicaragua, CName::CostaRica),
    ]
}

/// Returns the adjacencies of the map, each listed once.
pub fn edges() -> (r: Vec<(CName, CName)>)
    ensures
        r@ == edge_list(),
{
    vec![
        (CName::US, CName::Canada),
        (CName::Canada, CName::UK),
        (CName::UK, CName::France),
        (CName::UK, CName::Norway),
        (CName::UK, CName::Benelux),
        (CName::Norway, CName::Sweden),
        (CName::Sweden, CName::Denmark),
        (CName::Sweden, CName::Finland),
        (CName::Finland, CName::USSR),
        (CName::France, CName::WGermany),
        (CName::France, CName::Italy),
        (CName::France, CName::SpainPortugal),
        (CName::France, CName::Algeria),
        (CName::WGermany, CName::Benelux),
        (CName::WGermany, CName::Denmark),
        (CName::WGermany, CName::Austria),
        (CName::WGermany, CName::EGermany),
        (CName::EGermany, CName::Poland),
        (CName::EGermany, CName::Czechoslovakia),
        (CName::Poland, CName::USSR),
        (CName::Poland, CName::Czechoslovakia),
        (CName::Czechoslovakia, CName::Hungary),
        (CName::Austria, CName::Italy),
        (CName::Austria, CName::Hungary),
        (CName::Hungary, CName::Yugoslavia),
        (CName::Hungary, CName::Romania),
        (CName::Romania, CName::USSR),
        (CName::Romania, CName::Turkey),
        (CName::Romania, CName::Yugoslavia),
        (CName::Yugoslavia, CName::Italy),
        (CName::Yugoslavia, CName::Greece),
        (CName::Greece, CName::Italy),
        (CName::Greece, CName::Bulgaria),
        (CName::Greece, CName::Turkey),
        (CName::Bulgaria, CName::Turkey),
        (CName::Turkey, CName::Syria),
        (CName::Syria, CName::Lebanon),
        (CName::Syria, CName::Israel),
        (CName::Lebanon, CName::Israel),
        (CName::Lebanon, CName::Jordan),
        (CName::Israel, CName::Egypt),
        (CName::Israel, CName::Jordan),
        (CName::Egypt, CName::Libya),
        (CName::Egypt, CName::Sudan),
        (CName::Libya, CName::Tunisia),
        (CName::Jordan, CName::Iraq),
        (CName::Jordan, CName::SaudiaArabia),
        (CName::Iraq, CName::SaudiaArabia),
        (CName::Iraq, CName::GulfStates),
        (CName::Iraq, CName::Iran),
        (CName::SaudiaArabia, CName::GulfStates),
        (CName::Iran, CName::Afghanistan),
        (CName::Iran, CName::Pakistan),
        (CName::Afghanistan, CName::USSR),
        (CName::Afghanistan, CName::Pakistan),
        (CName::Pakistan, CName::India),
        (CName::India, CName::Burma),
        (CName::Burma, CName::LaosCambodia),
        (CName::LaosCambodia, CName::Thailand),
        (CName::LaosCambodia, CName::Vietnam),
        (CName::Thailand, CName::Vietnam),
        (CName::Thailand, CName::Malaysia),
        (CName::Malaysia, CName::Australia),
        (CName::Malaysia, CName::Indonesia),
        (CName::Indonesia, CName::Philippines),
        (CName::Philippines, CName::Japan),
        (CName::Japan, CName::US),
        (CName::Japan, CName::Taiwan),
        (CName::Japan, CName::SKorea),
        (CName::Taiwan, CName::SKorea),
        (CName::SKorea, CName::NKorea),
        (CName::NKorea, CName::USSR),
        (CName::SpainPortugal, CName::Morocco),
        (CName::SpainPortugal, CName::Italy),
        (CName::Morocco, CName::Algeria),
        (CName::Algeria, CName::Tunisia),
        (CName::Algeria, CName::SaharanStates),
        (CName::Morocco, CName::WestAfricanStates),
        (CName::WestAfricanStates, CName::IvoryCoast),
        (CName::IvoryCoast, CName::Nigeria),
        (CName::SaharanStates, CName::Nigeria),
        (CName::Nigeria, CName::Cameroon),
        (CName::Cameroon, CName::Zaire),
        (CName::Zaire, CName::Angola),
        (CName::Zaire, CName::Zimbabwe),
        (CName::Angola, CName::Botswana),
        (CName::Angola, CName::SouthAfrica),
        (CName::SouthAfrica, CName::Botswana),
        (CName::Botswana, CName::Zimbabwe),
        (CName::Zimbabwe, CName::SEAfricanStates),
        (CName::SEAfricanStates, CName::Kenya),
        (CName::Kenya, CName::Somalia),
        (CName::Somalia, CName::Ethiopia),
        (CName::Sudan, CName::Ethiopia),
        (CName::US, CName::Mexico),
        (CName::US, CName::Cuba),
        (CName::Mexico, CName::Guatemala),
        (CName::Guatemala, CName::ElSalvador),
        (CName::ElSalvador, CName::Honduras),
        (CName::Guatemala, CName::Honduras),
        (CName::Honduras, CName::CostaRica),
        (CName::Honduras, CName::Nicaragua),
        (CName::Nicaragua, CName::Cuba),
        (CName::Cuba, CName::Haiti),
        (CName::Haiti, CName::DominicanRep),
        (CName::CostaRica, CName::Panama),
        (CName::Panama, CName::Colombia),
        (CName::Colombia, CName::Venezuela),
        (CName::Colombia, CName::Ecuador),
        (CName::Venezuela, CName::Brazil),
        (CName::Brazil, CName::Uruguay),
        (CName::Uruguay, CName::Paraguay),
        (CName::Uruguay, CName::Argentina),
        (CName::Paraguay, CName::Argentina),
        (CName::Paraguay, CName::Bolivia),
        (CName::Bolivia, CName::Peru),
        (CName::Argentina, CName::Chile),
        (CName::Chile, CName::Peru),
        (CName::Peru, CName::Ecuador),
        (CName::EGermany, CName::Austria),
        (CName::Nicaragua, CName::CostaRica),
    ]
}

/// The neighbours of a map index under a list of adjacencies, in the order in which the
/// adjacencies that name it are listed.
pub open spec fn neighbors(es: Seq<(CName, CName)>, v: usize) -> Seq<usize>
    decreases es.len(),
{
    if es.len() == 0 {
        seq![]
    } else {
        let prev = neighbors(es.drop_last(), v);
        let a = es.last().0;
        let b = es.last().1;
        let with_a = if cname_index(a) == v { prev.push(cname_index(b)) } else { prev };
        if cname_index(b) == v { with_a.push(cname_index(a)) } else { with_a }
    }
}

/// A pushed sequence holds what the sequence held and the pushed element.
pub proof fn lemma_push_contains(s: Seq<usize>, e: usize, y: usize)
    ensures
        s.push(e).contains(y) <==> (s.contains(y) || y == e),
{
    if s.push(e).contains(y) {
        let k = choose|k: int| 0 <= k < s.push(e).len() && s.push(e)[k] == y;
        if k < s.len() {
            assert(s[k] == y);
        }
    }
    if s.contains(y) {
        let k = choose|k: int| 0 <= k < s.len() && s[k] == y;
        assert(s.push(e)[k] == y);
    }
    if y == e {
        assert(s.push(e)[s.len() as int] == y);
    }
}

/// Adjacency goes both ways: `x` neighbours `v` exactly when `v` neighbours `x`.
pub proof fn lemma_neighbors_symmetric(es: Seq<(CName, CName)>, v: usize, x: usize)
    ensures
        neighbors(es, v).contains(x) <==> neighbors(es, x).contains(v),
    decreases es.len(),
{
    if es.len() > 0 {
        lemma_neighbors_symmetric(es.drop_last(), v, x);
        let a = cname_index(es.last().0);
        let b = cname_index(es.last().1);
        let pv = neighbors(es.drop_last(), v);
        let px = neighbors(es.drop_last(), x);
        let wv = if a == v { pv.push(b) } else { pv };
        let wx = if a == x { px.push(b) } else { px };
        if a == v { lemma_push_contains(pv, b, x); }
        if a == x { lemma_push_contains(px, b, v); }
        if b == v { lemma_push_contains(wv, a, x); }
        if b == x { lemma_push_contains(wx, a, v); }
    }
}

/// The map's adjacency lists are symmetric.
pub proof fn lemma_adjacency_symmetric(v: usize, x: usize)
    ensures
        neighbors(edge_list(), v).contains(x) <==> neighbors(edge_list(), x).contains(v),
{
    lemma_neighbors_symmetric(edge_list(), v, x);
}

/// Builds, for each map index, the list of its neighbours.
pub fn adjacency_list() -> (r: Vec<Vec<usize>>)
    ensures
        r.len() == NUM_COUNTRIES,
        forall|v: int| 0 <= v < NUM_COUNTRIES ==> #[trigger] r@[v]@ == neighbors(edge_list(), v as usize),
{
    let e = edges();
    let mut adj: Vec<Vec<usize>> = Vec::new();
    let mut v: usize = 0;
    while v < NUM_COUNTRIES
        invariant
            v <= NUM_COUNTRIES,
            e@ == edge_list(),
            adj.len() == v,
            forall|w: int| 0 <= w < v ==> #[trigger] adj@[w]@ == neighbors(edge_list(), w as usize),
        decreases NUM_COUNTRIES - v,
    {
        let mut list: Vec<usize> = Vec::new();
        let mut k: usize = 0;
        while k < e.len()
            invariant
                k <= e.len(),
                e@ == edge_list(),
                list@ == neighbors(e@.take(k as int), v),
            decreases e.len() - k,
        {
            proof {
                assert(e@.take(k + 1).drop_last() =~= e@.take(k as int));
            }
            let (a, b) = e[k];
            let ai = a.index();
            let bi = b.index();
            if ai == v {
                list.push(bi);
            }
            if bi == v {
                list.push(ai);
            }
            k = k + 1;
        }
        proof {
            assert(e@.take(e.len() as int) =~= e@);
        }
        adj.push(list);
        v = v + 1;
    }
    adj
}

/// The neighbours of one map index, in the order the adjacencies list them.
pub fn neighbors_of(v: usize) -> (r: Vec<usize>)
    ensures
        r@ == neighbors(edge_list(), v),
{
    let e = edges();
    let mut list: Vec<usize> = Vec::new();
    let mut k: usize = 0;
    while k < e.len()
        invariant
            k <= e.len(),
            e@ == edge_list(),
            list@ == neighbors(e@.take(k as int), v),
        decreases e.len() - k,
    {
        proof {
            assert(e@.take(k + 1).drop_last() =~= e@.take(k as int));
        }
        let (a, b) = e[k];
        let ai = a.index();
        let bi = b.index();
        if ai == v {
            list.push(bi);
        }
        if bi == v {
            list.push(ai);
        }
        k = k + 1;
    }
    proof {
        assert(e@.take(e.len() as int) =~= e@);
    }
    list
}

/// Every neighbour is a map index.
pub proof fn lemma_neighbors_bound(es: Seq<(CName, CName)>, v: usize)
    ensures
        forall|j: int| 0 <= j < neighbors(es, v).len() ==> #[trigger] neighbors(es, v)[j] < NUM_COUNTRIES,
    decreases es.len(),
{
    if es.len() > 0 {
        lemma_neighbors_bound(es.drop_last(), v);
        lemma_cname_index_inverse(es.last().0);
        lemma_cname_index_inverse(es.last().1);
        let prev = neighbors(es.drop_last(), v);
        let a = es.last().0;
        let b = es.last().1;
        let with_a = if cname_index(a) == v { prev.push(cname_index(b)) } else { prev };
        assert forall|j: int| 0 <= j < with_a.len() implies #[trigger] with_a[j] < NUM_COUNTRIES by {
            if j < prev.len() {
                assert(with_a[j] == prev[j]);
            }
        }
        let all = neighbors(es, v);
        assert forall|j: int| 0 <= j < all.len() implies #[trigger] all[j] < NUM_COUNTRIES by {
            if j < with_a.len() {
                assert(all[j] == with_a[j]);
            }
        }
    }
}

/// India and Pakistan.
pub fn india_pakistan() -> (r: Vec<usize>)
    ensures
        r@ == seq![cname_index(CName::India), cname_index(CName::Pakistan)],
{
    vec![CName::India.index(), CName::Pakistan.index()]
}

/// The countries Suez Crisis targets.
pub fn suez() -> (r: Vec<usize>)
    ensures
        r@ == seq![cname_index(CName::France), cname_index(CName::UK), cname_index(CName::Israel)],
{
    vec![CName::France.index(), CName::UK.index(), CName::Israel.index()]
}

/// The countries OPEC counts.
pub fn opec() -> (r: Vec<usize>)
    ensures
        r@ == seq![
            cname_index(CName::Egypt),
            cname_index(CName::Iran),
            cname_index(CName::Libya),
            cname_index(CName::SaudiaArabia),
            cname_index(CName::Iraq),
            cname_index(CName::GulfStates),
            cname_index(CName::Venezuela),
        ],
{
    vec![
        CName::Egypt.index(),
        CName::Iran.index(),
        CName::Libya.index(),
        CName::SaudiaArabia.index(),
        CName::Iraq.index(),
        CName::GulfStates.index(),
        CName::Venezuela.index(),
    ]
}

/// The countries Independent Reds targets.
pub fn ind_reds() -> (r: Vec<usize>)
    ensures
        r@ == seq![
            cname_index(CName::Yugoslavia),
            cname_index(CName::Romania),
            cname_index(CName::Bulgaria),
            cname_index(CName::Hungary),
            cname_index(CName::Czechoslovakia),
        ],
{
    vec![
        CName::Yugoslavia.index(),
        CName::Romania.index(),
        CName::Bulgaria.index(),
        CName::Hungary.index(),
        CName::Czechoslovakia.index(),
    ]
}

/// South America followed by Central America.
pub fn latin_america() -> (r: Vec<usize>)
    ensures
        r@ == region_countries(Region::SouthAmerica) + region_countries(Region::CentralAmerica),
{
    let mut v = Region::SouthAmerica.all_countries();
    let mut w = Region::CentralAmerica.all_countries();
    v.append(&mut w);
    v
}

/// Iran and Iraq.
pub fn iran_iraq() -> (r: Vec<usize>)
    ensures
        r@ == seq![cname_index(CName::Iran), cname_index(CName::Iraq)],
{
    vec![CName::Iran.index(), CName::Iraq.index()]
}

/// Africa followed by Southeast Asia.
pub fn decol() -> (r: Vec<usize>)
    ensures
        r@ == region_countries(Region::Africa) + region_countries(Region::SoutheastAsia),
{
    let mut v = Region::Africa.all_countries();
    let mut w = Region::SoutheastAsia.all_countries();
    v.append(&mut w);
    v
}

/// The map indices, in increasing order, whose stability is at most two.
pub open spec fn brush_spec() -> Seq<usize> {
    Seq::new(NUM_COUNTRIES as nat, |i: int| i as usize).filter(
        |i: usize| base_stability(cname_of(i)) <= 2,
    )
}

/// The countries Brush War may target: those of stability at most two, in map order.
pub fn brush_targets() -> (r: Vec<usize>)
    ensures
        r@ == brush_spec(),
{
    let all = countries();
    let mut v: Vec<usize> = Vec::new();
    let mut i: usize = 0;
    let ghost idx = Seq::new(NUM_COUNTRIES as nat, |i: int| i as usize);
    let ghost pred = |i: usize| base_stability(cname_of(i)) <= 2;
    while i < NUM_COUNTRIES
        invariant
            i <= NUM_COUNTRIES,
            all.len() == NUM_COUNTRIES,
            forall|j: int| 0 <= j < NUM_COUNTRIES ==> #[trigger] all@[j] == base_country(cname_of(j as usize)),
            idx == Seq::new(NUM_COUNTRIES as nat, |i: int| i as usize),
            pred == (|i: usize| base_stability(cname_of(i)) <= 2),
            v@ == idx.take(i as int).filter(pred),
        decreases NUM_COUNTRIES - i,
    {
        proof {
            reveal_with_fuel(Seq::<_>::filter, 1);
            assert(idx.take(i + 1).drop_last() =~= idx.take(i as int));
        }
        if all[i].stability <= 2 {
            v.push(i);
        }
        i = i + 1;
    }
    proof {
        assert(idx.take(NUM_COUNTRIES as int) =~= idx);
    }
    v
}

/// Whether a country's influence counts towards access: the side has influence there, and
/// under Iron Lady Argentina gives the USSR none.
pub open(crate) spec fn grants_access(s: GameState, side: Side, j: int) -> bool {
    &&& influence_spec(s.countries_v()[j], side) > 0
    &&& !(s.iron_lady_v() && side == Side::USSR && j == cname_index(CName::Argentina) as int)
}

/// Whether one of the first `k` map entries grants a side access to index `i`: it is that
/// country, or a neighbour of it.
pub open(crate) spec fn reaches(s: GameState, side: Side, i: usize, k: int) -> bool
    decreases k,
{
    if k <= 0 {
        false
    } else {
        reaches(s, side, i, k - 1) || (grants_access(s, side, k - 1)
            && ((k - 1) as usize == i || neighbors(edge_list(), (k - 1) as usize).contains(i)))
    }
}

/// The countries a side may place influence in, in map order: those where it has influence
/// and their neighbours, the superpowers excluded.
pub open(crate) spec fn access_spec(s: GameState, side: Side) -> Seq<usize> {
    Seq::new((NUM_COUNTRIES - 2) as nat, |i: int| i as usize).filter(|i: usize| reaches(s, side, i, NUM_COUNTRIES as int))
}

/// Returns the map indices a side may place influence in, in map order.
pub fn access(state: &GameState, side: Side) -> (r: Vec<usize>)
    requires
        state.wf(),
        side != Side::Neutral,
    ensures
        r@ == access_spec(*state, side),
{
    let arg = CName::Argentina.index();
    let mut marks: Vec<bool> = Vec::new();
    let mut t: usize = 0;
    while t < NUM_COUNTRIES
        invariant
            t <= NUM_COUNTRIES,
            marks.len() == t,
            forall|i: int| 0 <= i < t ==> !#[trigger] marks@[i],
        decreases NUM_COUNTRIES - t,
    {
        marks.push(false);
        t = t + 1;
    }
    let mut j: usize = 0;
    while j < NUM_COUNTRIES
        invariant
            j <= NUM_COUNTRIES,
            marks.len() == NUM_COUNTRIES,
            state.wf(),
            side != Side::Neutral,
            arg == cname_index(CName::Argentina),
            forall|i: int| 0 <= i < NUM_COUNTRIES ==> #[trigger] marks@[i] == reaches(*state, side, i as usize, j as int),
        decreases NUM_COUNTRIES - j,
    {
        let ok = state.countries[j].has_influence(side) && !(state.iron_lady && side == Side::USSR && j == arg);
        let ghost before = marks@;
        if ok {
            let nb = neighbors_of(j);
            proof { lemma_neighbors_bound(edge_list(), j); }
            let mut k: usize = 0;
            while k < nb.len()
                invariant
                    k <= nb.len(),
                    j < NUM_COUNTRIES,
                    marks.len() == NUM_COUNTRIES,
                    before.len() == NUM_COUNTRIES,
                    nb@ == neighbors(edge_list(), j),
                    forall|q: int| 0 <= q < nb@.len() ==> #[trigger] nb@[q] < NUM_COUNTRIES,
                    forall|i: int| 0 <= i < NUM_COUNTRIES ==> #[trigger] marks@[i] == (before[i] || nb@.take(k as int).contains(i as usize)),
                decreases nb.len() - k,
            {
                let v = nb[k];
                proof {
                    assert(nb@.take(k + 1) =~= nb@.take(k as int).push(v));
                    assert forall|i: int| 0 <= i < NUM_COUNTRIES implies
                        #[trigger] nb@.take(k + 1).contains(i as usize) == (nb@.take(k as int).contains(i as usize) || v == i as usize) by {
                        lemma_push_contains(nb@.take(k as int), v, i as usize);
                    }
                }
                marks.set(v, true);
                k = k + 1;
            }
            proof { assert(nb@.take(nb.len() as int) =~= nb@); }
            marks.set(j, true);
        }
        proof {
            assert forall|i: int| 0 <= i < NUM_COUNTRIES implies #[trigger] marks@[i] == reaches(*state, side, i as usize, j + 1) by {
                assert(reaches(*state, side, i as usize, j + 1) == (reaches(*state, side, i as usize, j as int)
                    || (grants_access(*state, side, j as int) && (j == i as usize || neighbors(edge_list(), j).contains(i as usize)))));
            }
        }
        j = j + 1;
    }
    let ghost pred = |i: usize| reaches(*state, side, i, NUM_COUNTRIES as int);
    let ghost idx = Seq::new((NUM_COUNTRIES - 2) as nat, |i: int| i as usize);
    let mut out: Vec<usize> = Vec::new();
    let mut i: usize = 0;
    while i < NUM_COUNTRIES - 2
        invariant
            i <= NUM_COUNTRIES - 2,
            marks.len() == NUM_COUNTRIES,
            forall|q: int| 0 <= q < NUM_COUNTRIES ==> #[trigger] marks@[q] == pred(q as usize),
            idx == Seq::new((NUM_COUNTRIES - 2) as nat, |q: int| q as usize),
            out@ == idx.take(i as int).filter(pred),
        decreases NUM_COUNTRIES - 2 - i,
    {
        proof {
            reveal_with_fuel(Seq::<_>::filter, 1);
            assert(idx.take(i + 1).drop_last() =~= idx.take(i as int));
        }
        if marks[i] {
            out.push(i);
        }
        i = i + 1;
    }
    proof { assert(idx.take(idx.len() as int) =~= idx); }
    out
}

} // verus!
