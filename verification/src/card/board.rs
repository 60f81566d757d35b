use vstd::prelude::*;
use crate::card::{Card, Effect};
use crate::card::event::{alliance_count, small_step_vp};
use crate::country::scoring::{effects_after_score, first_pos, score_outcome};
use crate::country::{cname_index, influence_spec, opposite_spec, side_index, CName, Country, Region, Side};
use crate::state::{
    clamp_defcon, control_spec, mil_ops_add, space_success, space_vp, war_flip_spec, war_wins,
    with_influence, GameState,
};

verus! {

/// The board after an event: the map, the victory points, DEFCON, the military operations,
/// the space race with its attempts, and each side's lasting effects are as given.
pub open(crate) spec fn board(s: GameState, m: Seq<Country>, vp: int, defcon: int, mil: Seq<i8>,
    space: Seq<i8>, attempts: Seq<i8>, us: Seq<Effect>, ussr: Seq<Effect>) -> bool {
    &&& s.countries_v() == m
    &&& s.vp_v() == vp
    &&& s.defcon_v() == defcon
    &&& s.mil_ops_v()@ == mil
    &&& s.space_v()@ == space
    &&& s.attempts_v()@ == attempts
    &&& s.effects_v(Side::US) == us
    &&& s.effects_v(Side::USSR) == ussr
}

/// The board of one state, the same in another.
pub open(crate) spec fn board_kept(s0: GameState, s1: GameState) -> bool {
    board(s1, s0.countries_v(), s0.vp_v() as int, s0.defcon_v() as int, s0.mil_ops_v()@, s0.space_v()@,
        s0.attempts_v()@, s0.effects_v(Side::US), s0.effects_v(Side::USSR))
}

/// The map with a side's influence in a country moved by `k`.
pub open(crate) spec fn bumped(m: Seq<Country>, side: Side, n: CName, k: int) -> Seq<Country> {
    let i = cname_index(n) as int;
    m.update(i, with_influence(m[i], side, influence_spec(m[i], side) + k))
}

/// The map with a side's influence in a country removed.
pub open(crate) spec fn cleared(m: Seq<Country>, side: Side, n: CName) -> Seq<Country> {
    let i = cname_index(n) as int;
    m.update(i, with_influence(m[i], side, 0))
}

/// The map with a side given just enough influence to control a country.
pub open(crate) spec fn controlled(m: Seq<Country>, side: Side, n: CName) -> Seq<Country> {
    let i = cname_index(n) as int;
    m.update(i, control_spec(m[i], side))
}

/// A side's lasting effects after an effect is filed for `owner`.
pub open(crate) spec fn filed(v: Seq<Effect>, list_side: Side, owner: Side, e: Effect) -> Seq<Effect> {
    if list_side == owner { v.push(e) } else { v }
}

/// A list of effects without the first occurrence of an effect, the last one taking its place.
pub open(crate) spec fn without(v: Seq<Effect>, e: Effect) -> Seq<Effect> {
    if v.contains(e) { v.update(first_pos(v, e), v.last()).drop_last() } else { v }
}

/// The board after a war in a named country: the attacker's military operations grow by two,
/// and a won war flips the country and moves the points by two for the attacker.
pub open(crate) spec fn war_board(s0: GameState, s1: GameState, attacker: Side, n: CName, roll: i8) -> bool {
    let i = cname_index(n) as int;
    let m = s0.countries_v();
    let wins = war_wins(s0, attacker, i as usize, roll);
    let k = side_index(attacker) as int;
    board(s1, if wins { m.update(i, war_flip_spec(m[i], attacker)) } else { m },
        if wins { if attacker == Side::US { s0.vp_v() + 2 } else { s0.vp_v() - 2 } } else { s0.vp_v() as int },
        s0.defcon_v() as int, s0.mil_ops_v()@.update(k, mil_ops_add(s0.mil_ops_v()[k], 2)), s0.space_v()@,
        s0.attempts_v()@, s0.effects_v(Side::US), s0.effects_v(Side::USSR))
}

/// The die roll of the Arab-Israeli War: one less when the US controls Israel.
pub open(crate) spec fn israel_roll(m: Seq<Country>, roll: i8) -> i8 {
    if crate::country::controller_spec(m[cname_index(CName::Israel) as int]) == Side::US { (roll - 1) as i8 } else { roll }
}

/// The board after a space race attempt of a side with a roll, from the given boxes.
pub open(crate) spec fn space_board(s0: GameState, s1: GameState, side: Side, space: Seq<i8>, roll: i8, points: int) -> bool {
    let i = side_index(side) as int;
    let ok = space_success(space[i] as int, roll);
    board(s1, s0.countries_v(), if ok { ((s0.vp_v() + points) as i8) as int } else { s0.vp_v() as int },
        s0.defcon_v() as int, s0.mil_ops_v()@, if ok { space.update(i, (space[i] + 1) as i8) } else { space },
        s0.attempts_v()@.update(i, (s0.attempts_v()[i] + 1) as i8), s0.effects_v(Side::US), s0.effects_v(Side::USSR))
}

/// The board after a region is scored.
pub open(crate) spec fn scored_board(s0: GameState, s1: GameState, r: Region) -> bool {
    board(s1, s0.countries_v(), score_outcome(r, s0).0, s0.defcon_v() as int, s0.mil_ops_v()@, s0.space_v()@,
        s0.attempts_v()@, effects_after_score(r, s0), s0.effects_v(Side::USSR))
}

/// The board after an event that only moves the points, DEFCON and the map, and files an
/// effect for `owner` (none when `e` is None).
pub open(crate) spec fn simple_board(s0: GameState, s1: GameState, m: Seq<Country>, vp: int, defcon: int,
    owner: Side, e: Option<Effect>) -> bool {
    let us = s0.effects_v(Side::US);
    let ussr = s0.effects_v(Side::USSR);
    board(s1, m, vp, defcon, s0.mil_ops_v()@, s0.space_v()@, s0.attempts_v()@,
        match e { Some(x) => filed(us, Side::US, owner, x), None => us },
        match e { Some(x) => filed(ussr, Side::USSR, owner, x), None => ussr })
}

/// What the events of the cards up to Decolonization do to the board, played by `side`.
pub open(crate) spec fn board_a(c: Card, s0: GameState, s1: GameState, side: Side) -> bool {
    let m = s0.countries_v();
    let vp = s0.vp_v() as int;
    let d = s0.defcon_v() as int;
    match c {
        Card::Asia_Scoring => scored_board(s0, s1, Region::Asia),
        Card::Europe_Scoring => scored_board(s0, s1, Region::Europe),
        Card::Middle_East_Scoring => scored_board(s0, s1, Region::MiddleEast),
        Card::Duck_and_Cover => simple_board(s0, s1, m, vp + 5 - clamp_defcon(d - 1), clamp_defcon(d - 1) as int, side, None),
        Card::Fidel => simple_board(s0, s1, controlled(cleared(m, Side::US, CName::Cuba), Side::USSR, CName::Cuba), vp, d, side, None),
        Card::Vietnam_Revolts => simple_board(s0, s1, bumped(m, Side::USSR, CName::Vietnam, 2), vp, d,
            Side::USSR, Some(Effect::VietnamRevolts)),
        Card::Korean_War => exists|roll: i8| 1 <= roll <= 6 && #[trigger] war_board(s0, s1, Side::USSR, CName::SKorea, roll),
        Card::Romanian_Abdication => simple_board(s0, s1, controlled(cleared(m, Side::US, CName::Romania), Side::USSR, CName::Romania),
            vp, d, side, None),
        Card::Arab_Israeli_War => exists|roll: i8| 1 <= roll <= 6 && #[trigger] war_board(s0, s1, Side::USSR, CName::Israel,
            israel_roll(m, roll)),
        Card::Nasser => {
            let m1 = bumped(m, Side::USSR, CName::Egypt, 2);
            let u = m1[cname_index(CName::Egypt) as int].us as int;
            simple_board(s0, s1, bumped(m1, Side::US, CName::Egypt, u / 2 - u), vp, d, side, None)
        },
        Card::De_Gaulle_Leads_France => {
            let u = m[cname_index(CName::France) as int].us as int;
            let remove = if 2 < u { 2 } else { u };
            simple_board(s0, s1, bumped(bumped(m, Side::US, CName::France, -remove), Side::USSR, CName::France, 1), vp, d,
                Side::USSR, Some(Effect::DeGaulle))
        },
        Card::Captured_Nazi_Scientist => space_board(s0, s1, side, s0.space_v()@, 1, space_vp(s0, side)),
        Card::NATO => simple_board(s0, s1, m, vp, d, Side::US, Some(Effect::Nato)),
        Card::Marshall_Plan => simple_board(s0, s1, m, vp, d, Side::US,
            if s0.effects_v(Side::US).contains(Effect::AllowNato) { None } else { Some(Effect::AllowNato) }),
        Card::Containment => simple_board(s0, s1, m, vp, d, Side::US, Some(Effect::Containment)),
        Card::CIA_Created => simple_board(s0, s1, m, vp, d, Side::US, Some(Effect::USSR_Hand_Revealed)),
        Card::US_Japan_Mutual_Defense_Pact => simple_board(s0, s1, controlled(m, Side::US, CName::Japan), vp, d,
            Side::US, Some(Effect::US_Japan)),
        _ => board_kept(s0, s1),
    }
}

/// What the events of the cards from Red Scare/Purge to the U2 Incident do to the board,
/// played by `side`. Summit is told only as far as the points move by two or not at all.
pub open(crate) spec fn board_b(c: Card, s0: GameState, s1: GameState, side: Side) -> bool {
    let m = s0.countries_v();
    let vp = s0.vp_v() as int;
    let d = s0.defcon_v() as int;
    let opp = opposite_spec(side);
    let mil = s0.mil_ops_v()@;
    match c {
        Card::Red_Scare_Purge => simple_board(s0, s1, m, vp, d, s0.side_v(), Some(Effect::RedScarePurge)),
        Card::UN_Intervention => simple_board(s0, s1, m,
            if s0.effects_v(Side::USSR).contains(Effect::U2) { vp - 1 } else { vp }, d, side, None),
        Card::Nuclear_Test_Ban => simple_board(s0, s1, m,
            if s0.side_v() == Side::US { vp + (d - 2) } else { vp - (d - 2) }, clamp_defcon(d + 2) as int, side, None),
        Card::Formosan_Resolution => simple_board(s0, s1, m, vp, d, Side::US, Some(Effect::FormosanResolution)),
        Card::Central_America_Scoring => scored_board(s0, s1, Region::CentralAmerica),
        Card::Southeast_Asia_Scoring => scored_board(s0, s1, Region::SoutheastAsia),
        Card::Arms_Race => {
            let mine = mil[side_index(side) as int];
            let theirs = mil[side_index(opp) as int];
            simple_board(s0, s1, m, if mine > theirs { if mine >= d { vp + 3 } else { vp + 1 } } else { vp }, d, side, None)
        },
        Card::Cuban_Missile_Crisis => simple_board(s0, s1, m, vp, 2, opp, Some(Effect::CubanMissileCrisis)),
        Card::Nuclear_Subs => simple_board(s0, s1, m, vp, d, side, Some(Effect::NuclearSubs)),
        Card::Quagmire => board(s1, m, vp, d, mil, s0.space_v()@, s0.attempts_v()@,
            without(filed(s0.effects_v(Side::US), Side::US, opp, Effect::Quagmire), Effect::Norad),
            filed(s0.effects_v(Side::USSR), Side::USSR, opp, Effect::Quagmire)),
        Card::SALT_Negotiations => board(s1, m, vp, d, mil, s0.space_v()@, s0.attempts_v()@,
            s0.effects_v(Side::US).push(Effect::SALT), s0.effects_v(Side::USSR).push(Effect::SALT)),
        Card::Bear_Trap => simple_board(s0, s1, m, vp, d, opp, Some(Effect::BearTrap)),
        Card::Summit => {
            &&& s1.vp_v() == vp + 2 || s1.vp_v() == vp || s1.vp_v() == vp - 2
            &&& board(s1, m, s1.vp_v() as int, d, mil, s0.space_v()@, s0.attempts_v()@,
                s0.effects_v(Side::US), s0.effects_v(Side::USSR))
        },
        Card::How_I_Learned_To_Stop_Worrying => board(s1, m, vp, d,
            mil.update(side_index(side) as int, mil_ops_add(mil[side_index(side) as int], 5)),
            s0.space_v()@, s0.attempts_v()@, s0.effects_v(Side::US), s0.effects_v(Side::USSR)),
        Card::Kitchen_Debates => simple_board(s0, s1, m, vp + 2, d, side, None),
        Card::We_Will_Bury_You => simple_board(s0, s1, m, vp, clamp_defcon(d - 1) as int, Side::US, Some(Effect::WWBY)),
        Card::Portuguese_Empire_Crumbles => simple_board(s0, s1,
            bumped(bumped(m, Side::USSR, CName::Angola, 2), Side::USSR, CName::SEAfricanStates, 2), vp, d, side, None),
        Card::Allende => simple_board(s0, s1, bumped(m, Side::USSR, CName::Chile, 2), vp, d, side, None),
        Card::Willy_Brandt => simple_board(s0, s1, bumped(m, Side::USSR, CName::WGermany, 1), vp - 1, d,
            Side::USSR, Some(Effect::WillyBrandt)),
        Card::ABM_Treaty => simple_board(s0, s1, m, vp, clamp_defcon(d + 1) as int, side, None),
        Card::Cultural_Revolution => simple_board(s0, s1, m,
            if s0.deck_v().china_holder() == Side::US { vp } else { vp - 1 }, d, side, None),
        Card::Flower_Power => simple_board(s0, s1, m, vp, d, Side::USSR, Some(Effect::FlowerPower)),
        Card::Brezhnev_Doctrine => simple_board(s0, s1, m, vp, d, Side::USSR, Some(Effect::Brezhnev)),
        Card::U2_Incident => simple_board(s0, s1, m, vp - 1, d, Side::USSR, Some(Effect::U2)),
        _ => board_kept(s0, s1),
    }
}

/// What the events of the cards from OPEC to the Ussuri River Skirmish do to the board,
/// played by `side`.
pub open(crate) spec fn board_c(c: Card, s0: GameState, s1: GameState, side: Side) -> bool {
    let m = s0.countries_v();
    let vp = s0.vp_v() as int;
    let d = s0.defcon_v() as int;
    let opp = opposite_spec(side);
    match c {
        Card::Lone_Gunman => simple_board(s0, s1, m, vp, d, Side::USSR, Some(Effect::US_Hand_Revealed)),
        Card::Panama_Canal_Returned => simple_board(s0, s1, bumped(bumped(bumped(m, Side::US, CName::Panama, 1),
            Side::US, CName::CostaRica, 1), Side::US, CName::Venezuela, 1), vp, d, side, None),
        Card::Camp_David_Accords => simple_board(s0, s1, bumped(bumped(bumped(m, Side::US, CName::Israel, 1),
            Side::US, CName::Jordan, 1), Side::US, CName::Egypt, 1), vp + 1, d, Side::US, Some(Effect::CampDavid)),
        Card::John_Paul => {
            let u = m[cname_index(CName::Poland) as int].ussr as int;
            let cut = if u < 2 { u } else { 2 };
            simple_board(s0, s1, bumped(bumped(m, Side::USSR, CName::Poland, -cut), Side::US, CName::Poland, 1), vp, d,
                Side::US, Some(Effect::AllowSolidarity))
        },
        Card::Latin_American_Death_Squads => board(s1, m, vp, d, s0.mil_ops_v()@, s0.space_v()@, s0.attempts_v()@,
            filed(filed(s0.effects_v(Side::US), Side::US, side, Effect::LatinAmericanPlus), Side::US, opp, Effect::LatinAmericanMinus),
            filed(filed(s0.effects_v(Side::USSR), Side::USSR, side, Effect::LatinAmericanPlus), Side::USSR, opp, Effect::LatinAmericanMinus)),
        Card::Nixon_Plays_China => simple_board(s0, s1, m,
            if s0.deck_v().china_holder() == Side::USSR { vp } else { vp + 2 }, d, side, None),
        Card::Sadat_Expels_Soviets => simple_board(s0, s1, bumped(cleared(m, Side::USSR, CName::Egypt), Side::US, CName::Egypt, 1),
            vp, d, side, None),
        Card::Shuttle_Diplomacy => simple_board(s0, s1, m, vp, d, Side::US, Some(Effect::ShuttleDiplomacy)),
        _ => board_kept(s0, s1),
    }
}

/// What the events of the cards from Ask Not to Glasnost do to the board, played by `side`.
pub open(crate) spec fn board_d(c: Card, s0: GameState, s1: GameState, side: Side) -> bool {
    let m = s0.countries_v();
    let vp = s0.vp_v() as int;
    let d = s0.defcon_v() as int;
    let i = side_index(side) as int;
    let sp = s0.space_v()@;
    match c {
        Card::Alliance_For_Progress => simple_board(s0, s1, m, vp + alliance_count(s0), d, side, None),
        Card::Africa_Scoring => scored_board(s0, s1, Region::Africa),
        Card::One_Small_Step => space_board(s0, s1, side,
            if sp[i] < 7 { sp.update(i, (sp[i] + 1) as i8) } else { sp }, 1, small_step_vp(s0, side)),
        Card::South_America_Scoring => scored_board(s0, s1, Region::SouthAmerica),
        Card::Iranian_Hostage_Crisis => simple_board(s0, s1, bumped(cleared(m, Side::US, CName::Iran), Side::USSR, CName::Iran, 2),
            vp, d, Side::USSR, Some(Effect::TerrorismPlus)),
        Card::The_Iron_Lady => simple_board(s0, s1, bumped(cleared(m, Side::USSR, CName::UK), Side::USSR, CName::Argentina, 1),
            vp + 1, d, Side::US, Some(Effect::IronLady)),
        Card::Reagan_Bombs_Libya => simple_board(s0, s1, m, vp + m[cname_index(CName::Libya) as int].ussr / 2, d, side, None),
        Card::North_Sea_Oil => board(s1, m, vp, d, s0.mil_ops_v()@, sp, s0.attempts_v()@,
            s0.effects_v(Side::US).push(Effect::NorthSeaOil), s0.effects_v(Side::USSR).push(Effect::NoOpec)),
        Card::The_Reformer => simple_board(s0, s1, m, vp, d, Side::USSR, Some(Effect::Reformer)),
        Card::Marine_Barracks_Bombing => simple_board(s0, s1, cleared(m, Side::US, CName::Lebanon), vp, d, side, None),
        Card::Soviets_Shoot_Down_KAL => simple_board(s0, s1, m, vp + 2, clamp_defcon(d - 1) as int, side, None),
        Card::Glasnost => simple_board(s0, s1, m, vp - 2, clamp_defcon(d + 1) as int, side, None),
        _ => board_kept(s0, s1),
    }
}

/// What the events of the cards from Ortega Elected to AWACS do to the board, played by
/// `side`.
pub open(crate) spec fn board_e(c: Card, s0: GameState, s1: GameState, side: Side) -> bool {
    let m = s0.countries_v();
    let vp = s0.vp_v() as int;
    let d = s0.defcon_v() as int;
    match c {
        Card::Ortega_Elected => simple_board(s0, s1, cleared(m, Side::US, CName::Nicaragua), vp, d, side, None),
        Card::Iran_Contra_Scandal => simple_board(s0, s1, m, vp, d, Side::USSR, Some(Effect::IranContra)),
        Card::Tear_Down_This_Wall => board(s1, bumped(m, Side::US, CName::EGermany, 3), vp, d, s0.mil_ops_v()@,
            s0.space_v()@, s0.attempts_v()@, s0.effects_v(Side::US).push(Effect::TearDown),
            without(s0.effects_v(Side::USSR), Effect::WillyBrandt)),
        Card::An_Evil_Empire => board(s1, m, vp + 1, d, s0.mil_ops_v()@, s0.space_v()@, s0.attempts_v()@,
            s0.effects_v(Side::US).push(Effect::EvilEmpire), without(s0.effects_v(Side::USSR), Effect::FlowerPower)),
        Card::Aldrich_Ames_Remix => simple_board(s0, s1, m, vp, d, Side::USSR, Some(Effect::AldrichAmes)),
        Card::Pershing_II_Deployed => simple_board(s0, s1, m, vp - 1, d, side, None),
        Card::Solidarity => simple_board(s0, s1, bumped(m, Side::US, CName::Poland, 3), vp, d, side, None),
        Card::Defectors => simple_board(s0, s1, m,
            if s0.side_v() == Side::USSR && s0.ar_v() != 0 { vp + 1 } else { vp }, d, side, None),
        Card::The_Cambridge_Five => simple_board(s0, s1, m, vp, d, Side::USSR, Some(Effect::US_Scoring_Revealed)),
        Card::Special_Relationship => simple_board(s0, s1, m,
            if s0.effects_v(Side::US).contains(Effect::Nato) { vp + 2 } else { vp }, d, side, None),
        Card::NORAD => simple_board(s0, s1, m, vp, d, Side::US, Some(Effect::Norad)),
        Card::Yuri_And_Samantha => simple_board(s0, s1, m, vp, d, Side::USSR, Some(Effect::Yuri)),
        Card::AWACS => simple_board(s0, s1, bumped(m, Side::US, CName::SaudiaArabia, 2), vp, d, Side::US, Some(Effect::AWACS)),
        _ => board_kept(s0, s1),
    }
}

/// What a card's event does to the board, played by `side`, from `s0` to `s1`. An event
/// that puts a decision on the stack changes the board only as its decision is taken, which
/// this does not tell.
pub open(crate) spec fn event_board(c: Card, s0: GameState, s1: GameState, side: Side) -> bool {
    let i = crate::card::card_index(c);
    if i < 31 {
        board_a(c, s0, s1, side)
    } else if i < 61 {
        board_b(c, s0, s1, side)
    } else if i < 77 {
        board_c(c, s0, s1, side)
    } else if i < 91 {
        board_d(c, s0, s1, side)
    } else {
        board_e(c, s0, s1, side)
    }
}

/// What an event does to the board depends on nothing but the board, the turn, the action
/// round, the phasing side and the deck.
pub proof fn lemma_board_frame(c: Card, s: GameState, t: GameState, f: GameState, side: Side)
    requires
        t.countries_v() == s.countries_v(),
        t.effects_v(Side::US) == s.effects_v(Side::US),
        t.effects_v(Side::USSR) == s.effects_v(Side::USSR),
        t.deck_v() == s.deck_v(),
        t.vp_v() == s.vp_v(),
        t.defcon_v() == s.defcon_v(),
        t.mil_ops_v() == s.mil_ops_v(),
        t.space_v() == s.space_v(),
        t.attempts_v() == s.attempts_v(),
        t.turn_v() == s.turn_v(),
        t.ar_v() == s.ar_v(),
        t.side_v() == s.side_v(),
    ensures
        event_board(c, t, f, side) == event_board(c, s, f, side),
{
    assert(alliance_count(t) == alliance_count(s));
    assert(small_step_vp(t, side) == small_step_vp(s, side));
    assert(space_vp(t, side) == space_vp(s, side));
    assert forall|r: Region| #[trigger] score_outcome(r, t) == score_outcome(r, s) by {
        assert(crate::country::scoring::adjusted_tally(r, t, t.turn_v() <= 10) == crate::country::scoring::adjusted_tally(r, s, s.turn_v() <= 10));
        assert(crate::country::scoring::adjacency_points(r, t) == crate::country::scoring::adjacency_points(r, s));
    }
    assert forall|r: Region| #[trigger] effects_after_score(r, t) == effects_after_score(r, s) by {}
    assert forall|a: Side, n: CName, roll: i8| #[trigger] war_board(s, f, a, n, roll) == war_board(t, f, a, n, roll) by {
        assert(war_wins(s, a, cname_index(n) as usize, roll) == war_wins(t, a, cname_index(n) as usize, roll));
    }
    assert(board_kept(s, f) == board_kept(t, f));
    if c == Card::Korean_War {
        if exists|roll: i8| 1 <= roll <= 6 && #[trigger] war_board(s, f, Side::USSR, CName::SKorea, roll) {
            let roll = choose|roll: i8| 1 <= roll <= 6 && #[trigger] war_board(s, f, Side::USSR, CName::SKorea, roll);
            assert(war_board(t, f, Side::USSR, CName::SKorea, roll));
        }
        if exists|roll: i8| 1 <= roll <= 6 && #[trigger] war_board(t, f, Side::USSR, CName::SKorea, roll) {
            let roll = choose|roll: i8| 1 <= roll <= 6 && #[trigger] war_board(t, f, Side::USSR, CName::SKorea, roll);
            assert(war_board(s, f, Side::USSR, CName::SKorea, roll));
        }
    }
    if c == Card::Arab_Israeli_War {
        let m = s.countries_v();
        if exists|roll: i8| 1 <= roll <= 6 && #[trigger] war_board(s, f, Side::USSR, CName::Israel, israel_roll(m, roll)) {
            let roll = choose|roll: i8| 1 <= roll <= 6 && #[trigger] war_board(s, f, Side::USSR, CName::Israel, israel_roll(m, roll));
            assert(war_board(t, f, Side::USSR, CName::Israel, israel_roll(m, roll)));
        }
        if exists|roll: i8| 1 <= roll <= 6 && #[trigger] war_board(t, f, Side::USSR, CName::Israel, israel_roll(m, roll)) {
            let roll = choose|roll: i8| 1 <= roll <= 6 && #[trigger] war_board(t, f, Side::USSR, CName::Israel, israel_roll(m, roll));
            assert(war_board(s, f, Side::USSR, CName::Israel, israel_roll(m, roll)));
        }
    }
    assert(board_a(c, t, f, side) == board_a(c, s, f, side));
    assert(board_b(c, t, f, side) == board_b(c, s, f, side));
    assert(board_c(c, t, f, side) == board_c(c, s, f, side));
    assert(board_d(c, t, f, side) == board_d(c, s, f, side));
    assert(board_e(c, t, f, side) == board_e(c, s, f, side));
}

/// What the chosen option of a card with two options does to the board, played by `side`:
/// Blockade's first option clears the US from West Germany; the Warsaw Pact allows NATO;
/// the Olympic Games' boycott lowers DEFCON; South African Unrest's first option puts two
/// USSR influence in South Africa; Wargames' second option gives the opponent six points and
/// ends the game at twenty for whoever then leads. The other options only put decisions on the
/// stack.
pub open(crate) spec fn special_board(c: Card, s0: GameState, s1: GameState, side: Side, choice: usize) -> bool {
    let m = s0.countries_v();
    let vp = s0.vp_v() as int;
    let d = s0.defcon_v() as int;
    match c {
        Card::Blockade => simple_board(s0, s1, if choice == 0 { cleared(m, Side::US, CName::WGermany) } else { m },
            vp, d, side, None),
        Card::Warsaw_Pact_Formed => simple_board(s0, s1, m, vp, d, Side::US,
            if s0.effects_v(Side::US).contains(Effect::AllowNato) { None } else { Some(Effect::AllowNato) }),
        Card::Olympic_Games => simple_board(s0, s1, m, vp, clamp_defcon(d - 1) as int, side, None),
        Card::South_African_Unrest => simple_board(s0, s1,
            if choice == 0 { bumped(m, Side::USSR, CName::SouthAfrica, 2) } else { m }, vp, d, side, None),
        Card::Wargames => simple_board(s0, s1, m,
            if choice != 0 {
                if vp + (if side == Side::USSR { 6int } else { -6int }) < 0 { -20 } else { 20 }
            } else {
                vp
            }, d, side, None),
        _ => board_kept(s0, s1),
    }
}

} // verus!
