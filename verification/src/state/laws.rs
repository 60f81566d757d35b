use vstd::prelude::*;
use crate::card::Effect;
use crate::country::{
    cname_index, controller_spec, edge_list, influence_spec, neighbors, opposite_spec,
    region_countries, region_has, CName, Country, Region, Side,
};
use crate::state::{
    add_cost, count_controlled, coup_delta, coup_result, coup_targets, lemma_asia_targets,
    lemma_concat_contains, lemma_count_controlled_bound, nato_ok, realign_result,
    realign_totals, war_flip_spec, war_wins, with_inf, with_influence, GameState,
};

verus! {

/// A country with the two superpowers' influence swapped.
pub open spec fn mirror_country(c: Country) -> Country {
    Country { us: c.ussr, ussr: c.us, ..c }
}

/// No country of the list is controlled by the side: none of them counts.
pub proof fn lemma_count_controlled_none(m: Seq<Country>, ns: Seq<usize>, side: Side)
    requires
        forall|k: int| 0 <= k < ns.len() ==> controller_spec(#[trigger] m[ns[k] as int]) != side,
    ensures
        count_controlled(m, ns, side) == 0,
    decreases ns.len(),
{
    if ns.len() > 0 {
        let rest = ns.drop_last();
        assert forall|k: int| 0 <= k < rest.len() implies controller_spec(#[trigger] m[rest[k] as int]) != side by {
            assert(rest[k] == ns[k]);
        }
        lemma_count_controlled_none(m, rest, side);
        assert(controller_spec(m[ns[ns.len() - 1] as int]) != side);
    }
}

/// A country of the list controlled by the side counts: the count is at least one.
pub proof fn lemma_count_controlled_some(m: Seq<Country>, ns: Seq<usize>, side: Side, k: int)
    requires
        0 <= k < ns.len(),
        controller_spec(m[ns[k] as int]) == side,
    ensures
        count_controlled(m, ns, side) >= 1,
    decreases ns.len(),
{
    let rest = ns.drop_last();
    if k == ns.len() - 1 {
        lemma_count_controlled_bound(m, rest, side);
    } else {
        assert(rest[k] == ns[k]);
        lemma_count_controlled_some(m, rest, side, k);
    }
}

/// In a realignment the side with more influence in the target adds one to its total: with
/// equal dice and no neighbour controlled by either side, the side with more influence wins
/// the roll-off by one and the opponent loses one influence (down to zero), and with equal
/// influence the roll-off is a tie that leaves the country as it was.
pub proof fn lemma_realign_influence_bonus(s: GameState, i: usize, roll: i8)
    requires
        i < crate::country::NUM_COUNTRIES,
        forall|k: int| 0 <= k < neighbors(edge_list(), i).len() ==>
            controller_spec(#[trigger] s.countries_v()[neighbors(edge_list(), i)[k] as int]) == Side::Neutral,
    ensures
        ({
            let c = s.countries_v()[i as int];
            let t = realign_totals(s, i, roll, roll);
            &&& c.us > c.ussr ==> t.0 == t.1 + 1
                && realign_result(c, t.0, t.1) == Country { ussr: if c.ussr > 0 { (c.ussr - 1) as i8 } else { 0 }, ..c }
            &&& c.ussr > c.us ==> t.1 == t.0 + 1
                && realign_result(c, t.0, t.1) == Country { us: if c.us > 0 { (c.us - 1) as i8 } else { 0 }, ..c }
            &&& c.us == c.ussr ==> t.0 == t.1 && realign_result(c, t.0, t.1) == c
        }),
{
    let m = s.countries_v();
    let nb = neighbors(edge_list(), i);
    lemma_count_controlled_none(m, nb, Side::US);
    lemma_count_controlled_none(m, nb, Side::USSR);
}

/// With equal dice and as many neighbours controlled by each side, the side with less
/// influence in the target never wins the roll-off, and the side with more always does.
pub proof fn lemma_realign_less_never_wins(s: GameState, i: usize, roll: i8)
    requires
        count_controlled(s.countries_v(), neighbors(edge_list(), i), Side::US)
            == count_controlled(s.countries_v(), neighbors(edge_list(), i), Side::USSR),
    ensures
        ({
            let c = s.countries_v()[i as int];
            let t = realign_totals(s, i, roll, roll);
            &&& c.us > c.ussr <==> t.0 > t.1
            &&& c.ussr > c.us <==> t.1 > t.0
        }),
{
}

/// Each point of a die counts one for its side: raising the US roll by one raises the US
/// total by one and leaves the USSR total as it was, and the same for the USSR roll.
pub proof fn lemma_realign_dice(s: GameState, i: usize, us_roll: i8, ussr_roll: i8)
    requires
        us_roll < i8::MAX,
        ussr_roll < i8::MAX,
    ensures
        realign_totals(s, i, (us_roll + 1) as i8, ussr_roll).0 == realign_totals(s, i, us_roll, ussr_roll).0 + 1,
        realign_totals(s, i, (us_roll + 1) as i8, ussr_roll).1 == realign_totals(s, i, us_roll, ussr_roll).1,
        realign_totals(s, i, us_roll, (ussr_roll + 1) as i8).1 == realign_totals(s, i, us_roll, ussr_roll).1 + 1,
        realign_totals(s, i, us_roll, (ussr_roll + 1) as i8).0 == realign_totals(s, i, us_roll, ussr_roll).0,
{
}

/// Adjacent control helps in a realignment: with equal dice and equal influence in the
/// target, a side that controls a neighbour of it while the opponent controls none wins the
/// roll-off, and the opponent loses influence.
pub proof fn lemma_realign_adjacent(s: GameState, i: usize, roll: i8, side: Side)
    requires
        side != Side::Neutral,
        s.countries_v()[i as int].us == s.countries_v()[i as int].ussr,
        exists|k: int| 0 <= k < neighbors(edge_list(), i).len()
            && controller_spec(#[trigger] s.countries_v()[neighbors(edge_list(), i)[k] as int]) == side,
        forall|k: int| 0 <= k < neighbors(edge_list(), i).len()
            ==> controller_spec(#[trigger] s.countries_v()[neighbors(edge_list(), i)[k] as int]) != opposite_spec(side),
    ensures
        side == Side::US ==> realign_totals(s, i, roll, roll).0 > realign_totals(s, i, roll, roll).1,
        side == Side::USSR ==> realign_totals(s, i, roll, roll).1 > realign_totals(s, i, roll, roll).0,
{
    let m = s.countries_v();
    let nb = neighbors(edge_list(), i);
    let k = choose|k: int| 0 <= k < nb.len() && controller_spec(#[trigger] m[nb[k] as int]) == side;
    lemma_count_controlled_some(m, nb, side, k);
    lemma_count_controlled_none(m, nb, opposite_spec(side));
}

/// A war succeeds only if the roll less the neighbours of the target that the defender
/// controls is at least four: a roll under four always fails, a neighbour controlled by the
/// defender makes a roll of four fail, without one a roll of four or more succeeds, and a
/// higher roll never does worse.
pub proof fn lemma_war_needs_margin(s: GameState, side: Side, i: usize, roll: i8, roll2: i8)
    requires
        side != Side::Neutral,
    ensures
        roll < 4 ==> !war_wins(s, side, i, roll),
        (exists|k: int| 0 <= k < neighbors(edge_list(), i).len()
            && controller_spec(#[trigger] s.countries_v()[neighbors(edge_list(), i)[k] as int]) == opposite_spec(side))
            ==> (war_wins(s, side, i, roll) ==> roll >= 5),
        (forall|k: int| 0 <= k < neighbors(edge_list(), i).len()
            ==> controller_spec(#[trigger] s.countries_v()[neighbors(edge_list(), i)[k] as int]) != opposite_spec(side))
            ==> (war_wins(s, side, i, roll) <==> roll >= 4),
        war_wins(s, side, i, roll) && roll <= roll2 ==> war_wins(s, side, i, roll2),
{
    let m = s.countries_v();
    let nb = neighbors(edge_list(), i);
    let opp = opposite_spec(side);
    lemma_count_controlled_bound(m, nb, opp);
    if exists|k: int| 0 <= k < nb.len() && controller_spec(#[trigger] m[nb[k] as int]) == opp {
        let k = choose|k: int| 0 <= k < nb.len() && controller_spec(#[trigger] m[nb[k] as int]) == opp;
        lemma_count_controlled_some(m, nb, opp, k);
    }
    if forall|k: int| 0 <= k < nb.len() ==> controller_spec(#[trigger] m[nb[k] as int]) != opp {
        lemma_count_controlled_none(m, nb, opp);
    }
}

/// Adding one influence costs two operations exactly where the opponent controls the
/// country, and one otherwise, for both sides alike: the US pays two in a USSR controlled
/// country as the USSR does in a US controlled one, and swapping the influence swaps the
/// costs.
pub proof fn lemma_add_cost_opponent(c: Country)
    requires
        c.stability > 0,
    ensures
        add_cost(c, Side::US) == 2 <==> controller_spec(c) == Side::USSR,
        add_cost(c, Side::USSR) == 2 <==> controller_spec(c) == Side::US,
        add_cost(c, Side::US) == 1 || add_cost(c, Side::US) == 2,
        add_cost(c, Side::USSR) == 1 || add_cost(c, Side::USSR) == 2,
        add_cost(c, Side::US) == add_cost(mirror_country(c), Side::USSR),
        add_cost(c, Side::USSR) == add_cost(mirror_country(c), Side::US),
{
}

/// A successful coup conserves its margin: the opponent's influence it removes plus the
/// influence it adds for the couping side make up the margin; the couper gains influence only
/// once the opponent has none left; and the rule is the same for both sides, up to swapping
/// their influence.
pub proof fn lemma_coup_conserves_margin(c: Country, side: Side, delta: int)
    requires
        side != Side::Neutral,
        delta >= 0,
        c.us >= 0,
        c.ussr >= 0,
        c.us + delta <= i8::MAX,
        c.ussr + delta <= i8::MAX,
    ensures
        ({
            let r = coup_result(c, side, delta);
            let opp = opposite_spec(side);
            &&& (influence_spec(c, opp) - influence_spec(r, opp))
                + (influence_spec(r, side) - influence_spec(c, side)) == delta
            &&& 0 <= influence_spec(r, opp) <= influence_spec(c, opp)
            &&& influence_spec(r, side) >= influence_spec(c, side)
            &&& influence_spec(r, side) > influence_spec(c, side) ==> influence_spec(r, opp) == 0
            &&& r.stability == c.stability
            &&& r.bg == c.bg
        }),
        coup_result(c, Side::US, delta) == mirror_country(coup_result(mirror_country(c), Side::USSR, delta)),
{
}

/// The margin of a coup is the operations plus the roll beyond twice the stability: none
/// up to that, and each further point of the roll adds one.
pub proof fn lemma_coup_delta_roll(c: Country, ops: i8, roll: i8)
    requires
        roll < i8::MAX,
    ensures
        ops + roll <= 2 * c.stability ==> coup_delta(c, ops, roll) == 0,
        ops + roll >= 2 * c.stability ==> coup_delta(c, ops, (roll + 1) as i8) == coup_delta(c, ops, roll) + 1,
        coup_delta(c, ops, roll) >= 0,
{
}

/// With NATO in play for the US, no US controlled European country is a target of a USSR coup
/// or realignment, except France under De Gaulle and West Germany under Willy Brandt.
pub proof fn lemma_nato_protects(s: GameState, x: usize)
    requires
        s.effects_v(Side::US).contains(Effect::Nato),
        coup_targets(s, Side::USSR).contains(x),
        region_has(Region::Europe, x as int),
        controller_spec(s.countries_v()[x as int]) == Side::US,
    ensures
        (x == cname_index(CName::France) && s.effects_v(Side::USSR).contains(Effect::DeGaulle))
        || (x == cname_index(CName::WGermany) && s.effects_v(Side::USSR).contains(Effect::WillyBrandt)),
{
    let opp = Side::US;
    let base = with_inf(s, region_countries(Region::Africa), opp)
        + with_inf(s, region_countries(Region::CentralAmerica), opp)
        + with_inf(s, region_countries(Region::SouthAmerica), opp);
    let me = if s.defcon_v() >= 3 { base + with_inf(s, region_countries(Region::MiddleEast), opp) } else { base };
    let asia = if s.defcon_v() >= 4 { me + with_inf(s, region_countries(Region::Asia), opp) } else { me };
    let p = |i: usize| nato_ok(s, i);
    let eu = region_countries(Region::Europe).filter(p);
    if s.defcon_v() >= 5 {
        lemma_concat_contains(asia, eu, x);
        if asia.contains(x) {
            lemma_asia_targets(s, Side::USSR, x);
        } else {
            let k = choose|k: int| 0 <= k < eu.len() && eu[k] == x;
            region_countries(Region::Europe).lemma_filter_pred(p, k);
            assert(nato_ok(s, x));
        }
    } else {
        lemma_asia_targets(s, Side::USSR, x);
    }
}

/// At DEFCON five, a European country where the US has influence and which it does not
/// control is a target of a USSR coup or realignment, NATO or not.
pub proof fn lemma_nato_leaves_uncontrolled(s: GameState, x: usize)
    requires
        s.defcon_v() >= 5,
        region_countries(Region::Europe).contains(x),
        s.countries_v()[x as int].us > 0,
        controller_spec(s.countries_v()[x as int]) != Side::US,
    ensures
        coup_targets(s, Side::USSR).contains(x),
{
    let opp = Side::US;
    let base = with_inf(s, region_countries(Region::Africa), opp)
        + with_inf(s, region_countries(Region::CentralAmerica), opp)
        + with_inf(s, region_countries(Region::SouthAmerica), opp);
    let me = base + with_inf(s, region_countries(Region::MiddleEast), opp);
    let asia = me + with_inf(s, region_countries(Region::Asia), opp);
    let list = region_countries(Region::Europe);
    let j = choose|j: int| 0 <= j < list.len() && list[j] == x;
    let eu = if s.effects_v(Side::US).contains(Effect::Nato) {
        let p = |i: usize| nato_ok(s, i);
        list.lemma_filter_contains(p, j);
        list.filter(p)
    } else {
        let p = |i: usize| influence_spec(s.countries_v()[i as int], opp) > 0;
        list.lemma_filter_contains(p, j);
        list.filter(p)
    };
    let e = choose|e: int| 0 <= e < eu.len() && eu[e] == x;
    assert((asia + eu)[asia.len() + e] == x);
    assert(coup_targets(s, Side::USSR) == asia + eu);
}

/// Setting a side's influence changes that side's influence only.
pub proof fn lemma_with_influence_own(c: Country, side: Side, v: i8)
    requires
        side != Side::Neutral,
    ensures
        influence_spec(with_influence(c, side, v as int), side) == v,
        influence_spec(with_influence(c, side, v as int), opposite_spec(side)) == influence_spec(c, opposite_spec(side)),
        with_influence(c, side, v as int).stability == c.stability,
        with_influence(c, side, v as int).bg == c.bg,
{
}

/// The winner of a war takes over the loser's influence: the total is kept and the loser is
/// left with none.
pub proof fn lemma_war_flip_total(c: Country, side: Side)
    requires
        side != Side::Neutral,
        c.us + c.ussr <= i8::MAX,
        c.us + c.ussr >= i8::MIN,
    ensures
        influence_spec(war_flip_spec(c, side), side) == c.us + c.ussr,
        influence_spec(war_flip_spec(c, side), opposite_spec(side)) == 0,
        war_flip_spec(c, side).stability == c.stability,
        war_flip_spec(c, side).bg == c.bg,
{
}

/// The loser of a roll-off loses the difference of the totals, down to zero, and the winner
/// keeps its influence; a tie changes nothing.
pub proof fn lemma_realign_loser_pays(c: Country, us: int, ussr: int)
    requires
        c.us >= 0,
        c.ussr >= 0,
    ensures
        us > ussr ==> realign_result(c, us, ussr).us == c.us
            && realign_result(c, us, ussr).ussr == if c.ussr - (us - ussr) > 0 { c.ussr - (us - ussr) } else { 0 },
        ussr > us ==> realign_result(c, us, ussr).ussr == c.ussr
            && realign_result(c, us, ussr).us == if c.us - (ussr - us) > 0 { c.us - (ussr - us) } else { 0 },
        us == ussr ==> realign_result(c, us, ussr) == c,
        realign_result(c, us, ussr).stability == c.stability,
{
}

} // verus!
