use vstd::prelude::*;
use crate::action::LazyRule;
use crate::country::{region_countries, Country, Region, Side, NUM_COUNTRIES};
use crate::state::GameState;

verus! {

/// The map indices of a list whose country satisfies a test, in list order.
pub open spec fn indices_where(m: Seq<Country>, idx: Seq<usize>, f: spec_fn(Country) -> bool) -> Seq<usize> {
    idx.filter(|i: usize| f(m[i as int]))
}

/// The map indices below the superpowers, in increasing order.
pub open spec fn map_indices() -> Seq<usize> {
    Seq::new((NUM_COUNTRIES - 2) as nat, |i: int| i as usize)
}

/// The choices a lazy rule gives in a position.
pub open(crate) spec fn lazy_spec(f: LazyRule, state: GameState) -> Seq<usize> {
    let m = state.countries_v();
    match f {
        LazyRule::BonusInfluence => indices_where(m, map_indices(), |c: Country| c.us > 0 && c.us < c.stability + 2),
        LazyRule::MuslimRevolution => indices_where(m, region_countries(Region::MiddleEast), |c: Country| c.us > 0),
        LazyRule::Norad => indices_where(m, map_indices(), |c: Country| c.us > 0),
    }
}

/// Computes the choices of a lazy rule.
pub fn resolve_lazy(f: LazyRule, state: &GameState) -> (r: Vec<usize>)
    requires
        state.wf(),
    ensures
        r@ == lazy_spec(f, *state),
{
    match f {
        LazyRule::BonusInfluence => legal_bonus_influence(state),
        LazyRule::MuslimRevolution => muslim_rev(state),
        LazyRule::Norad => norad(state),
    }
}

/// The Middle East countries with US influence, which Muslim Revolution may clear.
pub fn muslim_rev(state: &GameState) -> (r: Vec<usize>)
    requires
        state.wf(),
    ensures
        r@ == lazy_spec(LazyRule::MuslimRevolution, *state),
{
    let me = Region::MiddleEast.all_countries();
    let ghost m = state.countries_v();
    let ghost f = |c: Country| c.us > 0;
    let ghost pred = |i: usize| f(m[i as int]);
    let mut out: Vec<usize> = Vec::new();
    let mut k: usize = 0;
    while k < me.len()
        invariant
            k <= me.len(),
            me@ == region_countries(Region::MiddleEast),
            state.wf(),
            m == state.countries_v(),
            pred == (|i: usize| f(m[i as int])),
            f == (|c: Country| c.us > 0),
            out@ == me@.take(k as int).filter(pred),
        decreases me.len() - k,
    {
        proof {
            reveal_with_fuel(Seq::<_>::filter, 1);
            assert(me@.take(k + 1).drop_last() =~= me@.take(k as int));
        }
        let x = me[k];
        if state.countries[x].us > 0 {
            out.push(x);
        }
        k = k + 1;
    }
    proof {
        assert(me@.take(me.len() as int) =~= me@);
    }
    out
}

/// The countries with US influence, which NORAD may place in.
pub fn norad(state: &GameState) -> (r: Vec<usize>)
    requires
        state.wf(),
    ensures
        r@ == lazy_spec(LazyRule::Norad, *state),
{
    let ghost m = state.countries_v();
    let ghost f = |c: Country| c.us > 0;
    let ghost idx = map_indices();
    let ghost pred = |i: usize| f(m[i as int]);
    let mut out: Vec<usize> = Vec::new();
    let mut i: usize = 0;
    while i < NUM_COUNTRIES - 2
        invariant
            i <= NUM_COUNTRIES - 2,
            state.wf(),
            m == state.countries_v(),
            idx == map_indices(),
            pred == (|i: usize| f(m[i as int])),
            f == (|c: Country| c.us > 0),
            out@ == idx.take(i as int).filter(pred),
        decreases NUM_COUNTRIES - 2 - i,
    {
        proof {
            reveal_with_fuel(Seq::<_>::filter, 1);
            assert(idx.take(i + 1).drop_last() =~= idx.take(i as int));
        }
        if state.countries[i].us > 0 {
            out.push(i);
        }
        i = i + 1;
    }
    proof {
        assert(idx.take(i as int) =~= idx);
    }
    out
}

/// The countries where the US may put its bonus opening influence: those with US
/// influence below stability plus two.
pub fn legal_bonus_influence(state: &GameState) -> (r: Vec<usize>)
    requires
        state.wf(),
    ensures
        r@ == lazy_spec(LazyRule::BonusInfluence, *state),
{
    let ghost m = state.countries_v();
    let ghost f = |c: Country| c.us > 0 && c.us < c.stability + 2;
    let ghost idx = map_indices();
    let ghost pred = |i: usize| f(m[i as int]);
    let mut out: Vec<usize> = Vec::new();
    let mut i: usize = 0;
    while i < NUM_COUNTRIES - 2
        invariant
            i <= NUM_COUNTRIES - 2,
            state.wf(),
            m == state.countries_v(),
            idx == map_indices(),
            pred == (|i: usize| f(m[i as int])),
            f == (|c: Country| c.us > 0 && c.us < c.stability + 2),
            out@ == idx.take(i as int).filter(pred),
        decreases NUM_COUNTRIES - 2 - i,
    {
        proof {
            reveal_with_fuel(Seq::<_>::filter, 1);
            assert(idx.take(i + 1).drop_last() =~= idx.take(i as int));
        }
        let c = state.countries[i];
        if c.us > 0 && c.us < c.stability + 2 {
            out.push(i);
        }
        i = i + 1;
    }
    proof {
        assert(idx.take(i as int) =~= idx);
    }
    out
}

} // verus!
