use vstd::prelude::*;
use crate::card::Effect;
use crate::country::{
    cname_index, controller_spec, lemma_cname_index_inverse, region_countries, CName, Country,
    Region, Side, Status, NUM_COUNTRIES,
};
use crate::state::{lemma_wf_country, GameState};

verus! {

/// The countries of a list that each side controls, split into battlegrounds and others:
/// US battlegrounds, US others, USSR battlegrounds, USSR others.
pub open spec fn region_tally(m: Seq<Country>, list: Seq<usize>) -> (int, int, int, int)
    decreases list.len(),
{
    if list.len() == 0 {
        (0, 0, 0, 0)
    } else {
        let t = region_tally(m, list.drop_last());
        let c = m[list.last() as int];
        match controller_spec(c) {
            Side::US => if c.bg { (t.0 + 1, t.1, t.2, t.3) } else { (t.0, t.1 + 1, t.2, t.3) },
            Side::USSR => if c.bg { (t.0, t.1, t.2 + 1, t.3) } else { (t.0, t.1, t.2, t.3 + 1) },
            Side::Neutral => t,
        }
    }
}

/// Each count of a tally lies between zero and the length of the list.
pub proof fn lemma_tally_bounds(m: Seq<Country>, list: Seq<usize>)
    ensures
        0 <= region_tally(m, list).0 <= list.len(),
        0 <= region_tally(m, list).1 <= list.len(),
        0 <= region_tally(m, list).2 <= list.len(),
        0 <= region_tally(m, list).3 <= list.len(),
        region_tally(m, list).0 + region_tally(m, list).1 + region_tally(m, list).2 + region_tally(m, list).3 <= list.len(),
    decreases list.len(),
{
    if list.len() > 0 {
        lemma_tally_bounds(m, list.drop_last());
    }
}

/// The number of battlegrounds of a scoring region.
pub open spec fn bg_total(r: Region) -> int {
    match r {
        Region::Europe => 5,
        Region::MiddleEast => 6,
        Region::Asia => 6,
        Region::Africa => 5,
        Region::CentralAmerica => 3,
        Region::SouthAmerica => 4,
        _ => 0,
    }
}

/// The tally of a region after the effects that change it: Shuttle Diplomacy takes one
/// USSR battleground out of Middle East and Asia scoring before final scoring, and Formosan
/// Resolution makes a US controlled Taiwan count as a battleground in Asia.
pub open(crate) spec fn adjusted_tally(r: Region, s: GameState, use_shuttle: bool) -> (int, int, int, int) {
    let m = s.countries_v();
    let t = region_tally(m, region_countries(r));
    let shuttle = (r == Region::MiddleEast || r == Region::Asia)
        && s.effects_v(Side::US).contains(Effect::ShuttleDiplomacy) && s.turn_v() <= 10 && use_shuttle;
    let ussr_bg = if shuttle { if t.2 - 1 > 0 { t.2 - 1 } else { 0 } } else { t.2 };
    let formosan = r == Region::Asia && controller_spec(m[cname_index(CName::Taiwan) as int]) == Side::US
        && s.effects_v(Side::US).contains(Effect::FormosanResolution);
    let us_bg = if formosan { t.0 + 1 } else { t.0 };
    let us_n = if formosan { t.1 - 1 } else { t.1 };
    (us_bg, us_n, ussr_bg, t.3)
}

/// The standing of a side with the given battlegrounds and other countries against an
/// opponent's battlegrounds: control takes every battleground and more countries, domination
/// more battlegrounds, more countries and a non-battleground, presence any country.
pub open spec fn status_of(my_bg: int, my_n: int, opp_bg: int, total: int, ahead: bool) -> Status {
    if my_bg == total && ahead {
        Status::Control
    } else if my_bg > opp_bg && ahead && my_n > 0 {
        Status::Domination
    } else if my_bg + my_n > 0 {
        Status::Presence
    } else {
        Status::Zero
    }
}

/// The standing of the US, that of the USSR, and the battleground difference of a region;
/// Southeast Asia counts its countries, battlegrounds double.
pub open(crate) spec fn status_spec(r: Region, s: GameState, use_shuttle: bool) -> (Status, Status, int) {
    let t = adjusted_tally(r, s, use_shuttle);
    let diff = t.0 + t.1 - t.2 - t.3;
    let us = status_of(t.0, t.1, t.2, bg_total(r), diff > 0);
    let ussr = status_of(t.2, t.3, t.0, bg_total(r), diff < 0);
    let bgd = if r == Region::SoutheastAsia { t.1 - t.3 + 2 * t.0 - 2 * t.2 } else { t.0 - t.2 };
    (us, ussr, bgd)
}

/// The points of a scoring region for presence, domination and control.
pub open spec fn level_points(r: Region) -> (int, int, int) {
    match r {
        Region::Europe => (3, 7, 0),
        Region::MiddleEast => (3, 5, 7),
        Region::Asia => (3, 7, 9),
        Region::Africa => (1, 4, 6),
        Region::CentralAmerica => (1, 3, 5),
        Region::SouthAmerica => (2, 5, 6),
        _ => (0, 0, 0),
    }
}

/// The points a standing is worth in a region.
pub open spec fn status_points(r: Region, st: Status) -> int {
    match st {
        Status::Presence => level_points(r).0,
        Status::Domination => level_points(r).1,
        Status::Control => level_points(r).2,
        Status::Zero => 0,
    }
}

/// The points for controlling countries adjacent to the other superpower: Finland, Poland
/// and Romania for the US and Canada for the USSR in Europe; Afghanistan and North Korea for
/// the US and Japan for the USSR in Asia; Mexico and Cuba for the USSR in Central America.
pub open(crate) spec fn adjacency_points(r: Region, s: GameState) -> int {
    let m = s.countries_v();
    let us = |n: CName| if controller_spec(m[cname_index(n) as int]) == Side::US { 1int } else { 0int };
    let ussr = |n: CName| if controller_spec(m[cname_index(n) as int]) == Side::USSR { 1int } else { 0int };
    match r {
        Region::Europe => us(CName::Finland) + us(CName::Poland) + us(CName::Romania) - ussr(CName::Canada),
        Region::Asia => us(CName::Afghanistan) + us(CName::NKorea) - ussr(CName::Japan),
        Region::CentralAmerica => -ussr(CName::Mexico) - ussr(CName::Cuba),
        _ => 0,
    }
}

/// The change to the victory points that scoring a region makes, before the automatic
/// win of European control.
pub open(crate) spec fn score_change(r: Region, s: GameState) -> int {
    let st = status_spec(r, s, s.turn_v() <= 10);
    if r == Region::SoutheastAsia {
        adjacency_points(r, s) + st.2
    } else {
        adjacency_points(r, s) + status_points(r, st.0) - status_points(r, st.1) + st.2
    }
}

/// The victory points after scoring a region, and the change returned: control of Europe
/// sets the track to twenty for its side.
pub open(crate) spec fn score_outcome(r: Region, s: GameState) -> (int, int) {
    let st = status_spec(r, s, s.turn_v() <= 10);
    if r == Region::Europe && st.0 == Status::Control {
        (20, 20 - s.vp_v())
    } else if r == Region::Europe && st.1 == Status::Control {
        (-20, -20 - s.vp_v())
    } else {
        (s.vp_v() + score_change(r, s), score_change(r, s))
    }
}

/// Whether scoring a region clears Shuttle Diplomacy: Middle East and Asia scoring before
/// final scoring, when it is in play.
pub open(crate) spec fn clears_shuttle(r: Region, s: GameState) -> bool {
    (r == Region::MiddleEast || r == Region::Asia) && s.turn_v() <= 10
        && s.effects_v(Side::US).contains(Effect::ShuttleDiplomacy)
}

/// The position of the first occurrence of an effect in a list.
pub open spec fn first_pos(v: Seq<Effect>, e: Effect) -> int {
    choose|i: int| 0 <= i < v.len() && v[i] == e && forall|j: int| 0 <= j < i ==> v[j] != e
}

impl Region {
    /// The countries of this region each side controls: US battlegrounds, US others, USSR
    /// battlegrounds, USSR others.
    fn tally(&self, state: &GameState) -> (r: (i8, i8, i8, i8))
        requires
            state.wf(),
        ensures
            (r.0 as int, r.1 as int, r.2 as int, r.3 as int) == region_tally(state.countries_v(), region_countries(*self)),
            0 <= r.0 <= 21,
            0 <= r.1 <= 21,
            0 <= r.2 <= 21,
            0 <= r.3 <= 21,
    {
        let list = self.all_countries();
        let ghost m = state.countries_v();
        let mut us_bg: i8 = 0;
        let mut us_n: i8 = 0;
        let mut ussr_bg: i8 = 0;
        let mut ussr_n: i8 = 0;
        let mut k: usize = 0;
        while k < list.len()
            invariant
                k <= list.len(),
                list@ == region_countries(*self),
                list.len() <= 21,
                state.wf(),
                m == state.countries_v(),
                (us_bg as int, us_n as int, ussr_bg as int, ussr_n as int) == region_tally(m, list@.take(k as int)),
            decreases list.len() - k,
        {
            proof {
                assert(list@.take(k + 1).drop_last() =~= list@.take(k as int));
                lemma_tally_bounds(m, list@.take(k as int));
                lemma_wf_country(*state, list@[k as int] as int);
            }
            let c = state.countries[list[k]];
            match c.controller() {
                Side::US => {
                    if c.bg { us_bg = us_bg + 1; } else { us_n = us_n + 1; }
                },
                Side::USSR => {
                    if c.bg { ussr_bg = ussr_bg + 1; } else { ussr_n = ussr_n + 1; }
                },
                _ => {},
            }
            k = k + 1;
        }
        proof {
            assert(list@.take(list.len() as int) =~= list@);
            lemma_tally_bounds(m, list@);
        }
        (us_bg, us_n, ussr_bg, ussr_n)
    }

    /// The tally of this region after Shuttle Diplomacy and Formosan Resolution.
    fn adjusted(&self, state: &GameState, use_shuttle: bool) -> (r: (i8, i8, i8, i8))
        requires
            state.wf(),
        ensures
            (r.0 as int, r.1 as int, r.2 as int, r.3 as int) == adjusted_tally(*self, *state, use_shuttle),
            0 <= r.0 <= 22,
            -1 <= r.1 <= 21,
            0 <= r.2 <= 21,
            0 <= r.3 <= 21,
    {
        let (mut us_bg, mut us_n, mut ussr_bg, ussr_n) = self.tally(state);
        match self {
            Region::MiddleEast => {
                if state.has_effect(Side::US, Effect::ShuttleDiplomacy) {
                    if !state.is_final_scoring() && use_shuttle {
                        ussr_bg = if ussr_bg - 1 > 0 { ussr_bg - 1 } else { 0 };
                    }
                }
            },
            Region::Asia => {
                if state.has_effect(Side::US, Effect::ShuttleDiplomacy) {
                    if !state.is_final_scoring() && use_shuttle {
                        ussr_bg = if ussr_bg - 1 > 0 { ussr_bg - 1 } else { 0 };
                    }
                }
                proof { lemma_cname_index_inverse(CName::Taiwan); }
                if state.is_controlled(Side::US, CName::Taiwan.index()) {
                    if state.has_effect(Side::US, Effect::FormosanResolution) {
                        us_bg = us_bg + 1;
                        us_n = us_n - 1;
                    }
                }
            },
            _ => {},
        }
        (us_bg, us_n, ussr_bg, ussr_n)
    }

    /// Returns the standing of both sides in the region, US first, and the battleground
    /// difference.
    pub fn status(&self, state: &GameState, use_shuttle: bool) -> (r: ([Status; 2], i8))
        requires
            state.wf(),
        ensures
            r.0[0] == status_spec(*self, *state, use_shuttle).0,
            r.0[1] == status_spec(*self, *state, use_shuttle).1,
            r.1 == status_spec(*self, *state, use_shuttle).2,
    {
        let (us_bg, us_n, ussr_bg, ussr_n) = self.adjusted(state, use_shuttle);
        let bg_total: i8 = match self {
            Region::Europe => 5,
            Region::MiddleEast => 6,
            Region::Asia => 6,
            Region::Africa => 5,
            Region::CentralAmerica => 3,
            Region::SouthAmerica => 4,
            _ => 0,
        };
        let diff = us_bg + us_n - ussr_bg - ussr_n;
        let ussr_status = if ussr_bg == bg_total && diff < 0 {
            Status::Control
        } else if ussr_bg > us_bg && diff < 0 && ussr_n > 0 {
            Status::Domination
        } else if ussr_bg + ussr_n > 0 {
            Status::Presence
        } else {
            Status::Zero
        };
        let us_status = if us_bg == bg_total && diff > 0 {
            Status::Control
        } else if us_bg > ussr_bg && diff > 0 && us_n > 0 {
            Status::Domination
        } else if us_bg + us_n > 0 {
            Status::Presence
        } else {
            Status::Zero
        };
        let ret = [us_status, ussr_status];
        if let Region::SoutheastAsia = self {
            (ret, us_n - ussr_n + 2 * us_bg - 2 * ussr_bg)
        } else {
            (ret, us_bg - ussr_bg)
        }
    }
}

/// The first occurrence of an effect is where a search from the front finds it.
pub proof fn lemma_first_pos(v: Seq<Effect>, e: Effect, i: int)
    requires
        0 <= i < v.len(),
        v[i] == e,
        forall|j: int| 0 <= j < i ==> v[j] != e,
    ensures
        first_pos(v, e) == i,
{
    let k = first_pos(v, e);
    assert(0 <= k < v.len() && v[k] == e && forall|j: int| 0 <= j < k ==> v[j] != e);
    if k < i {
        assert(v[k] != e);
    }
    if i < k {
        assert(v[i] != e);
    }
}

/// The US effects after a scoring that clears Shuttle Diplomacy: its first occurrence is
/// replaced by the last effect, and the list shrinks by one.
pub open(crate) spec fn effects_after_score(r: Region, s: GameState) -> Seq<Effect> {
    let v = s.effects_v(Side::US);
    if clears_shuttle(r, s) {
        v.update(first_pos(v, Effect::ShuttleDiplomacy), v.last()).drop_last()
    } else {
        v
    }
}

impl Region {
    /// The points for control next to the other superpower.
    fn adjacency(&self, state: &GameState) -> (r: i16)
        requires
            state.wf(),
        ensures
            r == adjacency_points(*self, *state),
    {
        proof {
            lemma_cname_index_inverse(CName::Finland);
            lemma_cname_index_inverse(CName::Poland);
            lemma_cname_index_inverse(CName::Romania);
            lemma_cname_index_inverse(CName::Canada);
            lemma_cname_index_inverse(CName::Afghanistan);
            lemma_cname_index_inverse(CName::NKorea);
            lemma_cname_index_inverse(CName::Japan);
            lemma_cname_index_inverse(CName::Mexico);
            lemma_cname_index_inverse(CName::Cuba);
        }
        let mut vp_change: i16 = 0;
        match self {
            Region::Europe => {
                if state.is_controlled(Side::US, CName::Finland.index()) { vp_change = vp_change + 1; }
                if state.is_controlled(Side::US, CName::Poland.index()) { vp_change = vp_change + 1; }
                if state.is_controlled(Side::US, CName::Romania.index()) { vp_change = vp_change + 1; }
                if state.is_controlled(Side::USSR, CName::Canada.index()) { vp_change = vp_change - 1; }
            },
            Region::Asia => {
                if state.is_controlled(Side::US, CName::Afghanistan.index()) { vp_change = vp_change + 1; }
                if state.is_controlled(Side::US, CName::NKorea.index()) { vp_change = vp_change + 1; }
                if state.is_controlled(Side::USSR, CName::Japan.index()) { vp_change = vp_change - 1; }
            },
            Region::CentralAmerica => {
                if state.is_controlled(Side::USSR, CName::Mexico.index()) { vp_change = vp_change - 1; }
                if state.is_controlled(Side::USSR, CName::Cuba.index()) { vp_change = vp_change - 1; }
            },
            _ => {},
        }
        vp_change
    }

    /// Ends Shuttle Diplomacy after Middle East or Asia scoring, except in final scoring.
    fn end_shuttle(&self, state: &mut GameState)
        requires
            old(state).wf(),
        ensures
            final(state).effects_v(Side::US) == effects_after_score(*self, *old(state)),
            final(state).effects_v(Side::USSR) == old(state).effects_v(Side::USSR),
            final(state).same_but_effects(old(state)),
            final(state).wf(),
    {
        let ghost s0 = *state;
        match self {
            Region::MiddleEast | Region::Asia => {
                if let Some(index) = state.effect_pos(Side::US, Effect::ShuttleDiplomacy) {
                    if !state.is_final_scoring() {
                        proof { lemma_first_pos(s0.effects_v(Side::US), Effect::ShuttleDiplomacy, index as int); }
                        state.clear_effect(Side::US, index);
                    }
                }
            },
            _ => {},
        }
    }

    /// The points the two standings are worth here, the USSR's counted against.
    fn standing_points(&self, us_status: Status, ussr_status: Status) -> (r: i16)
        ensures
            r == status_points(*self, us_status) - status_points(*self, ussr_status),
    {
        let (p, d, c): (i16, i16, i16) = match self {
            Region::Europe => (3, 7, 0),
            Region::MiddleEast => (3, 5, 7),
            Region::Asia => (3, 7, 9),
            Region::Africa => (1, 4, 6),
            Region::CentralAmerica => (1, 3, 5),
            Region::SouthAmerica => (2, 5, 6),
            _ => (0, 0, 0),
        };
        let mut vp_change: i16 = 0;
        match us_status {
            Status::Presence => vp_change = vp_change + p,
            Status::Domination => vp_change = vp_change + d,
            Status::Control => vp_change = vp_change + c,
            _ => {},
        }
        match ussr_status {
            Status::Presence => vp_change = vp_change - p,
            Status::Domination => vp_change = vp_change - d,
            Status::Control => vp_change = vp_change - c,
            _ => {},
        }
        vp_change
    }

    /// Whether scoring this region keeps the victory points and the change it returns within
    /// `i8`.
    pub fn score_fits(&self, state: &GameState) -> (r: bool)
        requires
            state.wf(),
        ensures
            r == (i8::MIN <= score_outcome(*self, *state).0 <= i8::MAX
                && i8::MIN <= score_outcome(*self, *state).1 <= i8::MAX),
    {
        let final_scoring = state.is_final_scoring();
        let (statuses, bg_diff) = self.status(state, !final_scoring);
        let adj = self.adjacency(state) as i32;
        let vp = state.vp as i32;
        let change: i32 = if let Region::SoutheastAsia = self {
            adj + bg_diff as i32
        } else {
            let us_status = statuses[0];
            let ussr_status = statuses[1];
            if let Region::Europe = self {
                if let Status::Control = us_status {
                    return -128 <= 20 - vp && 20 - vp <= 127;
                }
                if let Status::Control = ussr_status {
                    return -128 <= -20 - vp && -20 - vp <= 127;
                }
            }
            adj + self.standing_points(us_status, ussr_status) as i32 + bg_diff as i32
        };
        -128 <= vp + change && vp + change <= 127 && -128 <= change && change <= 127
    }

    /// Scores the region: points for presence, domination and control, one per battleground
    /// more than the opponent and for control next to the other superpower. Control of
    /// Europe wins outright. Middle East and Asia scoring end Shuttle Diplomacy, except in
    /// final scoring. Returns the change in victory points.
    pub fn score(&self, state: &mut GameState) -> (r: i8)
        requires
            old(state).wf(),
            i8::MIN <= score_outcome(*self, *old(state)).0 <= i8::MAX,
            i8::MIN <= score_outcome(*self, *old(state)).1 <= i8::MAX,
        ensures
            r == score_outcome(*self, *old(state)).1,
            final(state).vp_v() == score_outcome(*self, *old(state)).0,
            final(state).effects_v(Side::US) == effects_after_score(*self, *old(state)),
            final(state).effects_v(Side::USSR) == old(state).effects_v(Side::USSR),
            final(state).same_but_effects(&old(state).with_vp(final(state).vp_v())),
            final(state).wf(),
    {
        let final_scoring = state.is_final_scoring();
        let (statuses, bg_diff) = self.status(state, !final_scoring);
        let mut vp_change = self.adjacency(state);
        self.end_shuttle(state);
        if let Region::SoutheastAsia = self {
            vp_change = vp_change + bg_diff as i16;
            state.vp = (state.vp as i16 + vp_change) as i8;
            return vp_change as i8;
        }
        let us_status = statuses[0];
        let ussr_status = statuses[1];
        if let Region::Europe = self {
            if let Status::Control = us_status {
                let x = 20 - state.vp;
                state.vp = 20;
                return x;
            }
            if let Status::Control = ussr_status {
                let x = -20 - state.vp;
                state.vp = -20;
                return x;
            }
        }
        vp_change = vp_change + self.standing_points(us_status, ussr_status);
        vp_change = vp_change + bg_diff as i16;
        state.vp = (state.vp as i16 + vp_change) as i8;
        vp_change as i8
    }
}

} // verus!
