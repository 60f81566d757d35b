use ts_engine::action::{Action, Allowed, Decision, Restriction};
use ts_engine::card::{Card, Effect};
use ts_engine::country::{access, CName, Region, Side};
use ts_engine::state::{DebugRand, GameState, InternalRand, TwilightRand, Win};
use ts_engine::tensor::DecodedChoice;

#[test]
fn test_influence() {}

#[test]
fn count_actions() {}

#[test]
fn test_scoring() {
    let mut state = GameState::new();
    let us = [
        CName::UK,
        CName::WGermany,
        CName::Poland,
        CName::SpainPortugal,
        CName::Greece,
        CName::Turkey,
        CName::Lebanon,
        CName::Egypt,
        CName::Iran,
        CName::Pakistan,
        CName::India,
        CName::Burma,
        CName::Australia,
        CName::Taiwan,
        CName::NKorea,
        CName::Japan,
        CName::Nigeria,
        CName::Zaire,
        CName::SEAfricanStates,
        CName::Ethiopia,
        CName::Mexico,
        CName::Venezuela,
        CName::Brazil,
        CName::Paraguay,
        CName::Argentina,
    ];
    let ussr = [
        CName::Finland,
        CName::EGermany,
        CName::Czechoslovakia,
        CName::Romania,
        CName::Italy,
        CName::France,
        CName::Syria,
        CName::Iraq,
        CName::SaudiaArabia,
        CName::Libya,
        CName::LaosCambodia,
        CName::Thailand,
        CName::Vietnam,
        CName::Indonesia,
        CName::SKorea,
        CName::Algeria,
        CName::Angola,
        CName::SouthAfrica,
        CName::Cuba,
        CName::Haiti,
        CName::Nicaragua,
        CName::Panama,
        CName::Chile,
        CName::Uruguay,
    ];
    for c in us.iter() {
        state.control(Side::US, *c);
    }
    for c in ussr.iter() {
        state.control(Side::USSR, *c);
    }
    // Use two copies of Shuttle, so order of scoring doesn't matter
    state.add_effect(Side::US, Effect::ShuttleDiplomacy);
    state.add_effect(Side::US, Effect::ShuttleDiplomacy);
    state.add_effect(Side::US, Effect::FormosanResolution);
    let scores = [
        (Region::Europe, 0),
        (Region::MiddleEast, 0),
        (Region::Asia, 9),
        (Region::Africa, -1),
        (Region::SouthAmerica, 5),
        (Region::CentralAmerica, -4),
        (Region::SoutheastAsia, -4),
        (Region::MiddleEast, -3), // Without Shuttle
        (Region::Asia, 8),        // Without Shuttle
    ];
    for (r, delta) in scores.iter() {
        assert_eq!(Region::score(r, &mut state), *delta);
    }
}

#[test]
fn check_win_thresholds() {
    let mut state = GameState::new();
    assert_eq!(state.check_win(), Ok(()));
    state.vp = 20;
    assert_eq!(state.check_win(), Err(Win::Vp(Side::US)));
    state.vp = -20;
    assert_eq!(state.check_win(), Err(Win::Vp(Side::USSR)));
    state.vp = 0;
    state.set_defcon(1);
    // The phasing USSR set off the war
    assert_eq!(state.check_win(), Err(Win::Defcon(Side::US)));
    state.set_defcon(9);
    assert_eq!(state.defcon(), 5);
}

#[test]
fn advance_ply_alternates() {
    let mut state = GameState::new();
    state.ar = 1;
    assert_eq!(state.advance_ply(), Ok(()));
    assert_eq!(*state.side(), Side::US);
    assert_eq!(state.ar, 1);
    assert_eq!(state.advance_ply(), Ok(()));
    assert_eq!(*state.side(), Side::USSR);
    assert_eq!(state.ar, 2);
}

#[test]
fn advance_turn_closes_the_turn() {
    let mut state = GameState::new();
    state.turn = 1;
    state.ar = 7;
    state.mil_ops = [5, 2];
    state.set_defcon(4);
    // The US has done enough; the USSR is two short and pays two points to the US.
    assert_eq!(state.advance_turn(), Ok(()));
    assert_eq!(state.turn, 2);
    assert_eq!(state.ar, 0);
    assert_eq!(state.vp, 2);
    assert_eq!(state.defcon(), 5);
    assert_eq!(state.mil_ops, [0, 0]);
}

#[test]
fn advance_turn_with_held_scoring_card() {
    let mut state = GameState::new();
    state.deck.hand_mut(Side::US).push(Card::Asia_Scoring);
    let turn = state.turn;
    assert_eq!(state.advance_turn(), Err(Win::HeldScoring(Side::USSR)));
    assert_eq!(state.turn, turn);
    state.deck.hand_mut(Side::USSR).push(Card::Europe_Scoring);
    assert_eq!(state.advance_turn(), Err(Win::HeldScoring(Side::US)));
}

#[test]
fn coup_and_defcon() {
    let mut state = GameState::four_four_two();
    let iran = CName::Iran.index();
    // Iran: stability 2, US 2. Operations 3 and a roll of 6 beat 4 by 5.
    state.take_coup(Side::USSR, iran, 3, 6, false);
    assert_eq!(state.countries[iran].us, 0);
    assert_eq!(state.countries[iran].ussr, 3);
    assert_eq!(state.defcon(), 4);
    assert_eq!(state.mil_ops(Side::USSR), 5);
    // A failed coup changes nothing on the map, and a free one records no operations
    let italy = CName::Italy.index();
    state.take_coup(Side::USSR, italy, 1, 1, true);
    assert_eq!(state.countries[italy].us, 4);
    assert_eq!(state.defcon(), 3);
}

#[test]
fn influence_costs() {
    let mut state = GameState::four_four_two();
    let italy = CName::Italy.index();
    assert_eq!(state.add_influence(Side::USSR, italy), 2);
    assert_eq!(state.countries[italy].ussr, 1);
    assert_eq!(state.add_influence(Side::US, italy), 1);
    assert_eq!(state.countries[italy].us, 5);
    state.remove_influence(Side::US, italy, 2);
    assert_eq!(state.countries[italy].us, 3);
    state.remove_all(Side::USSR, italy);
    assert_eq!(state.countries[italy].ussr, 0);
}

#[test]
fn realign_roll_off() {
    let mut state = GameState::four_four_two();
    let italy = CName::Italy.index();
    // USSR total 6; US total 1 plus one for more influence: Italy loses 4 US influence
    state.take_realign(italy, 1, 6);
    assert_eq!(state.countries[italy].us, 0);
}

#[test]
fn space_race_first_box() {
    let mut state = GameState::new();
    assert!(state.can_space(Side::US, 2));
    assert!(!state.can_space(Side::US, 1));
    assert!(state.space_card(Side::US, 3));
    assert_eq!(state.space[0], 1);
    assert_eq!(state.vp, 2);
    assert!(!state.can_space(Side::US, 4));
    assert!(!state.space_card(Side::USSR, 6));
    assert_eq!(state.space[1], 0);
}

#[test]
fn war_needs_four_after_adjacency() {
    let mut state = GameState::four_four_two();
    let sk = CName::SKorea.index();
    // No neighbour of South Korea is US controlled: a roll of 3 fails, 4 wins
    assert!(!state.war_target(Side::USSR, sk, 3));
    assert_eq!(state.countries[sk].us, 1);
    assert!(state.war_target(Side::USSR, sk, 4));
    assert_eq!(state.countries[sk].us, 0);
    assert_eq!(state.countries[sk].ussr, 1);
}

#[test]
fn cuban_choices_follow_influence() {
    let mut state = GameState::four_four_two();
    let cuban = state.legal_cuban(Side::US);
    assert_eq!(cuban.try_slice().unwrap().to_vec(), vec![1]);
    let cuban = state.legal_cuban(Side::USSR);
    assert_eq!(cuban.try_slice().unwrap().len(), 0);
    state.control(Side::USSR, CName::Cuba);
    let cuban = state.legal_cuban(Side::USSR);
    assert_eq!(cuban.try_slice().unwrap().to_vec(), vec![0]);
}

#[test]
fn access_reaches_neighbours() {
    let state = GameState::four_four_two();
    let a = access(&state, Side::US);
    assert!(a.contains(&CName::Italy.index()));
    assert!(a.contains(&CName::France.index()));
    assert!(!a.contains(&CName::Poland.index()));
    let mut sorted = a.clone();
    sorted.sort();
    assert_eq!(a, sorted);
}

#[test]
fn restriction_drops_repeated_choices() {
    let mut state = GameState::new();
    state.set_limit(2);
    let history = vec![
        DecodedChoice::new(Action::Place, Some(3)),
        DecodedChoice::new(Action::Place, Some(3)),
        DecodedChoice::new(Action::Place, Some(4)),
        DecodedChoice::new(Action::Remove, Some(5)),
        DecodedChoice::new(Action::Remove, Some(5)),
    ];
    let mut d = Decision::with_quantity(Side::USSR, Action::Place, Allowed::new_owned(vec![3, 4, 5]), 2);
    assert!(state.apply_restriction(&history, &mut d));
    assert_eq!(d.allowed.try_slice().unwrap().to_vec(), vec![4, 5]);
    state.restrict = Some(Restriction::Limit(3));
    let mut d = Decision::with_quantity(Side::USSR, Action::Place, Allowed::new_owned(vec![3, 4, 5]), 2);
    assert!(!state.apply_restriction(&history, &mut d));
    assert_eq!(d.allowed.try_slice().unwrap().to_vec(), vec![3, 4, 5]);
}

#[test]
fn pending_stack_order() {
    let mut state = GameState::new();
    state.add_pending(Decision::new_event(Side::US, Card::Fidel));
    let p = state.pending();
    assert_eq!(p.len(), 2);
    assert_eq!(p[0].action, Action::ClearEvent);
    assert_eq!(p[1].action, Action::Event);
    state.add_effect(Side::US, Effect::CubanMissileCrisis);
    state.add_pending(Decision::conduct_ops(Side::US, 2));
    assert_eq!(state.pending().len(), 4);
    assert_eq!(state.peek_pending().unwrap().action, Action::CubanMissile);
    assert_eq!(state.remove_pending().unwrap().action, Action::CubanMissile);
    state.clear_pending();
    assert!(state.empty_pending());
}

#[test]
fn scripted_rolls_and_seeded_rolls() {
    let mut rng = DebugRand::new(vec![2, 5], vec![6], Vec::new(), Vec::new(), Vec::new());
    assert_eq!(rng.roll(Side::US), 5);
    assert_eq!(rng.roll(Side::USSR), 6);
    assert_eq!(rng.roll(Side::US), 2);
    let mut r = InternalRand::new_seeded(7);
    for _ in 0..50 {
        let x = r.roll(Side::US);
        assert!((1..=6).contains(&x));
    }
}

#[test]
fn turn_effects_clear() {
    let mut state = GameState::new();
    state.add_effect(Side::US, Effect::Containment);
    state.add_effect(Side::US, Effect::Nato);
    state.add_effect(Side::USSR, Effect::Brezhnev);
    state.turn_effect_clear();
    assert_eq!(state.us_effects().to_vec(), vec![Effect::Nato]);
    assert_eq!(state.ussr_effects().len(), 0);
    state.turn_effect_clear();
    assert_eq!(state.us_effects().to_vec(), vec![Effect::Nato]);
    assert_eq!(state.ussr_effects().len(), 0);
}

#[test]
fn influence_with_two_ops_reaches_everything_accessible() {
    let state = GameState::four_four_two();
    assert_eq!(state.legal_influence(Side::US, 2), access(&state, Side::US));
    let one = state.legal_influence(Side::US, 1);
    let reach = access(&state, Side::US);
    let expected: Vec<usize> = reach
        .into_iter()
        .filter(|&i| state.countries[i].controller() != Side::USSR)
        .collect();
    assert_eq!(one, expected);
}

#[test]
fn coup_targets_follow_defcon() {
    let mut state = GameState::four_four_two();
    state.set_defcon(2);
    for i in state.legal_coup_realign(Side::US) {
        assert!(!Region::Europe.has_country(i));
        assert!(!Region::Asia.has_country(i));
        assert!(!Region::MiddleEast.has_country(i));
    }
    state.set_defcon(5);
    let all = state.legal_coup_realign(Side::USSR);
    assert!(all.iter().any(|&i| Region::Europe.has_country(i)));
}
