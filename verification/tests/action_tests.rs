use ts_engine::action::{Action, Decision, NUM_ACTIONS};
use ts_engine::country::{CName, Side};
use ts_engine::state::GameState;

#[test]
fn test_action_offsets() {
    let mut last = 0;
    for i in 0..NUM_ACTIONS {
        let action = Action::from_index(i);
        let next = action.offset();
        if i == 0 {
            assert_eq!(next, 0);
        } else {
            assert!(next > last);
            last = next;
        }
    }
    let inf = Action::Influence;
    let init_off = inf.offset();
    for &name in [CName::Turkey, CName::Austria, CName::Chile].iter() {
        let input = init_off + name.index();
        let (act, c_index) = Action::action_from_offset(input);
        assert_eq!(name.index(), c_index);
        assert_eq!(inf, act);
    }
}

#[test]
fn offsets_round_trip() {
    for i in 0..NUM_ACTIONS {
        let a = Action::from_index(i);
        for c in 0..a.legal_choices() {
            let (b, d) = Action::action_from_offset(a.offset() + c);
            assert_eq!(a, b);
            assert_eq!(c, d);
        }
    }
}

#[test]
fn determine_influence_and_coups() {
    let state = GameState::four_four_two();
    let d = Decision::determine(Side::USSR, Action::Coup, 3, &state);
    assert_eq!(d.quantity, 3);
    assert_eq!(d.action, Action::Coup);
    let coups = d.allowed.try_slice().unwrap().to_vec();
    // At DEFCON 5 the USSR may coup anywhere the US has influence
    assert!(coups.contains(&CName::Iran.index()));
    assert!(coups.contains(&CName::Italy.index()));
    assert!(coups.contains(&CName::Canada.index()));
    assert!(!coups.contains(&CName::France.index()));
}

#[test]
fn headline_excludes_china() {
    let state = GameState::new();
    let d = Decision::headline(Side::US, &state);
    assert_eq!(d.action, Action::ChooseCard);
    assert_eq!(d.allowed.try_slice().unwrap().len(), 0);
}
