use std::collections::HashSet;
use ts_engine::action::{Action, Decision};
use ts_engine::card::Card;
use ts_engine::country::{CName, Side};
use ts_engine::state::GameState;
use ts_engine::tensor::{special_total, IndexMap, OutputIndex};

#[test]
fn test_index_map() {
    let pairs: Vec<(usize, usize)> = vec![(5, 0), (10, 2), (25, 4), (30, 7), (64, 10)];
    let map = IndexMap::new(pairs.clone());
    for (x, y) in pairs.iter().copied() {
        assert_eq!(*map.get(x).unwrap(), y);
    }
    let mut ptr = 0;
    for i in 0..16usize {
        if let Some((_x, y)) = pairs.get(ptr + 1) {
            if i >= *y {
                ptr += 1;
            }
        }
        let (x, y) = pairs[ptr];
        assert_eq!(map.find_key(&y), x);
    }
}

#[test]
fn conduct_ops() {
    let state = GameState::four_four_two();
    let mut d = Decision::conduct_ops(Side::USSR, 1);
    let output_vec = d.encode(&state);
    let mut coup = 0;
    let mut realign = 0;
    let mut inf: HashSet<_> = vec![
        CName::Finland,
        CName::Sweden,
        CName::EGermany,
        CName::Romania,
        CName::Poland,
        CName::Czechoslovakia,
        CName::Austria,
        CName::Hungary,
        CName::Turkey,
        CName::Syria,
        CName::Lebanon,
        CName::Israel,
        CName::Iraq,
        CName::Jordan,
        CName::SaudiaArabia,
        CName::GulfStates,
        CName::Afghanistan,
        CName::NKorea,
        CName::SKorea,
    ]
    .into_iter()
    .map(|x| x.index())
    .collect();
    for out in output_vec {
        let decoded = out.decode();
        match decoded.action {
            Action::Coup => coup += 1,
            Action::Realignment => realign += 1,
            Action::Influence => {
                let in_set = inf.remove(&decoded.choice.unwrap());
                assert!(in_set);
            }
            _ => {}
        }
    }
    assert_eq!(coup, 12);
    assert_eq!(realign, 12);
    assert_eq!(inf.len(), 0);
}

#[test]
fn encode_decode_single() {
    let o = OutputIndex::encode_single(Action::Event, Card::Duck_and_Cover.index());
    let d = o.decode();
    assert_eq!(d.action, Action::Event);
    assert_eq!(d.choice, Some(Card::Duck_and_Cover.index()));
    let p = OutputIndex::pass().decode();
    assert_eq!(p.action, Action::Pass);
    assert_eq!(p.choice, Some(0));
}

#[test]
fn special_total_counts_event_options() {
    // Seven cards offer two options each
    assert_eq!(special_total(), 14);
}

#[test]
fn begin_ar() {
    let mut state = GameState::new();
    for x in 14..21usize {
        state.deck.hand_mut(Side::US).push(Card::from_index(x));
    }
    state.deck.hand_mut(Side::US).push(Card::Asia_Scoring);
    let mut d = Decision::begin_ar(Side::US);
    let output_vec = d.encode(&state);
    let mut events = 0;
    let mut spaces = 0;
    let out_vec_len = output_vec.len();
    for out in output_vec {
        let decoded = out.decode();
        match decoded.action {
            Action::Event => events += 1,
            Action::Space => spaces += 1,
            _ => {}
        }
    }
    assert_eq!(out_vec_len, 15 + 4);
    assert_eq!(events, 4);
    assert_eq!(spaces, 4);
}
