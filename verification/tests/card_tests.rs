use ts_engine::card::{init_cards, Card, Effect, NUM_CARDS};
use ts_engine::action::Action;
use ts_engine::country::Side;
use ts_engine::parse2::standard_card_name;
use ts_engine::state::{DebugRand, GameState};

#[test]
fn check_cards() {
    // Cards are sequential
    let cards: Vec<_> = (0..NUM_CARDS).map(|x| Card::from_index(x)).collect();
    assert_eq!(cards.len(), NUM_CARDS);
    for (i, c) in cards.iter().enumerate() {
        assert_eq!(c.index(), i);
    }
    let atts = init_cards();
    assert_eq!(atts.len(), NUM_CARDS);
}

#[test]
fn check_special_cards() {
    let state = GameState::new();
    for c in (1..Card::total()).map(|i| Card::from_index(i)) {
        let e_choices = c.e_choices(&state);
        if c.is_special() {
            assert!(e_choices.is_some()); // Some, even in dummy state
        } else {
            assert!(e_choices.is_none());
        }
    }
}

#[test]
fn card_names() {
    for i in 1..Card::total() {
        let card = Card::from_index(i);
        println!("{}", standard_card_name(card));
    }
}

#[test]
fn standard_names_star_removed_cards() {
    assert_eq!(standard_card_name(Card::Duck_and_Cover), "Duck and Cover");
    assert_eq!(standard_card_name(Card::Fidel), "Fidel*");
    assert_eq!(standard_card_name(Card::Asia_Scoring), "Asia Scoring");
}

#[test]
fn ops_modifiers_clamp() {
    assert_eq!(Card::Duck_and_Cover.ops(0), 3);
    assert_eq!(Card::Duck_and_Cover.ops(1), 4);
    assert_eq!(Card::Five_Year_Plan.ops(1), 4);
    assert_eq!(Card::Fidel.ops(-1), 1);
    assert_eq!(Card::Asia_Scoring.ops(0), 0);
    assert_eq!(Card::The_China_Card.base_ops(), 4);
}

#[test]
fn brezhnev_doctrine_is_a_ussr_effect() {
    let mut s = GameState::new();
    let mut r = DebugRand::new_empty();
    assert!(Card::Brezhnev_Doctrine.event(&mut s, &mut r));
    assert!(s.has_effect(Side::USSR, Effect::Brezhnev));
    assert_eq!(s.base_ops_offset(Side::USSR), 1);
    assert_eq!(s.base_ops_offset(Side::US), 0);
}

#[test]
fn five_year_plan_discards_the_drawn_card() {
    let mut s = GameState::new();
    s.deck.hand_mut(Side::USSR).push(Card::Duck_and_Cover);
    s.deck.hand_mut(Side::USSR).push(Card::Fidel);
    let mut r = DebugRand::new(vec![], vec![], vec![Some(Card::Duck_and_Cover)], vec![], vec![]);
    assert!(Card::Five_Year_Plan.event(&mut s, &mut r));
    assert_eq!(s.deck.hand(Side::USSR).card_vec(), vec![Card::Fidel]);
    // Duck and Cover is a US card: its event is pushed for the USSR.
    let top = s.peek_pending().unwrap();
    assert_eq!((top.agent, top.action), (Side::USSR, Action::Event));
}
