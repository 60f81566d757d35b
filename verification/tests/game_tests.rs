use ts_engine::action::{Action, Decision};
use ts_engine::card::Card;
use ts_engine::country::{CName, Region, Side};
use ts_engine::game::{Game, Start, Status};
use ts_engine::state::{DebugRand, GameState, InternalRand, Win};
use ts_engine::tensor::DecodedChoice;

fn scripted(us_rolls: Vec<i8>, ussr_rolls: Vec<i8>) -> DebugRand {
    DebugRand::new(us_rolls, ussr_rolls, Vec::new(), Vec::new(), Vec::new())
}

#[test]
fn test_summit() {
    let rng = scripted(vec![5], vec![3]);
    let mut game = Game::standard_start(rng);
    game.state.clear_pending();
    game.setup(Start::FirstAR(4));
    game.state.deck.hand_mut(Side::US).push(Card::Summit);
    game.state.deck.hand_mut(Side::USSR).push(Card::Summit);
    game.state.set_defcon(2);
    assert_eq!(game.status, Status::AR);
    let summit_play = DecodedChoice::new(Action::Event, Some(Card::Summit as usize));
    let defcon_one = DecodedChoice::new(Action::ChangeDefcon, Some(1));
    assert!(game.consume_action(summit_play).is_ok());
    assert_eq!(game.consume_action(defcon_one), Err(Win::Defcon(Side::US)));
}

#[test]
fn standard_start_waits_for_headlines() {
    let game = Game::standard_start(scripted(vec![], vec![]));
    assert_eq!(game.status, Status::ChooseHL);
    assert_eq!(game.state.countries[CName::Italy as usize].us, 4);
    assert_eq!(game.state.countries[CName::Austria as usize].ussr, 1);
    let pending = game.state.pending();
    assert_eq!(pending.len(), 2);
    // Even in the space race: the USSR chooses first, its decision on top.
    assert_eq!(pending[1].agent, Side::USSR);
    assert_eq!(pending[0].agent, Side::US);
    assert!(pending.iter().all(|d| d.action == Action::ChooseCard));
}

#[test]
fn setup_beginning_deals_and_places() {
    let mut game = Game::new(GameState::new(), scripted(vec![], vec![]));
    assert!(game.setup(Start::Beginning));
    assert_eq!(game.status, Status::Start);
    assert_eq!(game.state.deck.hand(Side::US).len(), 8);
    assert_eq!(game.state.deck.hand(Side::USSR).len(), 8);
    let pending = game.state.pending();
    assert_eq!(pending.len(), 4);
    let top = &pending[3];
    assert_eq!((top.agent, top.action, top.quantity), (Side::USSR, Action::Place, 6));
    let next = &pending[2];
    assert_eq!((next.agent, next.action, next.quantity), (Side::US, Action::Place, 7));
}

#[test]
fn setup_headline_and_first_round() {
    let mut game = Game::new(GameState::new(), scripted(vec![], vec![]));
    assert!(game.setup(Start::HL(4)));
    assert_eq!(game.status, Status::ChooseHL);
    assert_eq!(game.state.turn, 4);
    assert_eq!(game.state.deck.hand(Side::US).len(), 9);
    let mut game = Game::new(GameState::new(), scripted(vec![], vec![]));
    assert!(game.setup(Start::FirstAR(2)));
    assert_eq!(game.status, Status::AR);
    assert_eq!((game.state.turn, game.state.ar, game.state.side), (2, 1, Side::USSR));
    let pending = game.state.pending();
    assert_eq!(pending.len(), 1);
    assert_eq!((pending[0].agent, pending[0].action), (Side::USSR, Action::BeginAr));
}

fn headline(game: &mut Game<DebugRand>, card: Card) -> Result<i8, Win> {
    game.consume_action(DecodedChoice::new(Action::ChooseCard, Some(card as usize)))
}

#[test]
fn headlines_order_by_operations() {
    // The USSR's three-operation card goes before the US's one-operation card.
    let mut game = Game::standard_start(scripted(vec![], vec![]));
    assert_eq!(headline(&mut game, Card::Socialist_Governments), Ok(0));
    assert_eq!(game.status, Status::ChooseHL);
    assert_eq!(game.state.pending().last().unwrap().agent, Side::US);
    assert_eq!(headline(&mut game, Card::Blockade), Ok(0));
    assert_eq!(game.status, Status::ResolveHL);
    let top = game.state.pending().last().unwrap();
    assert_eq!((top.agent, top.action), (Side::USSR, Action::Event));
    assert_eq!(game.state.side, Side::USSR);
}

#[test]
fn headlines_tie_goes_to_us() {
    let mut game = Game::standard_start(scripted(vec![], vec![]));
    assert_eq!(headline(&mut game, Card::Socialist_Governments), Ok(0));
    assert_eq!(headline(&mut game, Card::Duck_and_Cover), Ok(0));
    assert_eq!(game.status, Status::ResolveHL);
    let top = game.state.pending().last().unwrap();
    assert_eq!((top.agent, top.action), (Side::US, Action::Event));
    assert_eq!(game.state.side, Side::US);
}

#[test]
fn pass_takes_the_decision_off() {
    let mut game = Game::new(GameState::new(), scripted(vec![], vec![]));
    game.setup(Start::FirstAR(1));
    let pass = DecodedChoice::new(Action::Pass, None);
    // Passing the start of the round leaves its end, which resolves on its own; the USSR
    // round then gives way to the US round.
    assert_eq!(game.consume_action(pass), Ok(0));
    assert_eq!(game.status, Status::AR);
    assert_eq!(game.state.side, Side::US);
    let pending = game.state.pending();
    assert_eq!((pending.last().unwrap().agent, pending.last().unwrap().action), (Side::US, Action::BeginAr));
}

#[test]
fn final_scoring_scores_europe_last() {
    let mut game = Game::standard_start(scripted(vec![], vec![]));
    game.state.turn = 11;
    let mut expected = game.state.clone();
    for region in [
        Region::Asia,
        Region::MiddleEast,
        Region::Africa,
        Region::CentralAmerica,
        Region::SouthAmerica,
        Region::Europe,
    ] {
        region.score(&mut expected);
    }
    let winner = if expected.vp >= 0 { Side::US } else { Side::USSR };
    let pass = DecodedChoice::new(Action::Pass, None);
    assert_eq!(game.consume_action(pass), Err(Win::Vp(winner)));
    assert_eq!(game.state.vp, expected.vp);
    assert_eq!(game.state.turn, 11);
}

#[test]
fn last_round_ends_the_turn() {
    let mut game = Game::new(GameState::new(), InternalRand::new_seeded(7));
    game.status = Status::AR;
    game.state.turn = 1;
    game.state.ar = 6;
    game.state.side = Side::US;
    game.state.add_pending(Decision::begin_ar(Side::US));
    let pass = DecodedChoice::new(Action::Pass, None);
    assert_eq!(game.consume_action(pass), Ok(0));
    assert_eq!(game.state.turn, 2);
    assert_eq!(game.state.ar, 0);
    assert_eq!(game.status, Status::ChooseHL);
    assert_eq!(game.state.deck.hand(Side::US).len(), 8);
    assert_eq!(game.state.deck.hand(Side::USSR).len(), 8);
    let pending = game.state.pending();
    assert_eq!(pending.len(), 2);
    assert!(pending.iter().all(|d| d.action == Action::ChooseCard));
}
