use ts_engine::action::{Action, PASS};
use ts_engine::agent::ScriptedAgent;
use ts_engine::card::Card;
use ts_engine::country::{CName, Side};
use ts_engine::record::{card, choices, expand_country, parse_line, parse_lines, side, try_parse_lines, MetaAction};
use ts_engine::state::GameState;
use ts_engine::tensor::OutputIndex;

#[test]
fn basic_parse() {
    assert_eq!(side(b"USSR Place 20 20"), Some((&b" Place 20 20"[..], Side::USSR)));
    assert_eq!(
        side(b"US Warsaw_Pact_Formed OE"),
        Some((&b" Warsaw_Pact_Formed OE"[..], Side::US))
    );
    assert!(side(b"IDK").is_none());
    assert_eq!(
        card(b"Warsaw_Pact_Formed OE"),
        Some((&b" OE"[..], Card::Warsaw_Pact_Formed))
    );
    assert!(card(b"NotNATO").is_none());
    let (empty, c) = choices(b"20 40 60").unwrap();
    assert_eq!(empty, &b""[..]);
    assert_eq!(c, vec![20usize, 40, 60]);
    let (empty, expand) = expand_country(b"4-Poland").unwrap();
    assert_eq!(empty, &b""[..]);
    let poland = CName::Poland as usize;
    let eg = CName::EGermany as usize;
    let aust = CName::Austria as usize;
    assert_eq!(expand, vec![poland; 4]);
    assert!(expand_country(b"6-Beers").is_none());
    let (empty, choices) = choices(b"4-Poland 2-EGermany 1-Austria").unwrap();
    assert_eq!(empty, &b""[..]);
    assert_eq!(choices, vec![poland, poland, poland, poland, eg, eg, aust]);
}

#[test]
fn line_parse() {
    let parsed = parse_line(b"US Warsaw_Pact_Formed OE", Side::USSR);
    assert_eq!(parsed.side, Side::US);
    assert_eq!(parsed.card, Some(Card::Warsaw_Pact_Formed));
    assert_eq!(parsed.action, MetaAction::Real(Action::OpsEvent));
    assert_eq!(parsed.choices, Some(vec![]));
}

#[test]
fn line_without_side_or_keyword() {
    // No side: the side of the line before. No keyword: an opponent's card is played for
    // operations with its event, an own card for operations.
    let own = parse_line(b"Fidel", Side::USSR);
    assert_eq!(own.side, Side::USSR);
    assert_eq!(own.action, MetaAction::Real(Action::Ops));
    let opp = parse_line(b"Fidel", Side::US);
    assert_eq!(opp.action, MetaAction::Real(Action::OpsEvent));
    let roll = parse_line(b"\tRoll  4", Side::US);
    assert_eq!(roll.side, Side::US);
    assert_eq!(roll.action, MetaAction::Roll);
    assert_eq!(roll.choices, Some(vec![4]));
}

#[test]
fn choices_stop_and_refuse() {
    // A double space ends the list; a token that is no number or country spoils it.
    let (rest, v) = choices(b"1 +2  3").unwrap();
    assert_eq!(v, vec![1, 2]);
    assert_eq!(rest, &b"  3"[..]);
    assert!(choices(b"1 Narnia").is_none());
    // The first country of the map is not among the names a record knows.
    assert!(choices(b"Turkey").is_none());
    assert_eq!(choices(b"Greece").unwrap().1, vec![CName::Greece as usize]);
    assert_eq!(choices(b"").unwrap().1, Vec::<usize>::new());
}

#[test]
fn parse_whole_record() {
    let text = "# opening\nUSSR Place 2-Poland EGermany\r\nUS Warsaw_Pact_Formed OE\nRoll 3\n\
                USSR Roll 6\nUS Duck_and_Cover Touch\nUSSR Fidel\nUS Pass\n";
    let record = parse_lines(text);
    let place = |c: CName| OutputIndex::encode_single(Action::Place, c as usize);
    let ussr_played = vec![
        place(CName::Poland),
        place(CName::Poland),
        place(CName::EGermany),
        OutputIndex::encode_single(Action::Ops, Card::Fidel as usize),
    ];
    let us_played = vec![
        OutputIndex::encode_single(Action::OpsEvent, Card::Warsaw_Pact_Formed as usize),
        OutputIndex::pass(),
    ];
    let mut ussr_script = ussr_played.clone();
    ussr_script.reverse();
    let mut us_script = us_played.clone();
    us_script.reverse();
    assert_eq!(record.ussr_agent.choices, ussr_script);
    assert_eq!(record.us_agent.choices, us_script);
    assert_eq!(record.rng.us_rolls, vec![3]);
    assert_eq!(record.rng.ussr_rolls, vec![6]);
    assert!(record.rng.discards.is_empty());
    assert_eq!(record.rng.us_draw, vec![Card::Warsaw_Pact_Formed, Card::Duck_and_Cover]);
    assert_eq!(record.rng.ussr_draw, vec![Card::Fidel]);
}

#[test]
fn scripted_agent_replays_in_order() {
    let a = OutputIndex::new(5);
    let b = OutputIndex::new(9);
    let mut agent = ScriptedAgent::new(&vec![a, b]);
    assert_eq!(agent.choices, vec![b, a]);
    // A trivial decision only takes the next choice off when it matches.
    assert!(!agent.trivial_action(Some(b)));
    assert!(!agent.trivial_action(None));
    assert!(agent.trivial_action(Some(a)));
    assert_eq!(agent.choices, vec![b]);
    let state = GameState::new();
    let got = agent.decide(&state, vec![OutputIndex::new(3), b]);
    assert_eq!(got, b.decode());
    assert!(agent.choices.is_empty());
}

#[test]
fn scripted_agent_passes_unrecorded_cuban_choice() {
    let pass = OutputIndex::new(PASS);
    let cuban = OutputIndex::new(ts_engine::action::CUBAN_OFFSET);
    let next = OutputIndex::new(40);
    let mut agent = ScriptedAgent::new(&vec![next]);
    let state = GameState::new();
    let got = agent.decide(&state, vec![pass, cuban]);
    assert_eq!(got, pass.decode());
    assert_eq!(agent.choices, vec![next]);
    let mut agent = ScriptedAgent::new(&vec![cuban]);
    let got = agent.decide(&state, vec![pass, cuban]);
    assert_eq!(got, cuban.decode());
    assert!(agent.choices.is_empty());
}

#[test]
fn checked_parse_refuses_bad_lines() {
    let text = "USSR Place 2-Poland\nUS Duck_and_Cover Touch\n";
    let checked = try_parse_lines(text).unwrap();
    let plain = parse_lines(text);
    assert_eq!(checked.ussr_agent.choices, plain.ussr_agent.choices);
    assert_eq!(checked.rng.us_draw, plain.rng.us_draw);
    assert!(try_parse_lines("USSR Bogus 3\n").is_none());
    assert!(try_parse_lines("US Roll\n").is_none());
}
