use vstd::prelude::*;
use crate::card::{card_att, Card};

verus! {

/// The printed name of a card: its identifier with spaces for underscores.
pub open spec fn card_name_spec(c: Card) -> Seq<char> {
    match c {
        Card::Dummy => "Dummy"@,
        Card::Asia_Scoring => "Asia Scoring"@,
        Card::Europe_Scoring => "Europe Scoring"@,
        Card::Middle_East_Scoring => "Middle East Scoring"@,
        Card::Duck_and_Cover => "Duck and Cover"@,
        Card::Five_Year_Plan => "Five Year Plan"@,
        Card::The_China_Card => "The China Card"@,
        Card::Socialist_Governments => "Socialist Governments"@,
        Card::Fidel => "Fidel"@,
        Card::Vietnam_Revolts => "Vietnam Revolts"@,
        Card::Blockade => "Blockade"@,
        Card::Korean_War => "Korean War"@,
        Card::Romanian_Abdication => "Romanian Abdication"@,
        Card::Arab_Israeli_War => "Arab Israeli War"@,
        Card::Comecon => "Comecon"@,
        Card::Nasser => "Nasser"@,
        Card::Warsaw_Pact_Formed => "Warsaw Pact Formed"@,
        Card::De_Gaulle_Leads_France => "De Gaulle Leads France"@,
        Card::Captured_Nazi_Scientist => "Captured Nazi Scientist"@,
        Card::Truman_Doctrine => "Truman Doctrine"@,
        Card::Olympic_Games => "Olympic Games"@,
        Card::NATO => "NATO"@,
        Card::Independent_Reds => "Independent Reds"@,
        Card::Marshall_Plan => "Marshall Plan"@,
        Card::Indo_Pakistani_War => "Indo Pakistani War"@,
        Card::Containment => "Containment"@,
        Card::CIA_Created => "CIA Created"@,
        Card::US_Japan_Mutual_Defense_Pact => "US Japan Mutual Defense Pact"@,
        Card::Suez_Crisis => "Suez Crisis"@,
        Card::East_European_Unrest => "East European Unrest"@,
        Card::Decolonization => "Decolonization"@,
        Card::Red_Scare_Purge => "Red Scare Purge"@,
        Card::UN_Intervention => "UN Intervention"@,
        Card::De_Stalinization => "De Stalinization"@,
        Card::Nuclear_Test_Ban => "Nuclear Test Ban"@,
        Card::Formosan_Resolution => "Formosan Resolution"@,
        Card::Brush_War => "Brush War"@,
        Card::Central_America_Scoring => "Central America Scoring"@,
        Card::Southeast_Asia_Scoring => "Southeast Asia Scoring"@,
        Card::Arms_Race => "Arms Race"@,
        Card::Cuban_Missile_Crisis => "Cuban Missile Crisis"@,
        Card::Nuclear_Subs => "Nuclear Subs"@,
        Card::Quagmire => "Quagmire"@,
        Card::SALT_Negotiations => "SALT Negotiations"@,
        Card::Bear_Trap => "Bear Trap"@,
        Card::Summit => "Summit"@,
        Card::How_I_Learned_To_Stop_Worrying => "How I Learned To Stop Worrying"@,
        Card::Junta => "Junta"@,
        Card::Kitchen_Debates => "Kitchen Debates"@,
        Card::Missile_Envy => "Missile Envy"@,
        Card::We_Will_Bury_You => "We Will Bury You"@,
        Card::Brezhnev_Doctrine => "Brezhnev Doctrine"@,
        Card::Portuguese_Empire_Crumbles => "Portuguese Empire Crumbles"@,
        Card::South_African_Unrest => "South African Unrest"@,
        Card::Allende => "Allende"@,
        Card::Willy_Brandt => "Willy Brandt"@,
        Card::Muslim_Revolution => "Muslim Revolution"@,
        Card::ABM_Treaty => "ABM Treaty"@,
        Card::Cultural_Revolution => "Cultural Revolution"@,
        Card::Flower_Power => "Flower Power"@,
        Card::U2_Incident => "U2 Incident"@,
        Card::OPEC => "OPEC"@,
        Card::Lone_Gunman => "Lone Gunman"@,
        Card::Colonial_Rear_Guards => "Colonial Rear Guards"@,
        Card::Panama_Canal_Returned => "Panama Canal Returned"@,
        Card::Camp_David_Accords => "Camp David Accords"@,
        Card::Puppet_Governments => "Puppet Governments"@,
        Card::Grain_Sales => "Grain Sales"@,
        Card::John_Paul => "John Paul"@,
        Card::Latin_American_Death_Squads => "Latin American Death Squads"@,
        Card::OAS_Founded => "OAS Founded"@,
        Card::Nixon_Plays_China => "Nixon Plays China"@,
        Card::Sadat_Expels_Soviets => "Sadat Expels Soviets"@,
        Card::Shuttle_Diplomacy => "Shuttle Diplomacy"@,
        Card::The_Voice_Of_America => "The Voice Of America"@,
        Card::Liberation_Theology => "Liberation Theology"@,
        Card::Ussuri_River_Skirmish => "Ussuri River Skirmish"@,
        Card::Ask_Not => "Ask Not"@,
        Card::Alliance_For_Progress => "Alliance For Progress"@,
        Card::Africa_Scoring => "Africa Scoring"@,
        Card::One_Small_Step => "One Small Step"@,
        Card::South_America_Scoring => "South America Scoring"@,
        Card::Iranian_Hostage_Crisis => "Iranian Hostage Crisis"@,
        Card::The_Iron_Lady => "The Iron Lady"@,
        Card::Reagan_Bombs_Libya => "Reagan Bombs Libya"@,
        Card::Star_Wars => "Star Wars"@,
        Card::North_Sea_Oil => "North Sea Oil"@,
        Card::The_Reformer => "The Reformer"@,
        Card::Marine_Barracks_Bombing => "Marine Barracks Bombing"@,
        Card::Soviets_Shoot_Down_KAL => "Soviets Shoot Down KAL"@,
        Card::Glasnost => "Glasnost"@,
        Card::Ortega_Elected => "Ortega Elected"@,
        Card::Terrorism => "Terrorism"@,
        Card::Iran_Contra_Scandal => "Iran Contra Scandal"@,
        Card::Chernobyl => "Chernobyl"@,
        Card::Latin_American_Debt_Crisis => "Latin American Debt Crisis"@,
        Card::Tear_Down_This_Wall => "Tear Down This Wall"@,
        Card::An_Evil_Empire => "An Evil Empire"@,
        Card::Aldrich_Ames_Remix => "Aldrich Ames Remix"@,
        Card::Pershing_II_Deployed => "Pershing II Deployed"@,
        Card::Wargames => "Wargames"@,
        Card::Solidarity => "Solidarity"@,
        Card::Iran_Iraq_War => "Iran Iraq War"@,
        Card::Defectors => "Defectors"@,
        Card::The_Cambridge_Five => "The Cambridge Five"@,
        Card::Special_Relationship => "Special Relationship"@,
        Card::NORAD => "NORAD"@,
        Card::Che => "Che"@,
        Card::Our_Man_In_Tehran => "Our Man In Tehran"@,
        Card::Yuri_And_Samantha => "Yuri And Samantha"@,
        Card::AWACS => "AWACS"@,
    }
}

/// The name a game record gives a card: its printed name, with a star for a card that is
/// removed after its event.
pub open spec fn standard_name_spec(c: Card) -> Seq<char> {
    if card_att(c).starred { card_name_spec(c) + "*"@ } else { card_name_spec(c) }
}

/// The printed name of a card.
fn card_name(c: Card) -> (r: &'static str)
    ensures
        r@ == card_name_spec(c),
{
    match c {
        Card::Dummy => "Dummy",
        Card::Asia_Scoring => "Asia Scoring",
        Card::Europe_Scoring => "Europe Scoring",
        Card::Middle_East_Scoring => "Middle East Scoring",
        Card::Duck_and_Cover => "Duck and Cover",
        Card::Five_Year_Plan => "Five Year Plan",
        Card::The_China_Card => "The China Card",
        Card::Socialist_Governments => "Socialist Governments",
        Card::Fidel => "Fidel",
        Card::Vietnam_Revolts => "Vietnam Revolts",
        Card::Blockade => "Blockade",
        Card::Korean_War => "Korean War",
        Card::Romanian_Abdication => "Romanian Abdication",
        Card::Arab_Israeli_War => "Arab Israeli War",
        Card::Comecon => "Comecon",
        Card::Nasser => "Nasser",
        Card::Warsaw_Pact_Formed => "Warsaw Pact Formed",
        Card::De_Gaulle_Leads_France => "De Gaulle Leads France",
        Card::Captured_Nazi_Scientist => "Captured Nazi Scientist",
        Card::Truman_Doctrine => "Truman Doctrine",
        Card::Olympic_Games => "Olympic Games",
        Card::NATO => "NATO",
        Card::Independent_Reds => "Independent Reds",
        Card::Marshall_Plan => "Marshall Plan",
        Card::Indo_Pakistani_War => "Indo Pakistani War",
        Card::Containment => "Containment",
        Card::CIA_Created => "CIA Created",
        Card::US_Japan_Mutual_Defense_Pact => "US Japan Mutual Defense Pact",
        Card::Suez_Crisis => "Suez Crisis",
        Card::East_European_Unrest => "East European Unrest",
        Card::Decolonization => "Decolonization",
        Card::Red_Scare_Purge => "Red Scare Purge",
        Card::UN_Intervention => "UN Intervention",
        Card::De_Stalinization => "De Stalinization",
        Card::Nuclear_Test_Ban => "Nuclear Test Ban",
        Card::Formosan_Resolution => "Formosan Resolution",
        Card::Brush_War => "Brush War",
        Card::Central_America_Scoring => "Central America Scoring",
        Card::Southeast_Asia_Scoring => "Southeast Asia Scoring",
        Card::Arms_Race => "Arms Race",
        Card::Cuban_Missile_Crisis => "Cuban Missile Crisis",
        Card::Nuclear_Subs => "Nuclear Subs",
        Card::Quagmire => "Quagmire",
        Card::SALT_Negotiations => "SALT Negotiations",
        Card::Bear_Trap => "Bear Trap",
        Card::Summit => "Summit",
        Card::How_I_Learned_To_Stop_Worrying => "How I Learned To Stop Worrying",
        Card::Junta => "Junta",
        Card::Kitchen_Debates => "Kitchen Debates",
        Card::Missile_Envy => "Missile Envy",
        Card::We_Will_Bury_You => "We Will Bury You",
        Card::Brezhnev_Doctrine => "Brezhnev Doctrine",
        Card::Portuguese_Empire_Crumbles => "Portuguese Empire Crumbles",
        Card::South_African_Unrest => "South African Unrest",
        Card::Allende => "Allende",
        Card::Willy_Brandt => "Willy Brandt",
        Card::Muslim_Revolution => "Muslim Revolution",
        Card::ABM_Treaty => "ABM Treaty",
        Card::Cultural_Revolution => "Cultural Revolution",
        Card::Flower_Power => "Flower Power",
        Card::U2_Incident => "U2 Incident",
        Card::OPEC => "OPEC",
        Card::Lone_Gunman => "Lone Gunman",
        Card::Colonial_Rear_Guards => "Colonial Rear Guards",
        Card::Panama_Canal_Returned => "Panama Canal Returned",
        Card::Camp_David_Accords => "Camp David Accords",
        Card::Puppet_Governments => "Puppet Governments",
        Card::Grain_Sales => "Grain Sales",
        Card::John_Paul => "John Paul",
        Card::Latin_American_Death_Squads => "Latin American Death Squads",
        Card::OAS_Founded => "OAS Founded",
        Card::Nixon_Plays_China => "Nixon Plays China",
        Card::Sadat_Expels_Soviets => "Sadat Expels Soviets",
        Card::Shuttle_Diplomacy => "Shuttle Diplomacy",
        Card::The_Voice_Of_America => "The Voice Of America",
        Card::Liberation_Theology => "Liberation Theology",
        Card::Ussuri_River_Skirmish => "Ussuri River Skirmish",
        Card::Ask_Not => "Ask Not",
        Card::Alliance_For_Progress => "Alliance For Progress",
        Card::Africa_Scoring => "Africa Scoring",
        Card::One_Small_Step => "One Small Step",
        Card::South_America_Scoring => "South America Scoring",
        Card::Iranian_Hostage_Crisis => "Iranian Hostage Crisis",
        Card::The_Iron_Lady => "The Iron Lady",
        Card::Reagan_Bombs_Libya => "Reagan Bombs Libya",
        Card::Star_Wars => "Star Wars",
        Card::North_Sea_Oil => "North Sea Oil",
        Card::The_Reformer => "The Reformer",
        Card::Marine_Barracks_Bombing => "Marine Barracks Bombing",
        Card::Soviets_Shoot_Down_KAL => "Soviets Shoot Down KAL",
        Card::Glasnost => "Glasnost",
        Card::Ortega_Elected => "Ortega Elected",
        Card::Terrorism => "Terrorism",
        Card::Iran_Contra_Scandal => "Iran Contra Scandal",
        Card::Chernobyl => "Chernobyl",
        Card::Latin_American_Debt_Crisis => "Latin American Debt Crisis",
        Card::Tear_Down_This_Wall => "Tear Down This Wall",
        Card::An_Evil_Empire => "An Evil Empire",
        Card::Aldrich_Ames_Remix => "Aldrich Ames Remix",
        Card::Pershing_II_Deployed => "Pershing II Deployed",
        Card::Wargames => "Wargames",
        Card::Solidarity => "Solidarity",
        Card::Iran_Iraq_War => "Iran Iraq War",
        Card::Defectors => "Defectors",
        Card::The_Cambridge_Five => "The Cambridge Five",
        Card::Special_Relationship => "Special Relationship",
        Card::NORAD => "NORAD",
        Card::Che => "Che",
        Card::Our_Man_In_Tehran => "Our Man In Tehran",
        Card::Yuri_And_Samantha => "Yuri And Samantha",
        Card::AWACS => "AWACS",
    }
}

/// Parser of game records. Its grammar is not part of this crate.
pub struct TwilightParser;

/// The name a game record gives a card: its printed name, with a star for a card that is
/// removed after its event.
pub fn standard_card_name(card: Card) -> (r: String)
    ensures
        r@ == standard_name_spec(card),
{
    let mut name = String::from_str(card_name(card));
    if card.is_starred() {
        name.append("*");
    }
    name
}

} // verus!
