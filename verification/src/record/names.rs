use vstd::prelude::*;
use crate::card::Card;
use crate::country::CName;

verus! {

/// The identifier of a card, as a game record writes it.
pub open spec fn card_ident(c: Card) -> Seq<char> {
    match c {
        Card::Dummy => "Dummy"@,
        Card::Asia_Scoring => "Asia_Scoring"@,
        Card::Europe_Scoring => "Europe_Scoring"@,
        Card::Middle_East_Scoring => "Middle_East_Scoring"@,
        Card::Duck_and_Cover => "Duck_and_Cover"@,
        Card::Five_Year_Plan => "Five_Year_Plan"@,
        Card::The_China_Card => "The_China_Card"@,
        Card::Socialist_Governments => "Socialist_Governments"@,
        Card::Fidel => "Fidel"@,
        Card::Vietnam_Revolts => "Vietnam_Revolts"@,
        Card::Blockade => "Blockade"@,
        Card::Korean_War => "Korean_War"@,
        Card::Romanian_Abdication => "Romanian_Abdication"@,
        Card::Arab_Israeli_War => "Arab_Israeli_War"@,
        Card::Comecon => "Comecon"@,
        Card::Nasser => "Nasser"@,
        Card::Warsaw_Pact_Formed => "Warsaw_Pact_Formed"@,
        Card::De_Gaulle_Leads_France => "De_Gaulle_Leads_France"@,
        Card::Captured_Nazi_Scientist => "Captured_Nazi_Scientist"@,
        Card::Truman_Doctrine => "Truman_Doctrine"@,
        Card::Olympic_Games => "Olympic_Games"@,
        Card::NATO => "NATO"@,
        Card::Independent_Reds => "Independent_Reds"@,
        Card::Marshall_Plan => "Marshall_Plan"@,
        Card::Indo_Pakistani_War => "Indo_Pakistani_War"@,
        Card::Containment => "Containment"@,
        Card::CIA_Created => "CIA_Created"@,
        Card::US_Japan_Mutual_Defense_Pact => "US_Japan_Mutual_Defense_Pact"@,
        Card::Suez_Crisis => "Suez_Crisis"@,
        Card::East_European_Unrest => "East_European_Unrest"@,
        Card::Decolonization => "Decolonization"@,
        Card::Red_Scare_Purge => "Red_Scare_Purge"@,
        Card::UN_Intervention => "UN_Intervention"@,
        Card::De_Stalinization => "De_Stalinization"@,
        Card::Nuclear_Test_Ban => "Nuclear_Test_Ban"@,
        Card::Formosan_Resolution => "Formosan_Resolution"@,
        Card::Brush_War => "Brush_War"@,
        Card::Central_America_Scoring => "Central_America_Scoring"@,
        Card::Southeast_Asia_Scoring => "Southeast_Asia_Scoring"@,
        Card::Arms_Race => "Arms_Race"@,
        Card::Cuban_Missile_Crisis => "Cuban_Missile_Crisis"@,
        Card::Nuclear_Subs => "Nuclear_Subs"@,
        Card::Quagmire => "Quagmire"@,
        Card::SALT_Negotiations => "SALT_Negotiations"@,
        Card::Bear_Trap => "Bear_Trap"@,
        Card::Summit => "Summit"@,
        Card::How_I_Learned_To_Stop_Worrying => "How_I_Learned_To_Stop_Worrying"@,
        Card::Junta => "Junta"@,
        Card::Kitchen_Debates => "Kitchen_Debates"@,
        Card::Missile_Envy => "Missile_Envy"@,
        Card::We_Will_Bury_You => "We_Will_Bury_You"@,
        Card::Brezhnev_Doctrine => "Brezhnev_Doctrine"@,
        Card::Portuguese_Empire_Crumbles => "Portuguese_Empire_Crumbles"@,
        Card::South_African_Unrest => "South_African_Unrest"@,
        Card::Allende => "Allende"@,
        Card::Willy_Brandt => "Willy_Brandt"@,
        Card::Muslim_Revolution => "Muslim_Revolution"@,
        Card::ABM_Treaty => "ABM_Treaty"@,
        Card::Cultural_Revolution => "Cultural_Revolution"@,
        Card::Flower_Power => "Flower_Power"@,
        Card::U2_Incident => "U2_Incident"@,
        Card::OPEC => "OPEC"@,
        Card::Lone_Gunman => "Lone_Gunman"@,
        Card::Colonial_Rear_Guards => "Colonial_Rear_Guards"@,
        Card::Panama_Canal_Returned => "Panama_Canal_Returned"@,
        Card::Camp_David_Accords => "Camp_David_Accords"@,
        Card::Puppet_Governments => "Puppet_Governments"@,
        Card::Grain_Sales => "Grain_Sales"@,
        Card::John_Paul => "John_Paul"@,
        Card::Latin_American_Death_Squads => "Latin_American_Death_Squads"@,
        Card::OAS_Founded => "OAS_Founded"@,
        Card::Nixon_Plays_China => "Nixon_Plays_China"@,
        Card::Sadat_Expels_Soviets => "Sadat_Expels_Soviets"@,
        Card::Shuttle_Diplomacy => "Shuttle_Diplomacy"@,
        Card::The_Voice_Of_America => "The_Voice_Of_America"@,
        Card::Liberation_Theology => "Liberation_Theology"@,
        Card::Ussuri_River_Skirmish => "Ussuri_River_Skirmish"@,
        Card::Ask_Not => "Ask_Not"@,
        Card::Alliance_For_Progress => "Alliance_For_Progress"@,
        Card::Africa_Scoring => "Africa_Scoring"@,
        Card::One_Small_Step => "One_Small_Step"@,
        Card::South_America_Scoring => "South_America_Scoring"@,
        Card::Iranian_Hostage_Crisis => "Iranian_Hostage_Crisis"@,
        Card::The_Iron_Lady => "The_Iron_Lady"@,
        Card::Reagan_Bombs_Libya => "Reagan_Bombs_Libya"@,
        Card::Star_Wars => "Star_Wars"@,
        Card::North_Sea_Oil => "North_Sea_Oil"@,
        Card::The_Reformer => "The_Reformer"@,
        Card::Marine_Barracks_Bombing => "Marine_Barracks_Bombing"@,
        Card::Soviets_Shoot_Down_KAL => "Soviets_Shoot_Down_KAL"@,
        Card::Glasnost => "Glasnost"@,
        Card::Ortega_Elected => "Ortega_Elected"@,
        Card::Terrorism => "Terrorism"@,
        Card::Iran_Contra_Scandal => "Iran_Contra_Scandal"@,
        Card::Chernobyl => "Chernobyl"@,
        Card::Latin_American_Debt_Crisis => "Latin_American_Debt_Crisis"@,
        Card::Tear_Down_This_Wall => "Tear_Down_This_Wall"@,
        Card::An_Evil_Empire => "An_Evil_Empire"@,
        Card::Aldrich_Ames_Remix => "Aldrich_Ames_Remix"@,
        Card::Pershing_II_Deployed => "Pershing_II_Deployed"@,
        Card::Wargames => "Wargames"@,
        Card::Solidarity => "Solidarity"@,
        Card::Iran_Iraq_War => "Iran_Iraq_War"@,
        Card::Defectors => "Defectors"@,
        Card::The_Cambridge_Five => "The_Cambridge_Five"@,
        Card::Special_Relationship => "Special_Relationship"@,
        Card::NORAD => "NORAD"@,
        Card::Che => "Che"@,
        Card::Our_Man_In_Tehran => "Our_Man_In_Tehran"@,
        Card::Yuri_And_Samantha => "Yuri_And_Samantha"@,
        Card::AWACS => "AWACS"@,
    }
}

/// The identifier of a card.
pub fn card_ident_str(c: Card) -> (r: &'static str)
    ensures
        r@ == card_ident(c),
{
    match c {
        Card::Dummy => "Dummy",
        Card::Asia_Scoring => "Asia_Scoring",
        Card::Europe_Scoring => "Europe_Scoring",
        Card::Middle_East_Scoring => "Middle_East_Scoring",
        Card::Duck_and_Cover => "Duck_and_Cover",
        Card::Five_Year_Plan => "Five_Year_Plan",
        Card::The_China_Card => "The_China_Card",
        Card::Socialist_Governments => "Socialist_Governments",
        Card::Fidel => "Fidel",
        Card::Vietnam_Revolts => "Vietnam_Revolts",
        Card::Blockade => "Blockade",
        Card::Korean_War => "Korean_War",
        Card::Romanian_Abdication => "Romanian_Abdication",
        Card::Arab_Israeli_War => "Arab_Israeli_War",
        Card::Comecon => "Comecon",
        Card::Nasser => "Nasser",
        Card::Warsaw_Pact_Formed => "Warsaw_Pact_Formed",
        Card::De_Gaulle_Leads_France => "De_Gaulle_Leads_France",
        Card::Captured_Nazi_Scientist => "Captured_Nazi_Scientist",
        Card::Truman_Doctrine => "Truman_Doctrine",
        Card::Olympic_Games => "Olympic_Games",
        Card::NATO => "NATO",
        Card::Independent_Reds => "Independent_Reds",
        Card::Marshall_Plan => "Marshall_Plan",
        Card::Indo_Pakistani_War => "Indo_Pakistani_War",
        Card::Containment => "Containment",
        Card::CIA_Created => "CIA_Created",
        Card::US_Japan_Mutual_Defense_Pact => "US_Japan_Mutual_Defense_Pact",
        Card::Suez_Crisis => "Suez_Crisis",
        Card::East_European_Unrest => "East_European_Unrest",
        Card::Decolonization => "Decolonization",
        Card::Red_Scare_Purge => "Red_Scare_Purge",
        Card::UN_Intervention => "UN_Intervention",
        Card::De_Stalinization => "De_Stalinization",
        Card::Nuclear_Test_Ban => "Nuclear_Test_Ban",
        Card::Formosan_Resolution => "Formosan_Resolution",
        Card::Brush_War => "Brush_War",
        Card::Central_America_Scoring => "Central_America_Scoring",
        Card::Southeast_Asia_Scoring => "Southeast_Asia_Scoring",
        Card::Arms_Race => "Arms_Race",
        Card::Cuban_Missile_Crisis => "Cuban_Missile_Crisis",
        Card::Nuclear_Subs => "Nuclear_Subs",
        Card::Quagmire => "Quagmire",
        Card::SALT_Negotiations => "SALT_Negotiations",
        Card::Bear_Trap => "Bear_Trap",
        Card::Summit => "Summit",
        Card::How_I_Learned_To_Stop_Worrying => "How_I_Learned_To_Stop_Worrying",
        Card::Junta => "Junta",
        Card::Kitchen_Debates => "Kitchen_Debates",
        Card::Missile_Envy => "Missile_Envy",
        Card::We_Will_Bury_You => "We_Will_Bury_You",
        Card::Brezhnev_Doctrine => "Brezhnev_Doctrine",
        Card::Portuguese_Empire_Crumbles => "Portuguese_Empire_Crumbles",
        Card::South_African_Unrest => "South_African_Unrest",
        Card::Allende => "Allende",
        Card::Willy_Brandt => "Willy_Brandt",
        Card::Muslim_Revolution => "Muslim_Revolution",
        Card::ABM_Treaty => "ABM_Treaty",
        Card::Cultural_Revolution => "Cultural_Revolution",
        Card::Flower_Power => "Flower_Power",
        Card::U2_Incident => "U2_Incident",
        Card::OPEC => "OPEC",
        Card::Lone_Gunman => "Lone_Gunman",
        Card::Colonial_Rear_Guards => "Colonial_Rear_Guards",
        Card::Panama_Canal_Returned => "Panama_Canal_Returned",
        Card::Camp_David_Accords => "Camp_David_Accords",
        Card::Puppet_Governments => "Puppet_Governments",
        Card::Grain_Sales => "Grain_Sales",
        Card::John_Paul => "John_Paul",
        Card::Latin_American_Death_Squads => "Latin_American_Death_Squads",
        Card::OAS_Founded => "OAS_Founded",
        Card::Nixon_Plays_China => "Nixon_Plays_China",
        Card::Sadat_Expels_Soviets => "Sadat_Expels_Soviets",
        Card::Shuttle_Diplomacy => "Shuttle_Diplomacy",
        Card::The_Voice_Of_America => "The_Voice_Of_America",
        Card::Liberation_Theology => "Liberation_Theology",
        Card::Ussuri_River_Skirmish => "Ussuri_River_Skirmish",
        Card::Ask_Not => "Ask_Not",
        Card::Alliance_For_Progress => "Alliance_For_Progress",
        Card::Africa_Scoring => "Africa_Scoring",
        Card::One_Small_Step => "One_Small_Step",
        Card::South_America_Scoring => "South_America_Scoring",
        Card::Iranian_Hostage_Crisis => "Iranian_Hostage_Crisis",
        Card::The_Iron_Lady => "The_Iron_Lady",
        Card::Reagan_Bombs_Libya => "Reagan_Bombs_Libya",
        Card::Star_Wars => "Star_Wars",
        Card::North_Sea_Oil => "North_Sea_Oil",
        Card::The_Reformer => "The_Reformer",
        Card::Marine_Barracks_Bombing => "Marine_Barracks_Bombing",
        Card::Soviets_Shoot_Down_KAL => "Soviets_Shoot_Down_KAL",
        Card::Glasnost => "Glasnost",
        Card::Ortega_Elected => "Ortega_Elected",
        Card::Terrorism => "Terrorism",
        Card::Iran_Contra_Scandal => "Iran_Contra_Scandal",
        Card::Chernobyl => "Chernobyl",
        Card::Latin_American_Debt_Crisis => "Latin_American_Debt_Crisis",
        Card::Tear_Down_This_Wall => "Tear_Down_This_Wall",
        Card::An_Evil_Empire => "An_Evil_Empire",
        Card::Aldrich_Ames_Remix => "Aldrich_Ames_Remix",
        Card::Pershing_II_Deployed => "Pershing_II_Deployed",
        Card::Wargames => "Wargames",
        Card::Solidarity => "Solidarity",
        Card::Iran_Iraq_War => "Iran_Iraq_War",
        Card::Defectors => "Defectors",
        Card::The_Cambridge_Five => "The_Cambridge_Five",
        Card::Special_Relationship => "Special_Relationship",
        Card::NORAD => "NORAD",
        Card::Che => "Che",
        Card::Our_Man_In_Tehran => "Our_Man_In_Tehran",
        Card::Yuri_And_Samantha => "Yuri_And_Samantha",
        Card::AWACS => "AWACS",
    }
}

/// The identifier of a country, as a game record writes it.
pub open spec fn cname_ident(c: CName) -> Seq<char> {
    match c {
        CName::Turkey => "Turkey"@,
        CName::Greece => "Greece"@,
        CName::Italy => "Italy"@,
        CName::SpainPortugal => "SpainPortugal"@,
        CName::France => "France"@,
        CName::WGermany => "WGermany"@,
        CName::Benelux => "Benelux"@,
        CName::UK => "UK"@,
        CName::Canada => "Canada"@,
        CName::Norway => "Norway"@,
        CName::Denmark => "Denmark"@,
        CName::Sweden => "Sweden"@,
        CName::Austria => "Austria"@,
        CName::Finland => "Finland"@,
        CName::EGermany => "EGermany"@,
        CName::Poland => "Poland"@,
        CName::Czechoslovakia => "Czechoslovakia"@,
        CName::Hungary => "Hungary"@,
        CName::Romania => "Romania"@,
        CName::Yugoslavia => "Yugoslavia"@,
        CName::Bulgaria => "Bulgaria"@,
        CName::Lebanon => "Lebanon"@,
        CName::Syria => "Syria"@,
        CName::Israel => "Israel"@,
        CName::Iraq => "Iraq"@,
        CName::Iran => "Iran"@,
        CName::Libya => "Libya"@,
        CName::Egypt => "Egypt"@,
        CName::Jordan => "Jordan"@,
        CName::GulfStates => "GulfStates"@,
        CName::SaudiaArabia => "SaudiaArabia"@,
        CName::Afghanistan => "Afghanistan"@,
        CName::Pakistan => "Pakistan"@,
        CName::India => "India"@,
        CName::Burma => "Burma"@,
        CName::LaosCambodia => "LaosCambodia"@,
        CName::Thailand => "Thailand"@,
        CName::Vietnam => "Vietnam"@,
        CName::Malaysia => "Malaysia"@,
        CName::Indonesia => "Indonesia"@,
        CName::Philippines => "Philippines"@,
        CName::Australia => "Australia"@,
        CName::Taiwan => "Taiwan"@,
        CName::Japan => "Japan"@,
        CName::SKorea => "SKorea"@,
        CName::NKorea => "NKorea"@,
        CName::Morocco => "Morocco"@,
        CName::Algeria => "Algeria"@,
        CName::Tunisia => "Tunisia"@,
        CName::WestAfricanStates => "WestAfricanStates"@,
        CName::SaharanStates => "SaharanStates"@,
        CName::Sudan => "Sudan"@,
        CName::IvoryCoast => "IvoryCoast"@,
        CName::Nigeria => "Nigeria"@,
        CName::Ethiopia => "Ethiopia"@,
        CName::Somalia => "Somalia"@,
        CName::Cameroon => "Cameroon"@,
        CName::Zaire => "Zaire"@,
        CName::Kenya => "Kenya"@,
        CName::Angola => "Angola"@,
        CName::SEAfricanStates => "SEAfricanStates"@,
        CName::Zimbabwe => "Zimbabwe"@,
        CName::Botswana => "Botswana"@,
        CName::SouthAfrica => "SouthAfrica"@,
        CName::Mexico => "Mexico"@,
        CName::Guatemala => "Guatemala"@,
        CName::ElSalvador => "ElSalvador"@,
        CName::Honduras => "Honduras"@,
        CName::CostaRica => "CostaRica"@,
        CName::Panama => "Panama"@,
        CName::Nicaragua => "Nicaragua"@,
        CName::Cuba => "Cuba"@,
        CName::Haiti => "Haiti"@,
        CName::DominicanRep => "DominicanRep"@,
        CName::Venezuela => "Venezuela"@,
        CName::Colombia => "Colombia"@,
        CName::Ecuador => "Ecuador"@,
        CName::Peru => "Peru"@,
        CName::Brazil => "Brazil"@,
        CName::Bolivia => "Bolivia"@,
        CName::Chile => "Chile"@,
        CName::Paraguay => "Paraguay"@,
        CName::Argentina => "Argentina"@,
        CName::Uruguay => "Uruguay"@,
        CName::US => "US"@,
        CName::USSR => "USSR"@,
    }
}

/// The identifier of a country.
pub fn cname_ident_str(c: CName) -> (r: &'static str)
    ensures
        r@ == cname_ident(c),
{
    match c {
        CName::Turkey => "Turkey",
        CName::Greece => "Greece",
        CName::Italy => "Italy",
        CName::SpainPortugal => "SpainPortugal",
        CName::France => "France",
        CName::WGermany => "WGermany",
        CName::Benelux => "Benelux",
        CName::UK => "UK",
        CName::Canada => "Canada",
        CName::Norway => "Norway",
        CName::Denmark => "Denmark",
        CName::Sweden => "Sweden",
        CName::Austria => "Austria",
        CName::Finland => "Finland",
        CName::EGermany => "EGermany",
        CName::Poland => "Poland",
        CName::Czechoslovakia => "Czechoslovakia",
        CName::Hungary => "Hungary",
        CName::Romania => "Romania",
        CName::Yugoslavia => "Yugoslavia",
        CName::Bulgaria => "Bulgaria",
        CName::Lebanon => "Lebanon",
        CName::Syria => "Syria",
        CName::Israel => "Israel",
        CName::Iraq => "Iraq",
        CName::Iran => "Iran",
        CName::Libya => "Libya",
        CName::Egypt => "Egypt",
        CName::Jordan => "Jordan",
        CName::GulfStates => "GulfStates",
        CName::SaudiaArabia => "SaudiaArabia",
        CName::Afghanistan => "Afghanistan",
        CName::Pakistan => "Pakistan",
        CName::India => "India",
        CName::Burma => "Burma",
        CName::LaosCambodia => "LaosCambodia",
        CName::Thailand => "Thailand",
        CName::Vietnam => "Vietnam",
        CName::Malaysia => "Malaysia",
        CName::Indonesia => "Indonesia",
        CName::Philippines => "Philippines",
        CName::Australia => "Australia",
        CName::Taiwan => "Taiwan",
        CName::Japan => "Japan",
        CName::SKorea => "SKorea",
        CName::NKorea => "NKorea",
        CName::Morocco => "Morocco",
        CName::Algeria => "Algeria",
        CName::Tunisia => "Tunisia",
        CName::WestAfricanStates => "WestAfricanStates",
        CName::SaharanStates => "SaharanStates",
        CName::Sudan => "Sudan",
        CName::IvoryCoast => "IvoryCoast",
        CName::Nigeria => "Nigeria",
        CName::Ethiopia => "Ethiopia",
        CName::Somalia => "Somalia",
        CName::Cameroon => "Cameroon",
        CName::Zaire => "Zaire",
        CName::Kenya => "Kenya",
        CName::Angola => "Angola",
        CName::SEAfricanStates => "SEAfricanStates",
        CName::Zimbabwe => "Zimbabwe",
        CName::Botswana => "Botswana",
        CName::SouthAfrica => "SouthAfrica",
        CName::Mexico => "Mexico",
        CName::Guatemala => "Guatemala",
        CName::ElSalvador => "ElSalvador",
        CName::Honduras => "Honduras",
        CName::CostaRica => "CostaRica",
        CName::Panama => "Panama",
        CName::Nicaragua => "Nicaragua",
        CName::Cuba => "Cuba",
        CName::Haiti => "Haiti",
        CName::DominicanRep => "DominicanRep",
        CName::Venezuela => "Venezuela",
        CName::Colombia => "Colombia",
        CName::Ecuador => "Ecuador",
        CName::Peru => "Peru",
        CName::Brazil => "Brazil",
        CName::Bolivia => "Bolivia",
        CName::Chile => "Chile",
        CName::Paraguay => "Paraguay",
        CName::Argentina => "Argentina",
        CName::Uruguay => "Uruguay",
        CName::US => "US",
        CName::USSR => "USSR",
    }
}

} // verus!
