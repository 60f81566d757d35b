use vstd::prelude::*;
use super::Card;
use crate::country::Side;

verus! {

/// An ongoing effect of a card that has been played.
#[derive(Clone, Copy, PartialEq, Eq, Structural, Debug)]
pub enum Effect {
    ShuttleDiplomacy,
    FormosanResolution,
    IronLady,
    VietnamRevolts,
    RedScarePurge,
    Containment,
    Brezhnev,
    CampDavid,
    AllowNato,
    DeGaulle,
    Nato,
    US_Hand_Revealed,
    USSR_Hand_Revealed,
    US_Japan,
    CubanMissileCrisis,
    NuclearSubs,
    Quagmire,
    SALT,
    BearTrap,
    NorthSeaOil,
    NoOpec,
    MissileEnvy,
    WWBY,
    WillyBrandt,
    TearDown,
    AWACS,
    FlowerPower,
    U2,
    AllowSolidarity,
    LatinAmericanPlus,
    LatinAmericanMinus,
    TerrorismPlus,
    Reformer,
    IranContra,
    EvilEmpire,
    AldrichAmes,
    US_Scoring_Revealed,
    Norad,
    Yuri,
}

/// The side on whose list of effects an effect may stand; Neutral where either may hold it.
pub open spec fn allowed_side_spec(e: Effect) -> Side {
    match e {
        Effect::ShuttleDiplomacy | Effect::FormosanResolution | Effect::IronLady | Effect::Containment | Effect::CampDavid | Effect::AllowNato | Effect::Nato | Effect::USSR_Hand_Revealed | Effect::US_Japan | Effect::NuclearSubs | Effect::Quagmire | Effect::NorthSeaOil | Effect::TearDown | Effect::AWACS | Effect::WWBY | Effect::AllowSolidarity | Effect::EvilEmpire | Effect::Norad => Side::US,
        Effect::VietnamRevolts | Effect::Brezhnev | Effect::DeGaulle | Effect::US_Hand_Revealed | Effect::BearTrap | Effect::NoOpec | Effect::WillyBrandt | Effect::FlowerPower | Effect::U2 | Effect::TerrorismPlus | Effect::Reformer | Effect::IranContra | Effect::AldrichAmes | Effect::US_Scoring_Revealed | Effect::Yuri => Side::USSR,
        Effect::RedScarePurge | Effect::CubanMissileCrisis | Effect::SALT | Effect::MissileEnvy | Effect::LatinAmericanPlus | Effect::LatinAmericanMinus => Side::Neutral,
    }
}

/// Whether an effect outlasts the turn in which it started.
pub open spec fn permanent_spec(e: Effect) -> bool {
    match e {
        Effect::ShuttleDiplomacy | Effect::FormosanResolution | Effect::IronLady | Effect::CampDavid | Effect::AllowNato | Effect::DeGaulle | Effect::Nato | Effect::BearTrap | Effect::Quagmire | Effect::NoOpec | Effect::MissileEnvy | Effect::WillyBrandt | Effect::FlowerPower | Effect::AllowSolidarity | Effect::TerrorismPlus | Effect::Reformer => true,
        _ => false,
    }
}

/// The effect that a card puts into play, if any.
pub open spec fn card_to_effect_spec(c: Card) -> Option<Effect> {
    match c {
        Card::Formosan_Resolution => Some(Effect::FormosanResolution),
        Card::Shuttle_Diplomacy => Some(Effect::ShuttleDiplomacy),
        Card::The_Iron_Lady => Some(Effect::IronLady),
        Card::Vietnam_Revolts => Some(Effect::VietnamRevolts),
        Card::Red_Scare_Purge => Some(Effect::RedScarePurge),
        Card::Containment => Some(Effect::Containment),
        Card::Camp_David_Accords => Some(Effect::CampDavid),
        Card::Brezhnev_Doctrine => Some(Effect::Brezhnev),
        Card::Warsaw_Pact_Formed | Card::Marshall_Plan => Some(Effect::AllowNato),
        Card::De_Gaulle_Leads_France => Some(Effect::DeGaulle),
        Card::NATO => Some(Effect::Nato),
        Card::Lone_Gunman => Some(Effect::US_Hand_Revealed),
        Card::CIA_Created => Some(Effect::USSR_Hand_Revealed),
        Card::US_Japan_Mutual_Defense_Pact => Some(Effect::US_Japan),
        Card::Cuban_Missile_Crisis => Some(Effect::CubanMissileCrisis),
        Card::Nuclear_Subs => Some(Effect::NuclearSubs),
        Card::Quagmire => Some(Effect::Quagmire),
        Card::SALT_Negotiations => Some(Effect::SALT),
        Card::Bear_Trap => Some(Effect::BearTrap),
        Card::North_Sea_Oil => Some(Effect::NorthSeaOil),
        Card::Missile_Envy => Some(Effect::MissileEnvy),
        Card::We_Will_Bury_You => Some(Effect::WWBY),
        Card::Willy_Brandt => Some(Effect::WillyBrandt),
        Card::Tear_Down_This_Wall => Some(Effect::TearDown),
        Card::AWACS => Some(Effect::AWACS),
        Card::Flower_Power => Some(Effect::FlowerPower),
        Card::U2_Incident => Some(Effect::U2),
        Card::John_Paul => Some(Effect::AllowSolidarity),
        Card::Terrorism => Some(Effect::TerrorismPlus),
        Card::The_Reformer => Some(Effect::Reformer),
        Card::Iran_Contra_Scandal => Some(Effect::IranContra),
        Card::An_Evil_Empire => Some(Effect::EvilEmpire),
        Card::Aldrich_Ames_Remix => Some(Effect::AldrichAmes),
        Card::The_Cambridge_Five => Some(Effect::US_Scoring_Revealed),
        Card::NORAD => Some(Effect::Norad),
        Card::Yuri_And_Samantha => Some(Effect::Yuri),
        _ => None,
    }
}

impl Effect {
    /// The side on whose list of effects this effect may stand; Neutral where either may hold it.
    pub fn allowed_side(&self) -> (r: Side)
        ensures
            r == allowed_side_spec(*self),
    {
        match self {
            Effect::ShuttleDiplomacy | Effect::FormosanResolution | Effect::IronLady | Effect::Containment | Effect::CampDavid | Effect::AllowNato | Effect::Nato | Effect::USSR_Hand_Revealed | Effect::US_Japan | Effect::NuclearSubs | Effect::Quagmire | Effect::NorthSeaOil | Effect::TearDown | Effect::AWACS | Effect::WWBY | Effect::AllowSolidarity | Effect::EvilEmpire | Effect::Norad => Side::US,
            Effect::VietnamRevolts | Effect::Brezhnev | Effect::DeGaulle | Effect::US_Hand_Revealed | Effect::BearTrap | Effect::NoOpec | Effect::WillyBrandt | Effect::FlowerPower | Effect::U2 | Effect::TerrorismPlus | Effect::Reformer | Effect::IranContra | Effect::AldrichAmes | Effect::US_Scoring_Revealed | Effect::Yuri => Side::USSR,
            Effect::RedScarePurge | Effect::CubanMissileCrisis | Effect::SALT | Effect::MissileEnvy | Effect::LatinAmericanPlus | Effect::LatinAmericanMinus => Side::Neutral,
        }
    }

    /// Whether this effect outlasts the turn in which it started.
    pub fn permanent(&self) -> (r: bool)
        ensures
            r == permanent_spec(*self),
    {
        match self {
            Effect::ShuttleDiplomacy | Effect::FormosanResolution | Effect::IronLady | Effect::CampDavid | Effect::AllowNato | Effect::DeGaulle | Effect::Nato | Effect::BearTrap | Effect::Quagmire | Effect::NoOpec | Effect::MissileEnvy | Effect::WillyBrandt | Effect::FlowerPower | Effect::AllowSolidarity | Effect::TerrorismPlus | Effect::Reformer => true,
            _ => false,
        }
    }

    /// The effect that a card puts into play, if any.
    pub fn card_to_effect(card: Card) -> (r: Option<Effect>)
        ensures
            r == card_to_effect_spec(card),
    {
        match card {
            Card::Formosan_Resolution => Some(Effect::FormosanResolution),
            Card::Shuttle_Diplomacy => Some(Effect::ShuttleDiplomacy),
            Card::The_Iron_Lady => Some(Effect::IronLady),
            Card::Vietnam_Revolts => Some(Effect::VietnamRevolts),
            Card::Red_Scare_Purge => Some(Effect::RedScarePurge),
            Card::Containment => Some(Effect::Containment),
            Card::Camp_David_Accords => Some(Effect::CampDavid),
            Card::Brezhnev_Doctrine => Some(Effect::Brezhnev),
            Card::Warsaw_Pact_Formed | Card::Marshall_Plan => Some(Effect::AllowNato),
            Card::De_Gaulle_Leads_France => Some(Effect::DeGaulle),
            Card::NATO => Some(Effect::Nato),
            Card::Lone_Gunman => Some(Effect::US_Hand_Revealed),
            Card::CIA_Created => Some(Effect::USSR_Hand_Revealed),
            Card::US_Japan_Mutual_Defense_Pact => Some(Effect::US_Japan),
            Card::Cuban_Missile_Crisis => Some(Effect::CubanMissileCrisis),
            Card::Nuclear_Subs => Some(Effect::NuclearSubs),
            Card::Quagmire => Some(Effect::Quagmire),
            Card::SALT_Negotiations => Some(Effect::SALT),
            Card::Bear_Trap => Some(Effect::BearTrap),
            Card::North_Sea_Oil => Some(Effect::NorthSeaOil),
            Card::Missile_Envy => Some(Effect::MissileEnvy),
            Card::We_Will_Bury_You => Some(Effect::WWBY),
            Card::Willy_Brandt => Some(Effect::WillyBrandt),
            Card::Tear_Down_This_Wall => Some(Effect::TearDown),
            Card::AWACS => Some(Effect::AWACS),
            Card::Flower_Power => Some(Effect::FlowerPower),
            Card::U2_Incident => Some(Effect::U2),
            Card::John_Paul => Some(Effect::AllowSolidarity),
            Card::Terrorism => Some(Effect::TerrorismPlus),
            Card::The_Reformer => Some(Effect::Reformer),
            Card::Iran_Contra_Scandal => Some(Effect::IranContra),
            Card::An_Evil_Empire => Some(Effect::EvilEmpire),
            Card::Aldrich_Ames_Remix => Some(Effect::AldrichAmes),
            Card::The_Cambridge_Five => Some(Effect::US_Scoring_Revealed),
            Card::NORAD => Some(Effect::Norad),
            Card::Yuri_And_Samantha => Some(Effect::Yuri),
            _ => None,
        }
    }
}

} // verus!
