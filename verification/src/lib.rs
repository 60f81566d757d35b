pub mod action;
pub mod agent;
pub mod card;
pub mod country;
pub mod game;
pub mod parse2;
pub mod record;
pub mod state;
pub mod tensor;
