pub mod card;
pub mod game_helpers;
pub mod landmark;
