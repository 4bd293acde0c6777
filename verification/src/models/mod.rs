pub mod card;
pub mod game;
pub mod order;
pub mod player;
