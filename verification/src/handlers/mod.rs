pub mod games;
pub mod players;
