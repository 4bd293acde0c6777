//! Game logic of a Figgie trading server: cards and hands, the per-suit
//! order book, dealing, scoring, the game engine and the handling of
//! client messages, each with its contract.

pub mod models;
pub mod game;
pub mod ws;
pub mod bots;
pub mod handlers;
mod text;
mod rng;
