pub mod card;
pub mod deck;
pub mod game;
pub mod hand;
pub mod player;
mod rng;
