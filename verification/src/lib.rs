//! Rules engine for a collectible card game: mana, costs and pools; the
//! resolution of game effects against a modelled game state; Oracle-text
//! grammar fragments; and cube-list import for drafting.

pub mod types;
pub mod text;
pub mod rng;
pub mod seqs;
pub mod database;
pub mod draft;
pub mod game;
pub mod parser;
