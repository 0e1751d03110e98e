//! The game: its state, the zones objects move through, and the effects
//! that change it.

pub mod state;
pub mod zones;
pub mod filter;
pub mod effects;
pub mod epic;
pub mod derived_views;
pub mod laws;
