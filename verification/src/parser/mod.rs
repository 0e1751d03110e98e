//! Fragments of the Oracle-text grammar, written as functions over text
//! that hand back what they recognised and the text that follows it.

pub mod cursor;
pub mod duration;
pub mod target;
pub mod enchant;
pub mod loyalty;
pub mod cost_mod;
pub mod laws;
