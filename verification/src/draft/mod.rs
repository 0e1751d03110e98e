pub mod cube;
pub mod laws;
