pub mod instruction;
pub mod engine;
pub mod laws;
