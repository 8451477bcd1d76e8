pub mod data;
pub mod engine;
mod formatting;
pub mod state;
