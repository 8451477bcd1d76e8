pub mod loader;
pub mod stats;
pub mod trait_id;
pub mod unit_definition;
