pub mod chunk;
pub mod face;
pub mod model;
pub mod registry;
