pub mod config;
pub mod noise;
pub mod plan;
pub mod terrain;
pub mod world;
