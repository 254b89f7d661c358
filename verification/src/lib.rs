//! Verified core of the Voxl voxel engine: chunk storage, face geometry,
//! block registry and models, ambient-occlusion decisions, dirty-chunk and
//! chunk-pipeline tracking, input bindings, chat commands and world generation
//! decisions.
pub mod debug;
pub mod entities;
pub mod frame;
pub mod game;
pub mod input;
pub mod networking;
pub mod performance;
pub mod raycast;
pub mod renderer;
pub mod tracking;
pub mod util;
pub mod voxel;
pub mod worldgen;
