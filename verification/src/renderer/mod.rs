pub mod ao;
pub mod atlas;
pub mod culling;
pub mod dirty;
pub mod meshing;
pub mod pipeline;
pub mod queue;
pub mod state;
