pub mod chunk_set;
pub mod chunk_tracker;
pub mod dirty_chunks;
pub mod local_tracker;
