pub mod action;
pub mod keys;
pub mod bindings;
pub mod state;
pub mod manager;
