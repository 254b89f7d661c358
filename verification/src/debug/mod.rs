pub mod chat;
pub mod chat_manager;
pub mod commands;
pub mod text;
