//! Core of a Signal chat bot: message routing, conversation state, prompts and
//! encrypted storage of what the bot has learned.
pub mod ai;
pub mod bot;
pub mod config;
pub mod crypto;
pub mod db;
pub mod json;
pub mod lru;
pub mod signal;
pub mod single;
pub mod state_manager;
pub mod text;
pub mod utils;
