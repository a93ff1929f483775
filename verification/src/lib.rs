pub mod actions;
pub mod config;
pub mod hotkey;
pub mod index;
pub mod launcher;
pub mod models;
pub mod order;
pub mod screen;
pub mod search;
pub mod shortcuts;
pub mod text;
pub mod url;
