//! Expression language, editor models and edit history of the Drakkar VFX editor.

pub mod text;
pub mod name_map;
pub mod expr;
pub mod models;
pub mod events;
pub mod history;
pub mod blocks;
pub mod editor;
pub mod browser;
pub mod client;
