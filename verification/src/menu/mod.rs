//! The menu: its screens, and what a frame's input does on each of them.

pub mod auth;
pub mod field_laws;
pub mod fields;
pub mod friends_laws;
pub mod friends_screen;
pub mod main_screen;
pub mod option_laws;
pub mod options;
pub mod packs;
pub mod pages;
pub mod pictures;
pub mod screen_laws;
pub mod server_laws;
pub mod servers;
pub mod state;
