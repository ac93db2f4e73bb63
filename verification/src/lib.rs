//! Verified core of the koan music player's server and terminal interface.

pub mod auth;
pub mod fuzzy;
pub mod graphql;
pub mod lists;
pub mod order;
pub mod paths;
pub mod player;
pub mod rows;
pub mod subsonic;
pub mod text;
pub mod tui;
