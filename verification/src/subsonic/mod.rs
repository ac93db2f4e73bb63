//! The Subsonic-compatible REST interface: requests, documents and decisions.

pub mod auth;
pub mod browse;
pub mod covers;
pub mod document;
pub mod errors;
pub mod ids;
pub mod index;
pub mod media;
pub mod nodes;
pub mod params;
pub mod playlists;
pub mod range;
pub mod search;
pub mod stream;
