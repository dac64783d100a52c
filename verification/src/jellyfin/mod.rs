//! The Jellyfin side: payload conversion, sign-in helpers and URL building.

pub mod api;
pub mod auth;
pub mod convert;
pub mod error;
pub mod models;
pub mod sessions;
pub mod source;
pub mod transcode;
pub mod transcode_profile;
