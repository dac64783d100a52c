//! The Plex side: payload conversion, server selection and transcode
//! negotiation.

pub mod auth;
pub mod convert;
pub mod error;
pub mod models;
pub mod source;
pub mod transcode;
pub mod transcode_profile;
