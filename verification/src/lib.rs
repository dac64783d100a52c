//! Verified core of the Reel media client: library filtering and sorting, the
//! session content cache, media-server payload conversion, transcode profiles
//! and playback-progress tracking.

pub mod text;
pub mod decimal;
pub mod keyed;
pub mod media;
pub mod identity;
pub mod image_cache;
pub mod media_source;
pub mod mpris;
pub mod http_status;
pub mod playback;
pub mod poster_queue;
pub mod screensaver;
pub mod library_filter;
pub mod session_cache;
pub mod stream_cache;
pub mod source_coordinator;
pub mod sync_plan;
pub mod visibility;
pub mod watch_state;
pub mod workers;
pub mod plex;
pub mod jellyfin;
