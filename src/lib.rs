//! Core of a "now playing" visualizer: decoding of the media player's
//! properties, cover-art fetch planning with a process-lifetime cache, the
//! per-frame event merger, and the state the presentation layer shows.
pub mod art;
pub mod bytes;
pub mod http;
pub mod merger;
pub mod metadata;
pub mod mpris;
pub mod props;
pub mod screen;
pub mod table;
pub mod text;
