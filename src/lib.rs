//! Archiving of a user's liked posts: request URLs and pagination, media
//! classification, download deduplication, the chronological renaming pass
//! and the HTML export renderer.

pub mod text;
pub mod types;
pub mod remote;
pub mod classify;
pub mod download;
pub mod rename;
pub mod export;
pub mod run;
