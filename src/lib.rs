//! A content-addressed photo archive: ingestion of photo files into a catalog
//! keyed by content digest, with capture-date resolution and thumbnails.

pub mod common;
pub mod date;
pub mod hash;
pub mod error;
pub mod thumb;
pub mod meta;
pub mod catalog;
pub mod media;
pub mod server;
pub mod thumbs;
