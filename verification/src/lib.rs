//! Verified core of a photo and video album server: media classification,
//! cache paths, album trees, thumbnail selection, request decisions, range
//! parsing, time stamps and size formatting.

pub mod text;
pub mod util;
pub mod media_item;
pub mod image_exif;
pub mod media_processing;
pub mod album;
pub mod requests;
pub mod media_sender;
pub mod gallery;
pub mod laws;
