//! Subtitle provider: looks up titles on subdl.com, reads the chapter and
//! subtitle listings of their pages, and keeps a local store of installed
//! subtitle files.
//!
//! This crate holds the decisions and transformations; the network, file
//! system and database work is done by the caller, which hands the results in
//! as plain values.

pub mod global_types;
pub mod json;
pub mod text;
pub mod search;
pub mod html;
pub mod get_chapters;
pub mod get_subtitles;
pub mod manage_subtitle;
