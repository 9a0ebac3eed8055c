//! A small file-backed blog library.
//!
//! Posts are markdown documents with an optional YAML front-matter block,
//! named after the timestamp `YYYYMMDDHHMMSS` that gives each post its
//! identity and its place in the chronological order. The library validates
//! candidate files, splits front matter from the markdown body, derives the
//! canonical identifier, sorts collections most-recent-first, and renders
//! the HTML fragments that the server hands out.

pub mod front_matter;
pub mod page;
pub mod posts;
pub mod render;
pub mod text;
pub mod timestamp;
pub mod web;
pub mod yaml;
