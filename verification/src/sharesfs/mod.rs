//! The share-backed file store: how paths name nodes and store keys, how a
//! rename moves every key under a directory, node metadata, and file
//! contents.

pub mod paths;
pub mod rename;
pub mod metadata;
pub mod content;
pub mod readdir;
pub mod remove;
pub mod user_dir;
