//! Content-addressed asset names.
//!
//! A file's name is rewritten to carry the SHA-256 digest of its contents, so
//! that a changed file gets a new name and an unchanged one keeps its name:
//! `logo.png` becomes `logo-<hash>.png`. The crate computes the names, says
//! which file of a directory goes where, and rewrites the paths by which
//! source text names its assets. Reading, copying and renaming files is left
//! to the caller.

pub mod asset;
pub mod cache_bust;
pub mod digest;
pub mod laws;
pub mod name;
pub mod path;

pub use crate::asset::{asset, AssetError};
pub use crate::cache_bust::{
    CacheBust, CacheBustBuilder, CacheBustBuilderError, DirPlan, FileAction, TreeEntry,
};
pub use crate::name::hashed_file_name;
pub use crate::path::AssetPath;
