//! The decisions behind the HTTP routes: paging of the asset listing, and
//! the per-file results of an upload.

pub mod assets;
pub mod upload;
