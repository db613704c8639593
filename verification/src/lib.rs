//! A one-line prompt segment for a version-controlled working copy: the
//! bookmarks near the working-copy commit and the commit's description, in
//! terminal styles.
//!
//! The version-control engine is not part of this crate. Whatever has to be
//! looked up in the repository is asked for by value: the cache of
//! repository facts names the fact to load next, the search for bookmarks
//! names the query to run next, and the prompt names what a module lacks.
//! The caller runs the look-up and hands the answer back.

pub mod config;
pub mod data;
pub mod resolver;
pub mod state;
pub mod text;
