//! Incremental search and autocomplete core for a tag-based post browser.
//!
//! The crate covers three pieces: an autocomplete engine that finds the token
//! under the cursor and ranks matching tags, a query-execution pipeline that
//! filters the post index by a predicate and orders the result, and a shared
//! search state that carries progress and results between the worker that
//! executes a search and the thread that polls for it.

pub mod text;
pub mod tokenize;
pub mod tags;
pub mod posts;
pub mod query;
pub mod search;
pub mod state;
pub mod autocomplete;
pub mod storage;
