//! Queries over a package registry index: which record of a package a request
//! means, when the local cache has to be refreshed first, and the views of a
//! record that a caller can ask for.

pub mod cli;
pub mod listing;
pub mod lookup;
pub mod package;
pub mod resolver;
pub mod version;
pub mod views;
