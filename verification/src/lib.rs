//! A directory-listing toolkit whose interactive fuzzy file finder, configuration
//! rules and file-organizing rules are stated as contracts and machine-checked.

pub mod text;
pub mod config;
pub mod error;
pub mod ranking;
pub mod finder;
pub mod archive;
pub mod args;
pub mod formatter;
pub mod git;
pub mod sorter;
pub mod organizer;
pub mod permissions;
pub mod filter;
pub mod serializable;
pub mod sizemap;
