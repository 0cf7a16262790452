//! The file organizer: where each file of a directory is to be moved,
//! by extension, by date, by type or by size.

pub mod config;
pub mod strategies;
