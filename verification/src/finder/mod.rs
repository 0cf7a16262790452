//! The interactive fuzzy file finder: indexed entries, ignore rules, ranked
//! search with incremental refinement, and the view state of a session.

pub mod entry;
pub mod ignore;
pub mod matcher;
pub mod index;
pub mod keys;
pub mod results;
pub mod search_bar;
pub mod session;
pub mod screen;
pub mod batch;
pub mod distinct;
