//! The core of an issue explorer for GitHub repositories: which repository a folder belongs to,
//! what is asked of `gh`, which issues a query keeps, what the screen shows, and what each event
//! makes of it.

pub mod chars;
pub mod details;
pub mod explorer;
pub mod filter;
pub mod laws;
pub mod layout;
pub mod load;
pub mod model;
pub mod remote;
pub mod screen;
pub mod search;
