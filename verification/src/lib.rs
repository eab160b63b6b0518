//! Verified core of an issue tracker: the query language of its issue
//! search, and the pure rules of its accounts, projects, issues and pages.

pub mod configuration;
pub mod jobs;
pub mod kbql;
pub mod schema;
pub mod text;
pub mod time;
pub mod webserver;
