//! The rules behind the pages of the site.

pub mod articles;
pub mod auth;
pub mod request;
pub mod issues;
pub mod projects;
pub mod users;
pub mod localization;
pub mod markdown;
pub mod tags;
