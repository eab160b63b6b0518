//! The records of the tracker and the rules that hold of them.

pub mod accounts;
pub mod cms;
pub mod issues;
