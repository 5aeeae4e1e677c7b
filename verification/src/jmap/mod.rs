//! Mail objects and the requests that fetch and change them.

pub mod client;
pub mod types;
