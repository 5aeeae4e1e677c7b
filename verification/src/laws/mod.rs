//! What the library is for, stated of what goes in and what comes out.

pub mod drafts;
pub mod keys;
pub mod listing;
pub mod offline;
pub mod protocol;
pub mod reading;
pub mod retention;
pub mod rules;
pub mod server;
pub mod session;
pub mod settings;
pub mod spam;
