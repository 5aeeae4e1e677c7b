//! Mail console logic.

pub mod backend;
pub mod cache;
pub mod cli;
pub mod compose;
pub mod config;
pub mod data;
pub mod jmap;
pub mod joining;
pub mod json;
pub mod laws;
pub mod markup;
pub mod pattern;
pub mod rules;
pub mod sorting;
pub mod spam;
pub mod td_fetch;
pub mod text;
pub mod tui;
