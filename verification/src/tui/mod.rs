//! The console on a terminal.

pub mod console;
pub mod html;
pub mod input;
pub mod layout;
pub mod screen;
pub mod views;
