//! Configuration and hotkey model of a clipboard-history utility, with the
//! checks that stand between the program and the native window system.

pub mod text;
pub mod number;
pub mod keys;
pub mod win;
pub mod config;
pub mod report;
pub mod loader;
pub mod laws;
pub mod template;
