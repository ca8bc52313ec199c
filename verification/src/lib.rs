//! Nepix, a terminal Minecraft launcher: its settings, the decisions behind
//! each key press and launch event, and the text it shows.
pub mod app;
pub mod config;
pub mod laws;
pub mod log;
pub mod mc;
pub mod text;
pub mod ui;
