//! A launcher for games streamed with Steam Remote Play: it reads a list of
//! games from a configuration file and lets the user pick one to start.

pub mod cli;
pub mod game;
pub mod gui;
pub mod loader;
pub mod text;
pub mod tui;
