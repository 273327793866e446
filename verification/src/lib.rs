//! dfm: a standalone dotfiles manager, as a verified library.

pub mod cli;
pub mod config;
pub mod engine;
pub mod iostreams;
pub mod logging;
pub mod state;
pub mod text;
pub mod version;
