//! Per-machine application state: where it lives and what it records.
//!
//! The file lives at `~/.local/state/dfm/state.json` (XDG default) and records
//! which profiles were last applied, when, and which symlinks the engine
//! created. Reading and writing the file is the caller's part.

pub mod error;
pub mod schema;
pub mod store;

pub use error::StateError;
pub use schema::Link;
pub use store::{Env, Store};
