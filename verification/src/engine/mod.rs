//! Executes a parsed profile: option merging, path handling and the
//! per-directive decisions. The filesystem itself is driven by the caller.

pub mod action;
pub mod backup;
pub mod options;
pub mod path;
pub mod runner;
pub mod sink;

pub use action::{Action, ActionKind};
pub use options::{ApplyError, Tally};
pub use runner::Engine;
pub use sink::{IoStreamsSink, NullSink, OutputSink};
