//! The command layer: arguments, the per-invocation context, and what each
//! subcommand computes. Parsing the command line and the filesystem work are
//! the caller's part.

pub mod apply;
pub mod args;
pub mod completion;
pub mod diff;
pub mod doctor;
pub mod list;
pub mod profiles;
pub mod status;

pub use args::{ApplyArgs, Cli, ColorChoice, Command, CompletionArgs, Ctx, GlobalArgs};
pub use diff::DiffArgs;
