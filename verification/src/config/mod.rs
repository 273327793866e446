//! Profile YAML parsing into a typed, order-preserving [`Config`].
//!
//! Unknown directives and options are rejected with a 1-based `line:col`
//! reference.

pub mod error;
pub mod model;
pub mod parse;
pub mod yaml;

pub use error::{LoadError, ParseError};
pub use model::{
    Clean, CleanEntry, CleanOptions, Config, Create, CreateEntry, Defaults, Directive,
    DirectiveKind, Link, LinkEntry, LinkOptions, Shell, ShellEntry, ShellOptions,
};
