//! The command-line model: global flags, subcommands and their arguments,
//! and the context each subcommand runs in.

use vstd::prelude::*;

use super::diff::DiffArgs;
use crate::iostreams::{ColorPolicy, IoStreams};

verus! {

/// A standalone, single-binary dotfiles manager.
#[derive(Debug)]
pub struct Cli {
    /// Global flags shared by every subcommand.
    pub globals: GlobalArgs,
    /// The subcommand to run.
    pub command: Command,
}

/// Flags shared across all subcommands.
#[derive(Debug, Clone, PartialEq, Eq)]
pub struct GlobalArgs {
    /// Base directory for resolving profiles and sources.
    pub base_dir: String,
    /// Explicit config path (overrides profile name lookup).
    pub config_path: Option<String>,
    /// Enable verbose (debug) logging.
    pub verbose: bool,
    /// Suppress progress output (warnings and errors still shown).
    pub quiet: bool,
    /// Colorize output.
    pub color: ColorChoice,
}

/// The `--color` flag values.
#[derive(Debug, Clone, Copy, PartialEq, Eq, Structural)]
pub enum ColorChoice {
    /// Decide from env and TTY detection.
    Auto,
    /// Always colorize.
    Always,
    /// Never colorize.
    Never,
}

/// The policy each `--color` value selects.
pub open spec fn policy_of(c: ColorChoice) -> ColorPolicy {
    match c {
        ColorChoice::Auto => ColorPolicy::Auto,
        ColorChoice::Always => ColorPolicy::Always,
        ColorChoice::Never => ColorPolicy::Never,
    }
}

impl From<ColorChoice> for ColorPolicy {
    fn from(c: ColorChoice) -> (r: ColorPolicy) {
        match c {
            ColorChoice::Auto => ColorPolicy::Auto,
            ColorChoice::Always => ColorPolicy::Always,
            ColorChoice::Never => ColorPolicy::Never,
        }
    }
}

impl vstd::std_specs::convert::FromSpecImpl<ColorChoice> for ColorPolicy {
    open spec fn obeys_from_spec() -> bool {
        true
    }

    open spec fn from_spec(c: ColorChoice) -> ColorPolicy {
        policy_of(c)
    }
}

/// Arguments for `dfm apply`.
#[derive(Debug, Clone, PartialEq, Eq)]
pub struct ApplyArgs {
    /// Report planned changes without writing.
    pub dry_run: bool,
    /// Skip `shell:` directives — apply only links, cleans, and directories.
    pub no_shell: bool,
    /// Profile name(s) to apply, in order.
    pub profiles: Vec<String>,
}

/// Arguments for `dfm completion`.
#[derive(Debug, Clone, PartialEq, Eq)]
pub struct CompletionArgs {
    /// The shell to emit a completion script for.
    pub shell: String,
}

/// The available subcommands.
#[derive(Debug, Clone, PartialEq, Eq)]
pub enum Command {
    /// Apply one or more profiles.
    Apply(ApplyArgs),
    /// Show planned changes without writing.
    Diff(DiffArgs),
    /// Verify installed symlinks still resolve.
    Doctor,
    /// Show last applied profiles.
    Status,
    /// List available profiles.
    List,
    /// Output a shell completion script.
    Completion(CompletionArgs),
}

/// Shared context passed to each subcommand.
pub struct Ctx {
    /// Resolved global flags.
    pub globals: GlobalArgs,
    /// Output streams.
    pub io: IoStreams,
}

/// `std::path::absolute`: the path made absolute against the current
/// directory, without touching the filesystem. The contract claims that a
/// result is absolute and keeps the path's named segments (`.` pieces and
/// repeated separators dropped, `..` kept) at its end, all of them for an
/// absolute path; what stands before them for a relative path depends on the
/// current directory and is left unsaid, as is when the call fails.
#[verifier::external_body]
pub fn absolute_path(p: &str) -> (r: Result<String, String>)
    ensures
        r matches Ok(q) ==> crate::engine::path::made_absolute(p@, q@),
{
    match std::path::absolute(p) {
        Ok(q) => Ok(q.to_string_lossy().into_owned()),
        Err(e) => Err(e.to_string()),
    }
}

impl Ctx {
    /// The base directory as an absolute path.
    pub fn base_abs(&self) -> (r: Result<String, String>)
        ensures
            r matches Ok(q) ==> crate::engine::path::made_absolute(self.globals.base_dir@, q@),
    {
        absolute_path(self.globals.base_dir.as_str())
    }
}

/// How a run ended.
#[derive(Debug, Clone, Copy, PartialEq, Eq, Structural)]
pub enum RunEnd {
    /// The command line was an explicit help or version request.
    InfoRequest,
    /// The command line could not be parsed (a missing subcommand included).
    UsageError,
    /// `--verbose` and `--quiet` were both given.
    FlagConflict,
    /// The subcommand ran, successfully or not.
    Finished { succeeded: bool },
}

/// Whether the global flags conflict: `--verbose` and `--quiet` together.
pub fn flags_conflict(g: &GlobalArgs) -> (r: bool)
    ensures
        r == (g.verbose && g.quiet),
{
    g.verbose && g.quiet
}

/// The process exit code of a run: 0 for an explicit help or version request
/// and for a subcommand that succeeded; 1 otherwise.
pub fn exit_code(end: RunEnd) -> (r: i32)
    ensures
        r == (match end {
            RunEnd::InfoRequest => 0i32,
            RunEnd::Finished { succeeded } => if succeeded {
                0i32
            } else {
                1i32
            },
            _ => 1i32,
        }),
{
    match end {
        RunEnd::InfoRequest => 0,
        RunEnd::UsageError => 1,
        RunEnd::FlagConflict => 1,
        RunEnd::Finished { succeeded } => if succeeded {
            0
        } else {
            1
        },
    }
}

} // verus!
