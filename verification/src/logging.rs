//! The diagnostics level chosen from the command-line flags.
//!
//! - `--verbose` → `Debug` (full tracing)
//! - `--quiet`   → `Warn` (warnings and errors still surface)
//! - otherwise   → `Info`
//!
//! Installing the logger itself is the caller's part.

use vstd::prelude::*;

use log::LevelFilter;

verus! {

/// `log::LevelFilter`, declared so its variants can stand in contracts as
/// the crate declares them (six unit variants, `Off` to `Trace`).
#[verifier::external_type_specification]
pub struct ExLevelFilter(LevelFilter);

/// Map the verbose/quiet flags to a level filter. `verbose` wins if both are
/// set (the command line rejects that combination earlier).
pub fn level_from_flags(verbose: bool, quiet: bool) -> (r: LevelFilter)
    ensures
        r == (if verbose {
            LevelFilter::Debug
        } else if quiet {
            LevelFilter::Warn
        } else {
            LevelFilter::Info
        }),
{
    if verbose {
        LevelFilter::Debug
    } else if quiet {
        LevelFilter::Warn
    } else {
        LevelFilter::Info
    }
}

} // verus!
