//! State load/save errors, each rendered with a `state:` prefix.

use vstd::prelude::*;

use crate::text::{chars_of, push_str, string_of};

verus! {

/// A failure locating, reading or writing the state file. The reasons are
/// the underlying errors' messages.
#[derive(Debug, Clone, PartialEq, Eq)]
pub enum StateError {
    /// The home directory could not be determined ($HOME unset).
    NoHome,
    /// Reading the state file failed.
    Read {
        /// Path that failed to read.
        path: String,
        /// What the operating system reported.
        reason: String,
    },
    /// Parsing the state JSON failed.
    Parse {
        /// Path whose contents failed to parse.
        path: String,
        /// What the JSON decoder reported.
        reason: String,
    },
    /// Creating the parent directory failed.
    Mkdir(String),
    /// Serializing the state failed.
    Marshal(String),
    /// Writing the state file failed.
    Write {
        /// Path that failed to write.
        path: String,
        /// What the operating system reported.
        reason: String,
    },
}

/// How a state error renders.
pub open spec fn state_error_text(e: StateError) -> Seq<char> {
    match e {
        StateError::NoHome => "state: home dir: $HOME is not set"@,
        StateError::Read { path, reason } => "state: read "@ + path@ + ": "@ + reason@,
        StateError::Parse { path, reason } => "state: parse "@ + path@ + ": "@ + reason@,
        StateError::Mkdir(reason) => "state: mkdir: "@ + reason@,
        StateError::Marshal(reason) => "state: marshal: "@ + reason@,
        StateError::Write { path, reason } => "state: write "@ + path@ + ": "@ + reason@,
    }
}

impl StateError {
    /// The rendered error.
    pub fn to_string(&self) -> (r: String)
        ensures
            r@ == state_error_text(*self),
    {
        let v = match self {
            StateError::NoHome => chars_of("state: home dir: $HOME is not set"),
            StateError::Read { path, reason } => {
                let mut v = chars_of("state: read ");
                push_str(&mut v, path.as_str());
                push_str(&mut v, ": ");
                push_str(&mut v, reason.as_str());
                v
            },
            StateError::Parse { path, reason } => {
                let mut v = chars_of("state: parse ");
                push_str(&mut v, path.as_str());
                push_str(&mut v, ": ");
                push_str(&mut v, reason.as_str());
                v
            },
            StateError::Mkdir(reason) => {
                let mut v = chars_of("state: mkdir: ");
                push_str(&mut v, reason.as_str());
                v
            },
            StateError::Marshal(reason) => {
                let mut v = chars_of("state: marshal: ");
                push_str(&mut v, reason.as_str());
                v
            },
            StateError::Write { path, reason } => {
                let mut v = chars_of("state: write ");
                push_str(&mut v, path.as_str());
                push_str(&mut v, ": ");
                push_str(&mut v, reason.as_str());
                v
            },
        };
        string_of(v.as_slice())
    }
}

} // verus!
