//! State file location.
//!
//! Path resolution honors `XDG_STATE_HOME` (falling back to
//! `~/.local/state/dfm/state.json`). An empty `XDG_STATE_HOME` is treated as
//! unset rather than as the current directory.

use vstd::prelude::*;

use super::error::StateError;
use crate::config::model::opt_text;
use crate::engine::backup::{join_path, joined_path};

verus! {

/// Reads environment values; injectable so path precedence can be exercised
/// without the real process environment. Each answer an implementation gives
/// satisfies one of two relations, which an implementation may describe; one
/// that does not is taken to give any answer, so nothing is assumed of it.
pub trait Env: Sized {
    /// Whether `env` may report `value` for the variable `key`.
    closed spec fn reports_var(env: Self, key: Seq<char>, value: Option<Seq<char>>) -> bool {
        true
    }

    /// Whether `env` may report `home` as the home directory.
    closed spec fn reports_home(env: Self, home: Option<Seq<char>>) -> bool {
        true
    }

    /// Look up an environment variable, returning `None` when unset.
    fn var(&self, key: &str) -> (r: Option<String>)
        ensures
            Self::reports_var(*self, key@, opt_text(r)),
    ;

    /// The current user's home directory.
    fn home_dir(&self) -> (r: Option<String>)
        ensures
            Self::reports_home(*self, opt_text(r)),
    ;
}

/// Whether a value of `XDG_STATE_HOME` names a state directory: it is set and
/// not empty.
pub open spec fn xdg_set(xdg: Option<Seq<char>>) -> bool {
    xdg matches Some(x) && x.len() > 0
}

/// Whether `env` reports what locating the state file reads: the value `xdg`
/// of `XDG_STATE_HOME`, then, unless that names a directory, the home
/// directory `home`.
pub open spec fn location_reported<E: Env>(env: E, xdg: Option<Seq<char>>, home: Option<Seq<char>>) -> bool {
    &&& E::reports_var(env, "XDG_STATE_HOME"@, xdg)
    &&& !xdg_set(xdg) ==> E::reports_home(env, home)
}

/// The state file under a state directory: `<dir>/dfm/state.json`.
pub open spec fn under_state_dir(dir: Seq<char>) -> Seq<char> {
    joined_path(joined_path(dir, "dfm"@), "state.json"@)
}

/// The state file under a home directory: `<home>/.local/state/dfm/state.json`.
pub open spec fn under_home(home: Seq<char>) -> Seq<char> {
    under_state_dir(joined_path(joined_path(home, ".local"@), "state"@))
}

/// Where the state file is: under a non-empty `XDG_STATE_HOME`, else under
/// the home directory; with neither, there is no location.
pub open spec fn state_location(xdg: Option<Seq<char>>, home: Option<Seq<char>>) -> Option<Seq<char>> {
    match xdg {
        Some(x) if x.len() > 0 => Some(under_state_dir(x)),
        _ => match home {
            Some(h) => Some(under_home(h)),
            None => None,
        },
    }
}

/// The state file's path from the value of `XDG_STATE_HOME` and the home
/// directory; `NoHome` when neither gives one.
pub fn state_file(xdg: Option<String>, home: Option<String>) -> (r: Result<String, StateError>)
    ensures
        match state_location(opt_text(xdg), opt_text(home)) {
            Some(p) => r matches Ok(q) && q@ == p,
            None => r == Err::<String, StateError>(StateError::NoHome),
        },
{
    match xdg {
        Some(x) if !x.as_str().is_empty() => {
            let d = join_path(x.as_str(), "dfm");
            return Ok(join_path(d.as_str(), "state.json"));
        },
        _ => {},
    }
    match home {
        Some(h) => {
            let a = join_path(h.as_str(), ".local");
            let b = join_path(a.as_str(), "state");
            let d = join_path(b.as_str(), "dfm");
            Ok(join_path(d.as_str(), "state.json"))
        },
        None => Err(StateError::NoHome),
    }
}

/// A handle for locating state, parameterized over its environment source.
pub struct Store<E: Env> {
    env: E,
}

impl<E: Env> Store<E> {
    /// A store over an environment.
    pub fn with_env(env: E) -> (r: Self)
        ensures
            r.env() == env,
    {
        Store { env }
    }

    /// The environment the store reads.
    pub closed spec fn env(&self) -> E {
        self.env
    }

    /// Resolve the state file's path, honoring `XDG_STATE_HOME`; the home
    /// directory is consulted only when that is unset or empty.
    pub fn path(&self) -> (r: Result<String, StateError>)
        ensures
            exists|xdg: Option<Seq<char>>, home: Option<Seq<char>>|
                #[trigger] location_reported(self.env(), xdg, home) && state_location(xdg, home)
                    == match r {
                    Ok(p) => Some(p@),
                    Err(_) => None,
                },
            r is Err ==> r == Err::<String, StateError>(StateError::NoHome),
    {
        let xdg = self.env.var("XDG_STATE_HOME");
        let ghost xv = opt_text(xdg);
        let set = match &xdg {
            Some(x) => !x.as_str().is_empty(),
            None => false,
        };
        if set {
            let r = state_file(xdg, None);
            assert(location_reported(self.env(), xv, None));
            assert(state_location(xv, None) == match r {
                Ok(p) => Some(p@),
                Err(_) => None,
            });
            return r;
        }
        let home = self.env.home_dir();
        let ghost hv = opt_text(home);
        let r = state_file(None, home);
        assert(location_reported(self.env(), xv, hv));
        assert(state_location(xv, hv) == state_location(None, hv));
        assert(state_location(xv, hv) == match r {
            Ok(p) => Some(p@),
            Err(_) => None,
        });
        r
    }
}

/// An empty `XDG_STATE_HOME` counts as unset, and a set one makes the home
/// directory irrelevant.
pub proof fn empty_state_home_is_unset(home: Option<Seq<char>>, x: Seq<char>, other: Option<Seq<char>>)
    ensures
        state_location(Some(Seq::empty()), home) == state_location(None, home),
        x.len() > 0 ==> state_location(Some(x), home) == state_location(Some(x), other),
{
}

} // verus!
