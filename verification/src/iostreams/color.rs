//! Color-policy resolution: `auto`/`always`/`never` honoring `NO_COLOR`,
//! `TERM=dumb`, `CLICOLOR_FORCE`, and TTY detection.
//!
//! The environment lookups are injectable so the precedence rules can be
//! exercised without touching the real process environment.

use vstd::prelude::*;

use crate::config::model::opt_text;
use crate::text::str_eq;

verus! {

/// The user-facing `--color` policy.
#[derive(Debug, Clone, Copy, PartialEq, Eq, Structural)]
pub enum ColorPolicy {
    /// Decide from env + TTY detection.
    Auto,
    /// Force color on.
    Always,
    /// Force color off.
    Never,
}

impl Default for ColorPolicy {
    fn default() -> (r: ColorPolicy)
        ensures
            r == ColorPolicy::Auto,
    {
        ColorPolicy::Auto
    }
}

/// The policy a `--color` value names; anything unknown is `Auto`.
pub open spec fn policy_named(s: Seq<char>) -> ColorPolicy {
    if s == "always"@ {
        ColorPolicy::Always
    } else if s == "never"@ {
        ColorPolicy::Never
    } else {
        ColorPolicy::Auto
    }
}

impl ColorPolicy {
    /// Parse the `--color` flag value; unknown values are ignored (treated as
    /// `Auto`).
    pub fn parse(s: &str) -> (r: ColorPolicy)
        ensures
            r == policy_named(s@),
    {
        if str_eq(s, "always") {
            ColorPolicy::Always
        } else if str_eq(s, "never") {
            ColorPolicy::Never
        } else {
            ColorPolicy::Auto
        }
    }
}

/// Environment inputs to the color decision; injectable for tests. Each
/// answer an implementation gives satisfies one of two relations, which an
/// implementation may describe; one that does not is taken to give any
/// answer, so nothing is assumed of it.
pub trait ColorEnv: Sized {
    /// Whether `env` may report the variable `key` as present (or not).
    closed spec fn reports_present(env: Self, key: Seq<char>, present: bool) -> bool {
        true
    }

    /// Whether `env` may report `value` for the variable `key`.
    closed spec fn reports_value(env: Self, key: Seq<char>, value: Option<Seq<char>>) -> bool {
        true
    }

    /// Whether an env var is present (any value).
    fn has(&self, key: &str) -> (r: bool)
        ensures
            Self::reports_present(*self, key@, r),
    ;

    /// An env var's value, if set.
    fn get(&self, key: &str) -> (r: Option<String>)
        ensures
            Self::reports_value(*self, key@, opt_text(r)),
    ;
}

/// Whether a stream gets ANSI sequences under `Auto`, from what the
/// environment reports: `NO_COLOR` present → never; `TERM=dumb` → never;
/// `CLICOLOR_FORCE=1` → always; otherwise the stream's TTY status.
pub open spec fn auto_color(
    no_color: bool,
    term: Option<Seq<char>>,
    clicolor_force: Option<Seq<char>>,
    is_tty: bool,
) -> bool {
    if no_color {
        false
    } else if term == Some("dumb"@) {
        false
    } else if clicolor_force == Some("1"@) {
        true
    } else {
        is_tty
    }
}

fn is_value(v: &Option<String>, want: &str) -> (r: bool)
    ensures
        r == (opt_text(*v) == Some(want@)),
{
    match v {
        Some(x) => str_eq(x.as_str(), want),
        None => false,
    }
}

/// The `Auto` decision from what the environment reported: whether
/// `NO_COLOR` is present, and the values of `TERM` and `CLICOLOR_FORCE`.
pub fn color_for(
    no_color: bool,
    term: &Option<String>,
    clicolor_force: &Option<String>,
    is_tty: bool,
) -> (r: bool)
    ensures
        r == auto_color(no_color, opt_text(*term), opt_text(*clicolor_force), is_tty),
{
    if no_color {
        false
    } else if is_value(term, "dumb") {
        false
    } else if is_value(clicolor_force, "1") {
        true
    } else {
        is_tty
    }
}

/// Whether `env` reports what the `Auto` decision reads: `NO_COLOR` present
/// or not, then (unless it is) `TERM`'s value, then (unless that is `dumb`)
/// `CLICOLOR_FORCE`'s value.
pub open spec fn color_reported<E: ColorEnv>(
    env: E,
    no_color: bool,
    term: Option<Seq<char>>,
    force: Option<Seq<char>>,
) -> bool {
    &&& E::reports_present(env, "NO_COLOR"@, no_color)
    &&& !no_color ==> E::reports_value(env, "TERM"@, term)
    &&& !no_color && term != Some("dumb"@) ==> E::reports_value(env, "CLICOLOR_FORCE"@, force)
}

/// Decide whether a stream should receive ANSI sequences under `Auto`,
/// consulting `env` in precedence order (see [`color_for`]) and stopping at
/// the first variable that decides.
pub fn compute_color<E: ColorEnv>(env: &E, is_tty: bool) -> (r: bool)
    ensures
        exists|no_color: bool, term: Option<Seq<char>>, force: Option<Seq<char>>|
            #[trigger] color_reported(*env, no_color, term, force) && r == auto_color(
                no_color,
                term,
                force,
                is_tty,
            ),
{
    if env.has("NO_COLOR") {
        let r = color_for(true, &None, &None, is_tty);
        assert(color_reported(*env, true, None, None) && r == auto_color(true, None, None, is_tty));
        return r;
    }
    let term = env.get("TERM");
    if is_value(&term, "dumb") {
        let r = color_for(false, &term, &None, is_tty);
        assert(color_reported(*env, false, opt_text(term), None) && r == auto_color(
            false,
            opt_text(term),
            None,
            is_tty,
        ));
        return r;
    }
    let force = env.get("CLICOLOR_FORCE");
    let r = color_for(false, &term, &force, is_tty);
    assert(color_reported(*env, false, opt_text(term), opt_text(force)) && r == auto_color(
        false,
        opt_text(term),
        opt_text(force),
        is_tty,
    ));
    r
}

/// Resolve color for a stream under a policy. `Always`/`Never` override;
/// `Auto` runs [`compute_color`] against the stream's TTY status.
pub fn resolve<E: ColorEnv>(policy: ColorPolicy, env: &E, is_tty: bool) -> (r: bool)
    ensures
        policy == ColorPolicy::Always ==> r,
        policy == ColorPolicy::Never ==> !r,
        policy == ColorPolicy::Auto ==> exists|no_color: bool, term: Option<Seq<char>>, force: Option<
            Seq<char>,
        >| #[trigger] color_reported(*env, no_color, term, force) && r == auto_color(
            no_color,
            term,
            force,
            is_tty,
        ),
{
    match policy {
        ColorPolicy::Always => true,
        ColorPolicy::Never => false,
        ColorPolicy::Auto => compute_color(env, is_tty),
    }
}

/// `NO_COLOR` wins over everything else in the environment, and an explicit
/// policy wins over the environment.
pub proof fn no_color_wins(term: Option<Seq<char>>, clicolor_force: Option<Seq<char>>, is_tty: bool)
    ensures
        !auto_color(true, term, clicolor_force, is_tty),
        auto_color(false, None, None, is_tty) == is_tty,
{
}

} // verus!
