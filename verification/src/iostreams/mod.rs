//! The standard I/O streams for a command invocation, plus styled print
//! helpers used by every subcommand.
//!
//! Stream routing:
//!
//! - `out` receives data output (lists, completion scripts) — safe to pipe.
//! - `err_out` receives both progress and diagnostics. Progress is gated by
//!   the quiet flag; diagnostics (doctor, warnings) always write through.
//!
//! Color is decided once per stream (see [`color`]) and applied through
//! [`style::paint`]. Each stream keeps, as ghost state, the text handed to
//! its writer so far and where that writer sends it (see [`stream`]); the
//! contracts of the print helpers are stated over both.

pub mod color;
pub mod stream;
pub mod style;

pub use color::{ColorEnv, ColorPolicy};

use std::io::Write;

use vstd::prelude::*;

use crate::text::{decimal, decimal_string, push_str, string_of};
use style::{arrow, arrow_text, painted, push_painted, Tone};
use color::{auto_color, color_reported};
use stream::{
    discard_writer, stderr_writer, stdout_writer, supplied_writer, write_text, Stream, StreamTarget,
};

verus! {

/// Totals for the apply/dry-run summary line.
#[derive(Debug, Clone, Copy, PartialEq, Eq)]
pub struct ApplyResult {
    /// Links already correct.
    pub links_ok: u32,
    /// Links newly created.
    pub created: u32,
    /// Stale links replaced.
    pub relinked: u32,
    /// Non-symlink targets backed up.
    pub backed_up: u32,
    /// Shell commands run.
    pub shell_run: u32,
    /// Shell commands that failed.
    pub shell_failed: u32,
    /// Dead links cleaned.
    pub cleaned: u32,
    /// Directories created.
    pub dirs: u32,
}

impl Default for ApplyResult {
    fn default() -> (r: ApplyResult)
        ensures
            r == (ApplyResult {
                links_ok: 0,
                created: 0,
                relinked: 0,
                backed_up: 0,
                shell_run: 0,
                shell_failed: 0,
                cleaned: 0,
                dirs: 0,
            }),
    {
        ApplyResult {
            links_ok: 0,
            created: 0,
            relinked: 0,
            backed_up: 0,
            shell_run: 0,
            shell_failed: 0,
            cleaned: 0,
            dirs: 0,
        }
    }
}

/// Whether stdout is an interactive terminal (`IsTerminal::is_terminal`).
#[verifier::external_body]
pub fn stdout_is_terminal() -> bool {
    std::io::IsTerminal::is_terminal(&std::io::stdout())
}

/// Whether stderr is an interactive terminal (`IsTerminal::is_terminal`).
#[verifier::external_body]
pub fn stderr_is_terminal() -> bool {
    std::io::IsTerminal::is_terminal(&std::io::stderr())
}

/// Holds the standard streams for one command invocation.
pub struct IoStreams {
    /// Data output (stdout-like).
    out: Stream,
    /// Progress + diagnostics output (stderr-like).
    err_out: Stream,
    /// Suppress progress; diagnostics are unaffected.
    quiet: bool,
    /// Whether `out` is color-capable.
    out_color: bool,
    /// Whether `err_out` is color-capable.
    err_color: bool,
}

/// What an [`IoStreams`] has been asked to write, and its settings.
pub struct IoStreamsView {
    /// Text handed to the data stream's writer.
    pub out: Seq<char>,
    /// Text handed to the progress/diagnostics stream's writer.
    pub err: Seq<char>,
    /// Where the data stream's text goes.
    pub out_target: StreamTarget,
    /// Where the progress/diagnostics stream's text goes.
    pub err_target: StreamTarget,
    pub quiet: bool,
    pub out_color: bool,
    pub err_color: bool,
}

impl View for IoStreams {
    type V = IoStreamsView;

    closed spec fn view(&self) -> IoStreamsView {
        IoStreamsView {
            out: self.out.handed(),
            err: self.err_out.handed(),
            out_target: self.out.target(),
            err_target: self.err_out.target(),
            quiet: self.quiet,
            out_color: self.out_color,
            err_color: self.err_color,
        }
    }
}

// ── the lines each helper writes ───────────────────────────────────────────

/// `verb from → to` with the given tones (the `to` part is always dim).
pub open spec fn arrow_line(
    vt: Tone,
    verb: Seq<char>,
    ft: Tone,
    from: Seq<char>,
    at: Tone,
    to: Seq<char>,
    on: bool,
) -> Seq<char> {
    painted(vt, verb, on) + " "@ + painted(ft, from, on) + " "@ + painted(at, arrow_text(), on)
        + " "@ + painted(Tone::Dim, to, on) + "\n"@
}

/// `a b` with the given tones.
pub open spec fn pair_line(t1: Tone, a: Seq<char>, t2: Tone, b: Seq<char>, on: bool) -> Seq<
    char,
> {
    painted(t1, a, on) + " "@ + painted(t2, b, on) + "\n"@
}

/// The line for one shell entry.
pub open spec fn shell_line(desc: Seq<char>, cmd: Seq<char>, quiet_opt: bool, on: bool) -> Seq<
    char,
> {
    if quiet_opt && desc.len() > 0 {
        painted(Tone::Bold, desc, on) + "\n"@
    } else if desc.len() > 0 {
        painted(Tone::Bold, desc, on) + " "@ + painted(Tone::Dim, "["@ + cmd + "]"@, on) + "\n"@
    } else {
        painted(Tone::White, cmd, on) + "\n"@
    }
}

/// `N label`.
pub open spec fn stat_text(n: u32, label: Seq<char>, on: bool) -> Seq<char> {
    painted(Tone::White, decimal(n as nat), on) + " "@ + painted(Tone::Dim, label, on)
}

/// `N problems`, the number in red when non-zero.
pub open spec fn problem_text(n: u32, on: bool) -> Seq<char> {
    painted(if n > 0 { Tone::HiRed } else { Tone::White }, decimal(n as nat), on) + " "@
        + painted(Tone::Dim, "problems"@, on)
}

/// `N shell`, with ` (F failed)` when some failed.
pub open spec fn shell_text(run: u32, failed: u32, on: bool) -> Seq<char> {
    painted(Tone::White, decimal(run as nat), on) + " "@ + painted(Tone::Dim, "shell"@, on) + if failed
        > 0 {
        " "@ + painted(Tone::HiRed, "("@ + decimal(failed as nat) + " failed)"@, on)
    } else {
        Seq::empty()
    }
}

/// The apply/dry-run summary line.
pub open spec fn done_line(dry_run: bool, r: ApplyResult, on: bool) -> Seq<char> {
    (if dry_run {
        painted(Tone::BoldCyan, "dry-run"@, on)
    } else {
        painted(Tone::BoldWhite, "Done:"@, on)
    }) + " "@ + stat_text(r.links_ok, "ok"@, on) + ", "@ + stat_text(r.created, "created"@, on)
        + ", "@ + stat_text(r.relinked, "relinked"@, on) + ", "@ + stat_text(
        r.backed_up,
        "backed up"@,
        on,
    ) + ", "@ + shell_text(r.shell_run, r.shell_failed, on) + ", "@ + stat_text(
        r.cleaned,
        "cleaned"@,
        on,
    ) + ", "@ + stat_text(r.dirs, "dirs"@, on) + "\n"@
}

/// The doctor summary line.
pub open spec fn doctor_line(ok: u32, problems: u32, on: bool) -> Seq<char> {
    painted(Tone::BoldWhite, "Doctor:"@, on) + " "@ + stat_text(ok, "ok"@, on) + ", "@
        + problem_text(problems, on) + "\n"@
}

/// The names painted dim and joined by a painted comma and a space.
pub open spec fn joined_names(names: Seq<Seq<char>>, on: bool) -> Seq<char>
    decreases names.len(),
{
    if names.len() == 0 {
        Seq::empty()
    } else if names.len() == 1 {
        painted(Tone::Dim, names[0], on)
    } else {
        joined_names(names.drop_last(), on) + painted(Tone::White, ","@, on) + " "@ + painted(
            Tone::Dim,
            names.last(),
            on,
        )
    }
}

/// The profile list line.
pub open spec fn profiles_line(names: Seq<Seq<char>>, on: bool) -> Seq<char> {
    if names.len() == 0 {
        painted(Tone::Dim, "No profiles found"@, on) + "\n"@
    } else {
        painted(Tone::White, "Profiles:"@, on) + " "@ + joined_names(names, on) + "\n"@
    }
}

/// What a progress line adds to the error stream: nothing when quiet.
pub open spec fn gated(quiet: bool, line: Seq<char>) -> Seq<char> {
    if quiet {
        Seq::empty()
    } else {
        line
    }
}

// ── line builders ──────────────────────────────────────────────────────────

fn arrow_chars(vt: Tone, verb: &str, ft: Tone, from: &str, at: Tone, to: &str, on: bool) -> (r:
    Vec<char>)
    ensures
        r@ == arrow_line(vt, verb@, ft, from@, at, to@, on),
{
    let mut v: Vec<char> = Vec::new();
    push_painted(&mut v, vt, verb, on);
    push_str(&mut v, " ");
    push_painted(&mut v, ft, from, on);
    push_str(&mut v, " ");
    push_painted(&mut v, at, arrow(), on);
    push_str(&mut v, " ");
    push_painted(&mut v, Tone::Dim, to, on);
    push_str(&mut v, "\n");
    assert(v@ =~= arrow_line(vt, verb@, ft, from@, at, to@, on));
    v
}

fn pair_chars(t1: Tone, a: &str, t2: Tone, b: &str, on: bool) -> (r: Vec<char>)
    ensures
        r@ == pair_line(t1, a@, t2, b@, on),
{
    let mut v: Vec<char> = Vec::new();
    push_painted(&mut v, t1, a, on);
    push_str(&mut v, " ");
    push_painted(&mut v, t2, b, on);
    push_str(&mut v, "\n");
    assert(v@ =~= pair_line(t1, a@, t2, b@, on));
    v
}

fn push_stat(v: &mut Vec<char>, n: u32, label: &str, on: bool)
    ensures
        final(v)@ == old(v)@ + stat_text(n, label@, on),
{
    push_painted(v, Tone::White, decimal_string(n as u64).as_str(), on);
    push_str(v, " ");
    push_painted(v, Tone::Dim, label, on);
    assert(v@ =~= old(v)@ + stat_text(n, label@, on));
}

fn push_shell_count(v: &mut Vec<char>, run: u32, failed: u32, on: bool)
    ensures
        final(v)@ == old(v)@ + shell_text(run, failed, on),
{
    push_painted(v, Tone::White, decimal_string(run as u64).as_str(), on);
    push_str(v, " ");
    push_painted(v, Tone::Dim, "shell", on);
    let ghost mid = v@;
    if failed > 0 {
        let mut f: Vec<char> = Vec::new();
        push_str(&mut f, "(");
        push_str(&mut f, decimal_string(failed as u64).as_str());
        push_str(&mut f, " failed)");
        assert(f@ =~= "("@ + decimal(failed as nat) + " failed)"@);
        push_str(v, " ");
        push_painted(v, Tone::HiRed, string_of(f.as_slice()).as_str(), on);
    }
    assert(v@ =~= old(v)@ + shell_text(run, failed, on));
}

impl IoStreams {
    /// The streams over two boxed writers.
    fn over(out: Stream, err_out: Stream, out_color: bool, err_color: bool) -> (r: IoStreams)
        requires
            out.handed().len() == 0,
            err_out.handed().len() == 0,
        ensures
            r@.out.len() == 0,
            r@.err.len() == 0,
            r@.out_target == out.target(),
            r@.err_target == err_out.target(),
            !r@.quiet,
            r@.out_color == out_color,
            r@.err_color == err_color,
    {
        IoStreams { out, err_out, quiet: false, out_color, err_color }
    }

    /// Wire to the process's stdout and stderr, with color decided per stream
    /// from the policy, the environment and whether the stream is a terminal.
    pub fn new<E: ColorEnv>(policy: ColorPolicy, env: &E) -> (r: IoStreams)
        ensures
            r@.out.len() == 0,
            r@.err.len() == 0,
            r@.out_target == StreamTarget::Stdout,
            r@.err_target == StreamTarget::Stderr,
            !r@.quiet,
            policy == ColorPolicy::Always ==> r@.out_color && r@.err_color,
            policy == ColorPolicy::Never ==> !r@.out_color && !r@.err_color,
            policy == ColorPolicy::Auto ==> exists|no_color: bool, term: Option<Seq<char>>, force: Option<
                Seq<char>,
            >, tty: bool| #[trigger] color_reported(*env, no_color, term, force) && r@.out_color
                == #[trigger] auto_color(no_color, term, force, tty),
            policy == ColorPolicy::Auto ==> exists|no_color: bool, term: Option<Seq<char>>, force: Option<
                Seq<char>,
            >, tty: bool| #[trigger] color_reported(*env, no_color, term, force) && r@.err_color
                == #[trigger] auto_color(no_color, term, force, tty),
    {
        let out_tty = stdout_is_terminal();
        let out_color = color::resolve(policy, env, out_tty);
        let err_tty = stderr_is_terminal();
        let err_color = color::resolve(policy, env, err_tty);
        proof {
            if policy == ColorPolicy::Auto {
                let (a, b, c) = choose|a: bool, b: Option<Seq<char>>, c: Option<Seq<char>>|
                    #[trigger] color_reported(*env, a, b, c) && out_color == auto_color(a, b, c, out_tty);
                assert(color_reported(*env, a, b, c) && out_color == auto_color(a, b, c, out_tty));
                let (d, e, f) = choose|d: bool, e: Option<Seq<char>>, f: Option<Seq<char>>|
                    #[trigger] color_reported(*env, d, e, f) && err_color == auto_color(d, e, f, err_tty);
                assert(color_reported(*env, d, e, f) && err_color == auto_color(d, e, f, err_tty));
            }
        }
        IoStreams::over(
            Stream::over(stdout_writer()),
            Stream::over(stderr_writer()),
            out_color,
            err_color,
        )
    }

    /// Build with explicit writers and colors. Quiet defaults off.
    pub fn with_writers<O: Write + Send + 'static, E: Write + Send + 'static>(
        out: O,
        err_out: E,
        out_color: bool,
        err_color: bool,
    ) -> (r: IoStreams)
        ensures
            r@.out.len() == 0,
            r@.err.len() == 0,
            r@.out_target == StreamTarget::Supplied,
            r@.err_target == StreamTarget::Supplied,
            !r@.quiet,
            r@.out_color == out_color,
            r@.err_color == err_color,
    {
        IoStreams::over(
            Stream::over(supplied_writer(out)),
            Stream::over(supplied_writer(err_out)),
            out_color,
            err_color,
        )
    }

    /// Streams that silently drop all output.
    pub fn discard() -> (r: IoStreams)
        ensures
            r@.out.len() == 0,
            r@.err.len() == 0,
            r@.out_target == StreamTarget::Discard,
            r@.err_target == StreamTarget::Discard,
            !r@.quiet,
            !r@.out_color,
            !r@.err_color,
    {
        IoStreams::over(Stream::over(discard_writer()), Stream::over(discard_writer()), false, false)
    }

    /// Mark the streams quiet: progress helpers become no-ops; diagnostics and
    /// data output are unaffected.
    pub fn set_quiet(&mut self, quiet: bool)
        ensures
            final(self)@ == (IoStreamsView { quiet, ..old(self)@ }),
    {
        self.quiet = quiet;
    }

    /// Whether quiet mode is active.
    pub fn is_quiet(&self) -> (r: bool)
        ensures
            r == self@.quiet,
    {
        self.quiet
    }

    /// Whether `err_out` is color-capable.
    pub fn err_color_enabled(&self) -> (r: bool)
        ensures
            r == self@.err_color,
    {
        self.err_color
    }

    /// Whether `out` is color-capable.
    pub fn out_color_enabled(&self) -> (r: bool)
        ensures
            r == self@.out_color,
    {
        self.out_color
    }

    // ── low-level write helpers ────────────────────────────────────────────

    /// Write a line to `err_out` unless quiet.
    fn progress(&mut self, line: Vec<char>)
        ensures
            final(self)@ == (IoStreamsView {
                err: old(self)@.err + gated(old(self)@.quiet, line@),
                ..old(self)@
            }),
    {
        if self.quiet {
            assert(self@.err =~= self@.err + gated(true, line@));
            return;
        }
        write_text(&mut self.err_out, string_of(line.as_slice()).as_str());
    }

    /// Write a line to `err_out` regardless of quiet (diagnostics).
    fn diag(&mut self, line: Vec<char>)
        ensures
            final(self)@ == (IoStreamsView { err: old(self)@.err + line@, ..old(self)@ }),
    {
        write_text(&mut self.err_out, string_of(line.as_slice()).as_str());
    }

    /// Write a line to `out` (data). Never gated by quiet.
    fn data(&mut self, line: Vec<char>)
        ensures
            final(self)@ == (IoStreamsView { out: old(self)@.out + line@, ..old(self)@ }),
    {
        write_text(&mut self.out, string_of(line.as_slice()).as_str());
    }

    /// Write raw text to the data stream verbatim. Never gated by quiet.
    pub fn write_out(&mut self, text: &str)
        ensures
            final(self)@ == (IoStreamsView { out: old(self)@.out + text@, ..old(self)@ }),
    {
        write_text(&mut self.out, text);
    }

    // ── engine progress (→ err_out, quiet-gated) ───────────────────────────

    /// Report that a new symlink `from -> to` was created.
    pub fn linked(&mut self, from: &str, to: &str)
        ensures
            final(self)@ == (IoStreamsView {
                err: old(self)@.err + gated(
                    old(self)@.quiet,
                    arrow_line(Tone::BoldGreen, "Linked"@, Tone::White, from@, Tone::Dim, to@, old(self)@.err_color),
                ),
                ..old(self)@
            }),
    {
        let e = self.err_color;
        let line = arrow_chars(Tone::BoldGreen, "Linked", Tone::White, from, Tone::Dim, to, e);
        self.progress(line);
    }

    /// Report that a stale symlink was replaced with `from -> to`.
    pub fn relinked(&mut self, from: &str, to: &str)
        ensures
            final(self)@ == (IoStreamsView {
                err: old(self)@.err + gated(
                    old(self)@.quiet,
                    arrow_line(Tone::Yellow, "Relinked"@, Tone::White, from@, Tone::Dim, to@, old(self)@.err_color),
                ),
                ..old(self)@
            }),
    {
        let e = self.err_color;
        let line = arrow_chars(Tone::Yellow, "Relinked", Tone::White, from, Tone::Dim, to, e);
        self.progress(line);
    }

    /// Report that an existing symlink already points at the correct target.
    pub fn link_ok(&mut self, from: &str, to: &str)
        ensures
            final(self)@ == (IoStreamsView {
                err: old(self)@.err + gated(
                    old(self)@.quiet,
                    arrow_line(Tone::Bold, "Link exists"@, Tone::Dim, from@, Tone::White, to@, old(self)@.err_color),
                ),
                ..old(self)@
            }),
    {
        let e = self.err_color;
        let line = arrow_chars(Tone::Bold, "Link exists", Tone::Dim, from, Tone::White, to, e);
        self.progress(line);
    }

    /// Report that a pre-existing file was moved `from -> to` before linking.
    pub fn backed_up(&mut self, from: &str, to: &str)
        ensures
            final(self)@ == (IoStreamsView {
                err: old(self)@.err + gated(
                    old(self)@.quiet,
                    arrow_line(Tone::Yellow, "backed up"@, Tone::White, from@, Tone::Dim, to@, old(self)@.err_color),
                ),
                ..old(self)@
            }),
    {
        let e = self.err_color;
        let line = arrow_chars(Tone::Yellow, "backed up", Tone::White, from, Tone::Dim, to, e);
        self.progress(line);
    }

    /// Report that a dangling symlink `from -> to` was removed.
    pub fn removed_dead_link(&mut self, from: &str, to: &str)
        ensures
            final(self)@ == (IoStreamsView {
                err: old(self)@.err + gated(
                    old(self)@.quiet,
                    arrow_line(Tone::Yellow, "Removed"@, Tone::White, from@, Tone::Dim, to@, old(self)@.err_color),
                ),
                ..old(self)@
            }),
    {
        let e = self.err_color;
        let line = arrow_chars(Tone::Yellow, "Removed", Tone::White, from, Tone::Dim, to, e);
        self.progress(line);
    }

    /// Report that a create target already exists and was skipped.
    pub fn path_exists(&mut self, path: &str)
        ensures
            final(self)@ == (IoStreamsView {
                err: old(self)@.err + gated(
                    old(self)@.quiet,
                    pair_line(Tone::Bold, "Path exists"@, Tone::Dim, path@, old(self)@.err_color),
                ),
                ..old(self)@
            }),
    {
        let e = self.err_color;
        let line = pair_chars(Tone::Bold, "Path exists", Tone::Dim, path, e);
        self.progress(line);
    }

    /// Report that a directory was created.
    pub fn created(&mut self, path: &str)
        ensures
            final(self)@ == (IoStreamsView {
                err: old(self)@.err + gated(
                    old(self)@.quiet,
                    pair_line(Tone::BoldGreen, "Created"@, Tone::White, path@, old(self)@.err_color),
                ),
                ..old(self)@
            }),
    {
        let e = self.err_color;
        let line = pair_chars(Tone::BoldGreen, "Created", Tone::White, path, e);
        self.progress(line);
    }

    /// Report that a profile is being applied.
    pub fn applying(&mut self, path: &str)
        ensures
            final(self)@ == (IoStreamsView {
                err: old(self)@.err + gated(
                    old(self)@.quiet,
                    pair_line(Tone::Bold, "Applying"@, Tone::Dim, path@, old(self)@.err_color),
                ),
                ..old(self)@
            }),
    {
        let e = self.err_color;
        let line = pair_chars(Tone::Bold, "Applying", Tone::Dim, path, e);
        self.progress(line);
    }

    /// Report that a profile would be applied (dry run).
    pub fn would_apply(&mut self, path: &str)
        ensures
            final(self)@ == (IoStreamsView {
                err: old(self)@.err + gated(
                    old(self)@.quiet,
                    pair_line(Tone::BoldCyan, "Would apply"@, Tone::White, path@, old(self)@.err_color),
                ),
                ..old(self)@
            }),
    {
        let e = self.err_color;
        let line = pair_chars(Tone::BoldCyan, "Would apply", Tone::White, path, e);
        self.progress(line);
    }

    /// Print a shell directive entry. `quiet_opt` mirrors the directive's
    /// `quiet` field (distinct from stream-level quiet).
    pub fn shell_cmd(&mut self, description: &str, command: &str, quiet_opt: bool)
        ensures
            final(self)@ == (IoStreamsView {
                err: old(self)@.err + gated(
                    old(self)@.quiet,
                    shell_line(description@, command@, quiet_opt, old(self)@.err_color),
                ),
                ..old(self)@
            }),
    {
        let e = self.err_color;
        let has_desc = !description.is_empty();
        let mut v: Vec<char> = Vec::new();
        if quiet_opt && has_desc {
            push_painted(&mut v, Tone::Bold, description, e);
        } else if has_desc {
            push_painted(&mut v, Tone::Bold, description, e);
            push_str(&mut v, " ");
            let mut c: Vec<char> = Vec::new();
            push_str(&mut c, "[");
            push_str(&mut c, command);
            push_str(&mut c, "]");
            assert(c@ =~= "["@ + command@ + "]"@);
            push_painted(&mut v, Tone::Dim, string_of(c.as_slice()).as_str(), e);
        } else {
            push_painted(&mut v, Tone::White, command, e);
        }
        push_str(&mut v, "\n");
        assert(v@ =~= shell_line(description@, command@, quiet_opt, e));
        self.progress(v);
    }

    /// Print the apply/dry-run summary line.
    pub fn done(&mut self, dry_run: bool, r: ApplyResult)
        ensures
            final(self)@ == (IoStreamsView {
                err: old(self)@.err + gated(old(self)@.quiet, done_line(dry_run, r, old(self)@.err_color)),
                ..old(self)@
            }),
    {
        let e = self.err_color;
        let mut v: Vec<char> = Vec::new();
        if dry_run {
            push_painted(&mut v, Tone::BoldCyan, "dry-run", e);
        } else {
            push_painted(&mut v, Tone::BoldWhite, "Done:", e);
        }
        push_str(&mut v, " ");
        push_stat(&mut v, r.links_ok, "ok", e);
        push_str(&mut v, ", ");
        push_stat(&mut v, r.created, "created", e);
        push_str(&mut v, ", ");
        push_stat(&mut v, r.relinked, "relinked", e);
        push_str(&mut v, ", ");
        push_stat(&mut v, r.backed_up, "backed up", e);
        push_str(&mut v, ", ");
        push_shell_count(&mut v, r.shell_run, r.shell_failed, e);
        push_str(&mut v, ", ");
        push_stat(&mut v, r.cleaned, "cleaned", e);
        push_str(&mut v, ", ");
        push_stat(&mut v, r.dirs, "dirs", e);
        push_str(&mut v, "\n");
        assert(v@ =~= done_line(dry_run, r, e));
        self.progress(v);
    }

    // ── diagnostics (→ err_out, always visible) ────────────────────────────

    /// Write a plain diagnostic message to `err_out`.
    pub fn doctor_fail(&mut self, msg: &str)
        ensures
            final(self)@ == (IoStreamsView {
                err: old(self)@.err + painted(Tone::White, msg@, old(self)@.err_color) + "\n"@,
                ..old(self)@
            }),
    {
        let mut v: Vec<char> = Vec::new();
        push_painted(&mut v, Tone::White, msg, self.err_color);
        push_str(&mut v, "\n");
        assert(v@ =~= painted(Tone::White, msg@, self.err_color) + "\n"@);
        self.diag(v);
        assert(self@.err =~= old(self)@.err + painted(Tone::White, msg@, old(self)@.err_color) + "\n"@);
    }

    /// Print the inline doctor summary line.
    pub fn doctor_done(&mut self, ok: u32, problems: u32)
        ensures
            final(self)@ == (IoStreamsView {
                err: old(self)@.err + doctor_line(ok, problems, old(self)@.err_color),
                ..old(self)@
            }),
    {
        let e = self.err_color;
        let mut v: Vec<char> = Vec::new();
        push_painted(&mut v, Tone::BoldWhite, "Doctor:", e);
        push_str(&mut v, " ");
        push_stat(&mut v, ok, "ok", e);
        push_str(&mut v, ", ");
        let tone = if problems > 0 {
            Tone::HiRed
        } else {
            Tone::White
        };
        push_painted(&mut v, tone, decimal_string(problems as u64).as_str(), e);
        push_str(&mut v, " ");
        push_painted(&mut v, Tone::Dim, "problems", e);
        push_str(&mut v, "\n");
        assert(v@ =~= doctor_line(ok, problems, e));
        self.diag(v);
    }

    /// Write one indented problem line under a doctor summary.
    pub fn doctor_item(&mut self, problem: &str)
        ensures
            final(self)@ == (IoStreamsView {
                err: old(self)@.err + "  "@ + painted(Tone::Dim, problem@, old(self)@.err_color) + "\n"@,
                ..old(self)@
            }),
    {
        let mut v: Vec<char> = Vec::new();
        push_str(&mut v, "  ");
        push_painted(&mut v, Tone::Dim, problem, self.err_color);
        push_str(&mut v, "\n");
        let ghost line = v@;
        assert(line =~= "  "@ + painted(Tone::Dim, problem@, self.err_color) + "\n"@);
        self.diag(v);
        assert(self@.err =~= old(self)@.err + "  "@ + painted(Tone::Dim, problem@, old(self)@.err_color) + "\n"@);
    }

    // ── status output (→ out) ──────────────────────────────────────────────

    /// Write a `label value` pair to the data stream.
    pub fn status_line(&mut self, label: &str, value: &str)
        ensures
            final(self)@ == (IoStreamsView {
                out: old(self)@.out + pair_line(Tone::Bold, label@, Tone::Dim, value@, old(self)@.out_color),
                ..old(self)@
            }),
    {
        let o = self.out_color;
        let line = pair_chars(Tone::Bold, label, Tone::Dim, value, o);
        self.data(line);
    }

    /// Write a `label value (meta)` triple to the data stream.
    pub fn status_line_with_meta(&mut self, label: &str, value: &str, meta: &str)
        ensures
            final(self)@ == (IoStreamsView {
                out: old(self)@.out + painted(Tone::Bold, label@, old(self)@.out_color) + " "@ + painted(
                    Tone::Dim,
                    value@,
                    old(self)@.out_color,
                ) + " "@ + painted(Tone::White, meta@, old(self)@.out_color) + "\n"@,
                ..old(self)@
            }),
    {
        let o = self.out_color;
        let mut v: Vec<char> = Vec::new();
        push_painted(&mut v, Tone::Bold, label, o);
        push_str(&mut v, " ");
        push_painted(&mut v, Tone::Dim, value, o);
        push_str(&mut v, " ");
        push_painted(&mut v, Tone::White, meta, o);
        push_str(&mut v, "\n");
        let ghost line = v@;
        self.data(v);
        assert(self@.out =~= old(self)@.out + painted(Tone::Bold, label@, o) + " "@ + painted(
            Tone::Dim,
            value@,
            o,
        ) + " "@ + painted(Tone::White, meta@, o) + "\n"@);
    }

    /// Write a dim placeholder when there is no status to show.
    pub fn status_empty(&mut self, msg: &str)
        ensures
            final(self)@ == (IoStreamsView {
                out: old(self)@.out + painted(Tone::Dim, msg@, old(self)@.out_color) + "\n"@,
                ..old(self)@
            }),
    {
        let mut v: Vec<char> = Vec::new();
        push_painted(&mut v, Tone::Dim, msg, self.out_color);
        push_str(&mut v, "\n");
        self.data(v);
        assert(self@.out =~= old(self)@.out + painted(Tone::Dim, msg@, old(self)@.out_color) + "\n"@);
    }

    // ── diff output (→ out) ────────────────────────────────────────────────

    /// Write a diff section header with an item count.
    pub fn diff_header(&mut self, header: &str, n: usize)
        ensures
            final(self)@ == (IoStreamsView {
                out: old(self)@.out + painted(Tone::BoldWhite, header@, old(self)@.out_color) + " "@
                    + painted(Tone::Dim, "("@ + decimal(n as nat) + ")"@, old(self)@.out_color) + "\n"@,
                ..old(self)@
            }),
    {
        let o = self.out_color;
        let mut c: Vec<char> = Vec::new();
        push_str(&mut c, "(");
        push_str(&mut c, decimal_string(n as u64).as_str());
        push_str(&mut c, ")");
        assert(c@ =~= "("@ + decimal(n as nat) + ")"@);
        let mut v: Vec<char> = Vec::new();
        push_painted(&mut v, Tone::BoldWhite, header, o);
        push_str(&mut v, " ");
        push_painted(&mut v, Tone::Dim, string_of(c.as_slice()).as_str(), o);
        push_str(&mut v, "\n");
        self.data(v);
        assert(self@.out =~= old(self)@.out + painted(Tone::BoldWhite, header@, o) + " "@
            + painted(Tone::Dim, "("@ + decimal(n as nat) + ")"@, o) + "\n"@);
    }

    /// Write one indented action line in the diff output.
    pub fn diff_action(&mut self, text: &str)
        ensures
            final(self)@ == (IoStreamsView {
                out: old(self)@.out + "  "@ + painted(Tone::White, text@, old(self)@.out_color) + "\n"@,
                ..old(self)@
            }),
    {
        let mut v: Vec<char> = Vec::new();
        push_str(&mut v, "  ");
        push_painted(&mut v, Tone::White, text, self.out_color);
        push_str(&mut v, "\n");
        self.data(v);
        assert(self@.out =~= old(self)@.out + "  "@ + painted(Tone::White, text@, old(self)@.out_color) + "\n"@);
    }

    /// Write a "no changes" placeholder when the diff is empty.
    pub fn diff_empty(&mut self)
        ensures
            final(self)@ == (IoStreamsView {
                out: old(self)@.out + painted(Tone::Dim, "No changes"@, old(self)@.out_color) + "\n"@,
                ..old(self)@
            }),
    {
        let mut v: Vec<char> = Vec::new();
        push_painted(&mut v, Tone::Dim, "No changes", self.out_color);
        push_str(&mut v, "\n");
        self.data(v);
        assert(self@.out =~= old(self)@.out + painted(Tone::Dim, "No changes"@, old(self)@.out_color) + "\n"@);
    }

    // ── list output (→ out) ────────────────────────────────────────────────

    /// Print a styled profile list. Empty → "No profiles found".
    pub fn profile_list(&mut self, names: &[String])
        ensures
            final(self)@ == (IoStreamsView {
                out: old(self)@.out + profiles_line(names@.map_values(|n: String| n@), old(self)@.out_color),
                ..old(self)@
            }),
    {
        let o = self.out_color;
        let ghost ns = names@.map_values(|n: String| n@);
        let mut v: Vec<char> = Vec::new();
        if names.len() == 0 {
            push_painted(&mut v, Tone::Dim, "No profiles found", o);
            push_str(&mut v, "\n");
            assert(v@ =~= profiles_line(ns, o));
            self.data(v);
            return;
        }
        push_painted(&mut v, Tone::White, "Profiles:", o);
        push_str(&mut v, " ");
        let ghost head = v@;
        let mut i: usize = 0;
        while i < names.len()
            invariant
                i <= names@.len(),
                ns == names@.map_values(|n: String| n@),
                v@ == head + joined_names(ns.take(i as int), o),
            decreases names.len() - i,
        {
            let ghost before = v@;
            if i > 0 {
                push_painted(&mut v, Tone::White, ",", o);
                push_str(&mut v, " ");
            }
            push_painted(&mut v, Tone::Dim, names[i].as_str(), o);
            proof {
                let t = ns.take(i + 1);
                assert(t.drop_last() =~= ns.take(i as int));
                assert(t.last() == names@[i as int]@);
                if i == 0 {
                    assert(joined_names(ns.take(0), o) =~= Seq::<char>::empty());
                    assert(v@ =~= head + joined_names(t, o));
                } else {
                    assert(v@ =~= head + joined_names(t, o));
                }
            }
            i = i + 1;
        }
        assert(ns.take(names@.len() as int) =~= ns);
        push_str(&mut v, "\n");
        assert(v@ =~= profiles_line(ns, o));
        self.data(v);
    }
}

// ── laws ───────────────────────────────────────────────────────────────────

/// Whether `s` holds no escape character.
pub open spec fn no_escape(s: Seq<char>) -> bool {
    forall|i: int| 0 <= i < s.len() ==> s[i] != '\u{1b}'
}

proof fn lemma_no_escape_concat(a: Seq<char>, b: Seq<char>)
    requires
        no_escape(a),
        no_escape(b),
    ensures
        no_escape(a + b),
{
    assert forall|i: int| 0 <= i < (a + b).len() implies (a + b)[i] != '\u{1b}' by {
        if i < a.len() {
            assert((a + b)[i] == a[i]);
        } else {
            assert((a + b)[i] == b[i - a.len()]);
        }
    }
}

/// With color off, a progress line holds no escape sequence unless its
/// texts do; with color on, it starts with one.
pub proof fn color_decides_escapes(
    vt: Tone,
    verb: Seq<char>,
    ft: Tone,
    from: Seq<char>,
    at: Tone,
    to: Seq<char>,
)
    requires
        no_escape(verb),
        no_escape(from),
        no_escape(to),
    ensures
        no_escape(arrow_line(vt, verb, ft, from, at, to, false)),
        arrow_line(vt, verb, ft, from, at, to, true)[0] == '\u{1b}',
{
    reveal_strlit(" ");
    reveal_strlit("\n");
    reveal_strlit("\u{1b}[1m");
    reveal_strlit("\u{1b}[1m\u{1b}[32m");
    reveal_strlit("\u{1b}[1m\u{1b}[97m");
    reveal_strlit("\u{1b}[1m\u{1b}[36m");
    reveal_strlit("\u{1b}[33m");
    reveal_strlit("\u{1b}[97m");
    reveal_strlit("\u{1b}[90m");
    reveal_strlit("\u{1b}[91m");
    let sp = " "@;
    let nl = "\n"@;
    assert(no_escape(sp));
    assert(no_escape(nl));
    assert(no_escape(arrow_text()));
    lemma_no_escape_concat(verb, sp);
    lemma_no_escape_concat(verb + sp, from);
    lemma_no_escape_concat(verb + sp + from, sp);
    lemma_no_escape_concat(verb + sp + from + sp, arrow_text());
    lemma_no_escape_concat(verb + sp + from + sp + arrow_text(), sp);
    lemma_no_escape_concat(verb + sp + from + sp + arrow_text() + sp, to);
    lemma_no_escape_concat(verb + sp + from + sp + arrow_text() + sp + to, nl);
    let open = style::tone_open(vt);
    assert(open[0] == '\u{1b}');
    let line = arrow_line(vt, verb, ft, from, at, to, true);
    assert(line[0] == painted(vt, verb, true)[0]);
}

/// Quiet silences progress lines only: diagnostics and data are written
/// whatever the quiet flag says.
pub proof fn quiet_silences_progress_only(line: Seq<char>)
    ensures
        gated(true, line).len() == 0,
        gated(false, line) == line,
{
}

} // verus!
