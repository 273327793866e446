//! The engine: its state across one run, and the decision each directive
//! entry takes from what the filesystem reports.
//!
//! The caller walks the directives, asks the engine what to do with each
//! entry, performs the filesystem work the engine asks for, and reports back.
//! Everything the engine records — the actions, the tally, the progress
//! events — is decided here.

use vstd::prelude::*;

use super::action::{Action, ActionKind, ActionView};
use super::backup::{backup_destination, backup_root, join_path, joined_path, BackupWriter};
use super::options::{
    bool_or, bump, bumped, ApplyError, defaults_after, merge_clean_opts, merge_link_opts, merge_shell_opts,
    merged_clean, merged_link, merged_shell, or_else, MergedDefaults,
    defaults_over, MergedDefaultsView, Tally,
};
use super::path::{
    based, clean, cleaned, default_source, dot_dot, has_glob_chars, inside_any, is_absolute,
    is_glob_char, is_inside_any, leads_back, lemma_root_names_no_parent, named_segments, rel, relative_path, resolve_base,
    source_for, string_views,
};
use super::sink::{NullSink, OutputSink, SinkEvent};
use crate::config::model::{
    unset_clean_options, unset_link_options, unset_shell_options, CleanEntry, CreateEntry,
    DefaultsView, Directive, DirectiveKind, LinkEntry, LinkOptionsView, ShellEntry,
};
use crate::text::{chars_of, debug_quoted, debug_quoted_text, push_str, str_eq, string_of};

verus! {

/// The views of recorded actions.
pub open spec fn recorded(v: Seq<Action>) -> Seq<ActionView> {
    v.map_values(|a: Action| a@)
}

/// An action as the engine records it.
pub open spec fn action_of(kind: ActionKind, from: Seq<char>, to: Seq<char>, dry_run: bool) -> ActionView {
    ActionView { kind, from, to, dry_run }
}

/// Applies a parsed configuration, one decision at a time.
///
/// `base_dir` is the directory containing the profile (usually the dotfiles
/// repo root); relative link sources resolve against it. With `dry_run` the
/// engine records what it would do and never asks for a filesystem change.
pub struct Engine<S: OutputSink = NullSink> {
    /// Absolute base directory.
    pub base_dir: String,
    /// Whether to plan without mutating the filesystem.
    pub dry_run: bool,
    /// Whether to skip `shell:` directives entirely (links/dirs still run).
    pub skip_shell: bool,
    /// Progress sink.
    pub sink: S,
    /// Recorded actions (populated in both real and dry-run modes).
    pub actions: Vec<Action>,
    /// Accumulated defaults across `defaults:` directives.
    pub defaults: MergedDefaults,
    /// Lazily set session backup directory.
    pub backup: BackupWriter,
    /// Shared tag for all backups in this run.
    pub backup_tag: String,
    /// The home directory to work under; `None` falls back to `$HOME`.
    pub backup_home: Option<String>,
}

impl Engine<NullSink> {
    /// An engine for `base_dir` with no output sink.
    pub fn new(base_dir: &str) -> (r: Self)
        ensures
            r.base_dir@ == base_dir@,
            !r.dry_run,
            !r.skip_shell,
            r.actions@.len() == 0,
            r.defaults@ == (MergedDefaultsView {
                link: unset_link_options(),
                shell: unset_shell_options(),
                clean: unset_clean_options(),
            }),
            r.backup@.len() == 0,
            r.backup_tag@.len() == 0,
            r.backup_home is None,
    {
        let v = chars_of(base_dir);
        Engine {
            base_dir: string_of(v.as_slice()),
            dry_run: false,
            skip_shell: false,
            sink: NullSink,
            actions: Vec::new(),
            defaults: MergedDefaults::new(),
            backup: BackupWriter::default(),
            backup_tag: String::new(),
            backup_home: None,
        }
    }
}

impl<S: OutputSink> Engine<S> {
    /// Replace the output sink (builder style); everything else is kept.
    pub fn with_sink<T: OutputSink>(self, sink: T) -> (r: Engine<T>)
        ensures
            r.base_dir == self.base_dir,
            r.dry_run == self.dry_run,
            r.skip_shell == self.skip_shell,
            r.sink == sink,
            r.actions == self.actions,
            r.defaults == self.defaults,
            r.backup == self.backup,
            r.backup_tag == self.backup_tag,
            r.backup_home == self.backup_home,
    {
        Engine {
            base_dir: self.base_dir,
            dry_run: self.dry_run,
            skip_shell: self.skip_shell,
            sink,
            actions: self.actions,
            defaults: self.defaults,
            backup: self.backup,
            backup_tag: self.backup_tag,
            backup_home: self.backup_home,
        }
    }

    /// Set dry-run mode (builder style).
    pub fn dry_run(self, dry_run: bool) -> (r: Self)
        ensures
            r == (Engine { dry_run, ..self }),
    {
        Engine { dry_run, ..self }
    }

    /// Skip `shell:` directives entirely (builder style). Links, cleans, and
    /// directory creation still run; shell commands are neither executed nor
    /// recorded.
    pub fn skip_shell(self, skip_shell: bool) -> (r: Self)
        ensures
            r == (Engine { skip_shell, ..self }),
    {
        Engine { skip_shell, ..self }
    }

    /// Set the tag used for the session backup directory.
    pub fn set_backup_tag(&mut self, tag: &str)
        ensures
            final(self).backup_tag@ == tag@,
            final(self).base_dir == old(self).base_dir,
            final(self).dry_run == old(self).dry_run,
            final(self).skip_shell == old(self).skip_shell,
            final(self).actions == old(self).actions,
            final(self).defaults == old(self).defaults,
            final(self).backup == old(self).backup,
            final(self).backup_home == old(self).backup_home,
            final(self).sink == old(self).sink,
    {
        let v = chars_of(tag);
        self.backup_tag = string_of(v.as_slice());
    }

    /// Override the home directory under which backups are written. When
    /// unset, `$HOME` is used.
    pub fn with_backup_home(self, home: &str) -> (r: Self)
        ensures
            r.backup_home matches Some(h) && h@ == home@,
            r == (Engine { backup_home: r.backup_home, ..self }),
    {
        let v = chars_of(home);
        Engine { backup_home: Some(string_of(v.as_slice())), ..self }
    }

    /// The home directory the run works under: backups go below it, and a
    /// forced clean is honored only below it. When unset, `$HOME` is used.
    pub fn with_home(self, home: &str) -> (r: Self)
        ensures
            r.backup_home matches Some(h) && h@ == home@,
            r == (Engine { backup_home: r.backup_home, ..self }),
    {
        self.with_backup_home(home)
    }

    /// Record an action, marked with the engine's dry-run flag.
    pub fn record(&mut self, kind: ActionKind, from: String, to: String)
        ensures
            recorded(final(self).actions@) == recorded(old(self).actions@).push(
                action_of(kind, from@, to@, old(self).dry_run),
            ),
            *final(self) == (Engine { actions: final(self).actions, ..*old(self) }),
    {
        let a = Action { kind, from, to, dry_run: self.dry_run };
        self.actions.push(a);
        assert(recorded(self.actions@) =~= recorded(old(self).actions@).push(a@));
    }
}

// ── directives ─────────────────────────────────────────────────────────────

/// What the caller does next with a directive.
#[derive(Debug, Clone, Copy, PartialEq, Eq, Structural)]
pub enum Dispatch {
    /// Nothing more: the directive was handled (defaults merged, or shell
    /// skipped).
    Done,
    /// Run each link entry.
    Link,
    /// Run each shell entry.
    Shell,
    /// Scan each clean entry.
    Clean,
    /// Create each listed directory.
    Create,
}

/// Two engines with the same settings: all but the actions and the sink.
pub open spec fn same_settings<S: OutputSink>(a: Engine<S>, b: Engine<S>) -> bool {
    &&& a.base_dir == b.base_dir
    &&& a.dry_run == b.dry_run
    &&& a.skip_shell == b.skip_shell
    &&& a.defaults == b.defaults
    &&& a.backup == b.backup
    &&& a.backup_tag == b.backup_tag
    &&& a.backup_home == b.backup_home
}

/// The view of an engine that a step leaves unchanged but for its actions.
pub open spec fn same_but_actions<S: OutputSink>(a: Engine<S>, b: Engine<S>) -> bool {
    same_settings(a, b) && a.sink == b.sink
}

/// A step that tells the sink `event`: the sink hears it, and the settings
/// stay.
pub open spec fn told<S: OutputSink>(before: Engine<S>, event: SinkEvent, after: Engine<S>) -> bool {
    same_settings(after, before) && S::hears(before.sink, event, after.sink)
}

/// The view of an engine that a step leaves unchanged.
pub open spec fn unchanged<S: OutputSink>(a: Engine<S>, b: Engine<S>) -> bool {
    same_but_actions(a, b) && a.actions == b.actions
}

// ── links ──────────────────────────────────────────────────────────────────

/// What `Path::parent` returns for `p`, as text.
pub uninterp spec fn parent_text(p: Seq<char>) -> Option<Seq<char>>;

/// `std::path::Path::parent`, as text. Only the name of the result is
/// claimed.
#[verifier::external_body]
pub fn path_parent(p: &str) -> (r: Option<String>)
    ensures
        match r {
            Some(q) => parent_text(p@) == Some(q@),
            None => parent_text(p@) is None,
        },
{
    std::path::Path::new(p).parent().map(|q| q.to_string_lossy().into_owned())
}

/// The source of a link: its `path` option, else the target's file name with
/// one leading dot removed.
pub open spec fn entry_source(opts: LinkOptionsView, target: Seq<char>) -> Seq<char> {
    match opts.path {
        Some(p) => p,
        None => source_for(target),
    }
}

/// Whether `s` holds a glob metacharacter.
pub open spec fn has_glob(s: Seq<char>) -> bool {
    exists|i: int| 0 <= i < s.len() && #[trigger] is_glob_char(s[i])
}

/// Whether the options ask for a symlink, the only supported link type
/// (also when no type is given).
pub open spec fn symlink_type(opts: LinkOptionsView) -> bool {
    opts.link_type is None || opts.link_type == Some("symlink"@)
}

/// The text the link should hold: the source relative to the link's
/// directory when `relative` is set (an error when there is no relative
/// path), else the absolute source; only the `symlink` type is supported.
pub open spec fn link_text(opts: LinkOptionsView, link_path: Seq<char>, source_abs: Seq<char>) -> Result<
    Seq<char>,
    Seq<char>,
> {
    let d = if or_else(opts.relative, false) {
        let dir = match parent_text(link_path) {
            Some(p) => p,
            None => "/"@,
        };
        match relative_path(source_abs, dir) {
            Some(t) => Ok(t),
            None => Err("relative: no path"@),
        }
    } else {
        Ok(source_abs)
    };
    match d {
        Err(e) => Err(e),
        Ok(t) => {
            let lt = match opts.link_type {
                Some(x) => x,
                None => "symlink"@,
            };
            if lt != "symlink"@ {
                Err("link type "@ + debug_quoted_text(lt) + " not supported"@)
            } else {
                Ok(t)
            }
        },
    }
}

/// What one link entry needs, computed before the filesystem is consulted.
/// The caller goes through it in field order: [`LinkPlan::gate`] decides
/// whether the glob and source checks end the entry; then the parent is made
/// (when asked), and a failed `desired` ends the entry; otherwise the link path is
/// inspected and [`Engine::link_decide`] takes over.
#[derive(Debug)]
pub struct LinkPlan {
    /// The absolute link path.
    pub link_path: String,
    /// The configured (or default) source.
    pub source: String,
    /// The source resolved against the base directory.
    pub source_abs: String,
    /// `glob` is set and the source holds glob characters: not supported.
    pub glob_refused: bool,
    /// Whether the source must exist (`ignore-missing` unset or false).
    pub check_source: bool,
    /// The parent directory to create first (`create` set, not a dry run).
    pub make_parent: Option<String>,
    /// The text the link should hold, or why there is none.
    pub desired: Result<String, String>,
    /// Whether a symlink pointing elsewhere is replaced (`relink` or `force`).
    pub replace: bool,
}

/// What the caller found at a link's source.
#[derive(Debug, Clone, PartialEq, Eq)]
pub enum SourceState {
    /// Something exists there.
    Present,
    /// Nothing exists there.
    Missing,
    /// It could not be examined, for the reason given.
    Unreadable(String),
}

impl LinkPlan {
    /// Whether the entry goes on past its first checks: a refused glob ends
    /// it, then, when the source must exist, a missing or unreadable source.
    pub fn gate(&self, source: &SourceState) -> (r: Result<(), String>)
        ensures
            self.glob_refused ==> (r matches Err(m) && m@ == "glob: not yet supported"@),
            !self.glob_refused && !self.check_source ==> r is Ok,
            !self.glob_refused && self.check_source ==> match *source {
                SourceState::Present => r is Ok,
                SourceState::Missing => (r matches Err(m) && m@ == "nonexistent source "@
                    + self.source_abs@),
                SourceState::Unreadable(e) => (r matches Err(m) && m@ == "stat source: "@ + e@),
            },
    {
        if self.glob_refused {
            let v = chars_of("glob: not yet supported");
            return Err(string_of(v.as_slice()));
        }
        if !self.check_source {
            return Ok(());
        }
        match source {
            SourceState::Present => Ok(()),
            SourceState::Missing => {
                let mut v = chars_of("nonexistent source ");
                push_str(&mut v, self.source_abs.as_str());
                Err(string_of(v.as_slice()))
            },
            SourceState::Unreadable(e) => {
                let mut v = chars_of("stat source: ");
                push_str(&mut v, e.as_str());
                Err(string_of(v.as_slice()))
            },
        }
    }
}

/// What the caller does after inspecting the link path.
#[derive(Debug, PartialEq, Eq)]
pub enum LinkMove {
    /// Nothing more; the entry ends with this outcome.
    Done(Result<(), String>),
    /// Create the symlink (writing it only when `write`), then report with
    /// [`Engine::link_created`].
    Create { write: bool },
    /// Replace the stale symlink (only when `write`), then report with
    /// [`Engine::link_relinked`].
    Relink { write: bool },
    /// Back up what is there (see [`Engine::backup_plan`]), then create.
    Backup,
}

/// What exists at a link path.
#[derive(Debug, Clone, PartialEq, Eq)]
pub enum Existing {
    /// Nothing exists there.
    Absent,
    /// A symlink, with its current destination.
    Symlink(String),
    /// A regular file or directory.
    NotSymlink,
}

/// The refusal of a symlink that points elsewhere.
pub open spec fn incorrect_link_text(target: Seq<char>, current: Seq<char>, desired: Seq<char>) -> Seq<
    char,
> {
    "incorrect link "@ + target + " -> "@ + current + " (want "@ + desired
        + "); enable relink to replace"@
}

/// What dispatching `d` does: `defaults:` is merged into the running
/// defaults and needs nothing more; `shell:` needs nothing more when shell is
/// skipped; every other kind is run entry by entry. Nothing else changes.
pub open spec fn dispatched<S: OutputSink>(before: Engine<S>, d: Directive, r: Dispatch, after: Engine<S>) -> bool {
    match d.kind {
        DirectiveKind::Defaults(x) => {
            &&& r == Dispatch::Done
            &&& after.defaults@ == defaults_after(before.defaults@, x@)
            &&& unchanged(after, Engine { defaults: after.defaults, ..before })
        },
        DirectiveKind::Link(_) => r == Dispatch::Link && unchanged(after, before),
        DirectiveKind::Shell(_) => {
            &&& r == (if before.skip_shell {
                Dispatch::Done
            } else {
                Dispatch::Shell
            })
            &&& unchanged(after, before)
        },
        DirectiveKind::Clean(_) => r == Dispatch::Clean && unchanged(after, before),
        DirectiveKind::Create(_) => r == Dispatch::Create && unchanged(after, before),
    }
}

impl<S: OutputSink> Engine<S> {
    /// Handle a directive's own effect and say what the caller does next:
    /// `defaults:` is merged into the running defaults; `shell:` is skipped
    /// entirely when the engine skips shell; every other kind is run entry by
    /// entry.
    pub fn dispatch(&mut self, d: &Directive) -> (r: Dispatch)
        ensures
            dispatched(*old(self), *d, r, *final(self)),
    {
        match &d.kind {
            DirectiveKind::Defaults(x) => {
                self.defaults.merge(x);
                Dispatch::Done
            },
            DirectiveKind::Link(_) => Dispatch::Link,
            DirectiveKind::Shell(_) => if self.skip_shell {
                Dispatch::Done
            } else {
                Dispatch::Shell
            },
            DirectiveKind::Clean(_) => Dispatch::Clean,
            DirectiveKind::Create(_) => Dispatch::Create,
        }
    }

    /// Decide whether the next directive runs, given whether a cancellation
    /// was seen before it: a cancelled run ends with `Cancelled` and leaves
    /// the engine as it was; otherwise the directive is dispatched.
    pub fn next_directive(&mut self, cancelled: bool, d: &Directive) -> (r: Result<
        Dispatch,
        ApplyError,
    >)
        ensures
            cancelled ==> r == Err::<Dispatch, ApplyError>(ApplyError::Cancelled) && unchanged(
                *final(self),
                *old(self),
            ),
            !cancelled ==> (r matches Ok(x) && dispatched(*old(self), *d, x, *final(self))),
    {
        if cancelled {
            return Err(ApplyError::Cancelled);
        }
        Ok(self.dispatch(d))
    }

    /// Plan one link entry whose target expands to the absolute `link_path`.
    /// The entry's options are overlaid on the running defaults.
    pub fn link_plan(&self, entry: &LinkEntry, link_path: &str) -> (r: LinkPlan)
        ensures
            ({
                let opts = merged_link(self.defaults.link@, entry.options@);
                let source = entry_source(opts, entry.target@);
                let source_abs = based(self.base_dir@, source);
                &&& r.link_path@ == link_path@
                &&& r.source@ == source
                &&& r.source_abs@ == source_abs
                &&& r.glob_refused == (or_else(opts.glob, false) && has_glob(source))
                &&& r.check_source == !or_else(opts.ignore_missing, false)
                &&& (or_else(opts.create, false) && !self.dry_run) ==> match parent_text(link_path@) {
                    Some(p) => r.make_parent matches Some(q) && q@ == p,
                    None => r.make_parent is None,
                }
                &&& !(or_else(opts.create, false) && !self.dry_run) ==> r.make_parent is None
                &&& match link_text(opts, link_path@, source_abs) {
                    Ok(t) => r.desired matches Ok(d) && d@ == t,
                    Err(m) => r.desired matches Err(e) && e@ == m,
                }
                &&& r.replace == (or_else(opts.relink, false) || or_else(opts.force, false))
                &&& or_else(opts.relative, false) && is_absolute(source_abs) && symlink_type(opts)
                    ==> match parent_text(link_path@) {
                    Some(dir) => is_absolute(dir) && !named_segments(dir).contains(dot_dot()) ==> (
                    r.desired matches Ok(t) && relative_path(source_abs, dir) == Some(t@)
                        && leads_back(dir, t@, source_abs)),
                    None => (r.desired matches Ok(t) && relative_path(source_abs, "/"@) == Some(t@)
                        && leads_back("/"@, t@, source_abs)),
                }
            }),
    {
        let opts = merge_link_opts(&self.defaults.link, &entry.options);
        let source = match &opts.path {
            Some(p) => p.clone(),
            None => default_source(entry.target.as_str()),
        };
        let source_abs = resolve_base(self.base_dir.as_str(), source.as_str());
        let glob_refused = bool_or(opts.glob, false) && has_glob_chars(source.as_str());
        let check_source = !bool_or(opts.ignore_missing, false);
        let make_parent = if bool_or(opts.create, false) && !self.dry_run {
            path_parent(link_path)
        } else {
            None
        };
        let text: Result<String, String> = if bool_or(opts.relative, false) {
            let dir = match path_parent(link_path) {
                Some(p) => p,
                None => string_of(&['/']),
            };
            assert(dir@ == match parent_text(link_path@) {
                Some(p) => p,
                None => "/"@,
            }) by {
                reveal_strlit("/");
            }
            proof {
                if parent_text(link_path@) is None {
                    reveal_strlit("/");
                    assert(dir@ =~= seq!['/']);
                    lemma_root_names_no_parent();
                }
            }
            match rel(dir.as_str(), source_abs.as_str()) {
                Some(t) => Ok(t),
                None => {
                    let v = chars_of("relative: no path");
                    Err(string_of(v.as_slice()))
                },
            }
        } else {
            let v = chars_of(source_abs.as_str());
            Ok(string_of(v.as_slice()))
        };
        let desired = match text {
            Err(e) => Err(e),
            Ok(t) => {
                let lt: String = match &opts.link_type {
                    Some(x) => x.clone(),
                    None => {
                        let v = chars_of("symlink");
                        string_of(v.as_slice())
                    },
                };
                if !str_eq(lt.as_str(), "symlink") {
                    let mut m = chars_of("link type ");
                    push_str(&mut m, debug_quoted(lt.as_str()).as_str());
                    push_str(&mut m, " not supported");
                    Err(string_of(m.as_slice()))
                } else {
                    Ok(t)
                }
            },
        };
        let v = chars_of(link_path);
        LinkPlan {
            link_path: string_of(v.as_slice()),
            source,
            source_abs,
            glob_refused,
            check_source,
            make_parent,
            desired,
            replace: bool_or(opts.relink, false) || bool_or(opts.force, false),
        }
    }
}

/// What deciding a link entry does, from the engine `before` and the tally
/// `t0` to the move `r`, the engine `after` and the tally `t1` (see
/// [`Engine::link_decide`]).
pub open spec fn link_decided<S: OutputSink>(
    before: Engine<S>,
    entry: LinkEntry,
    plan: LinkPlan,
    existing: Existing,
    t0: Tally,
    r: LinkMove,
    after: Engine<S>,
    t1: Tally,
) -> bool {
    let desired = plan.desired->Ok_0@;
    let dry = before.dry_run;
    match existing {
        Existing::Absent => {
            &&& r == LinkMove::Create { write: !dry }
            &&& unchanged(after, before)
            &&& t1 == t0
        },
        Existing::Symlink(cur) => if cur@ == desired {
            &&& r == LinkMove::Done(Ok(()))
            &&& recorded(after.actions@) == recorded(before.actions@).push(
                action_of(ActionKind::LinkExists, plan.link_path@, desired, dry),
            )
            &&& told(before, SinkEvent::LinkOk(entry.target@, desired), after)
            &&& t1 == Tally { links_ok: bumped(t0.links_ok), ..t0 }
        } else if plan.replace {
            &&& r == LinkMove::Relink { write: !dry }
            &&& unchanged(after, before)
            &&& t1 == t0
        } else {
            &&& r matches LinkMove::Done(Err(m)) && m@ == incorrect_link_text(
                entry.target@,
                cur@,
                desired,
            )
            &&& recorded(after.actions@) == recorded(before.actions@).push(
                action_of(ActionKind::LinkSkip, plan.link_path@, desired, dry),
            )
            &&& same_but_actions(after, before)
            &&& t1 == t0
        },
        Existing::NotSymlink => {
            &&& r == LinkMove::Backup
            &&& unchanged(after, before)
            &&& t1 == t0
        },
    }
}

/// What backing up one path takes: the backup root to create first (on the
/// first backup of a real run), then where the path goes and whether to move
/// it there (not in a dry run).
#[derive(Debug)]
pub struct BackupSteps {
    /// The session root to create first, if this backup initialized it.
    pub make_root: Option<String>,
    /// Where the path goes.
    pub dst: String,
    /// Whether to move it (create `dst`'s parent, then rename).
    pub move_it: bool,
}

/// The tag a backup uses: the set tag, or `backup` when none was set.
pub open spec fn effective_tag(tag: Seq<char>) -> Seq<char> {
    if tag.len() == 0 {
        "backup"@
    } else {
        tag
    }
}

impl<S: OutputSink> Engine<S> {
    /// Decide what to do with a link entry once its path has been inspected.
    /// A symlink that already holds the desired text is left alone and
    /// counted as correct; one pointing elsewhere is replaced only when the
    /// plan allows it, else the entry fails with a skip recorded; anything
    /// else is created, or backed up first.
    pub fn link_decide(
        &mut self,
        entry: &LinkEntry,
        plan: &LinkPlan,
        existing: Existing,
        tally: &mut Tally,
    ) -> (r: LinkMove)
        requires
            plan.desired is Ok,
        ensures
            link_decided(*old(self), *entry, *plan, existing, *old(tally), r, *final(self), *final(tally)),
    {
        let desired: &String = match &plan.desired {
            Ok(d) => d,
            Err(_) => {
                assert(false);
                return LinkMove::Done(Ok(()));
            },
        };
        match existing {
            Existing::Absent => LinkMove::Create { write: !self.dry_run },
            Existing::Symlink(cur) => {
                if str_eq(cur.as_str(), desired.as_str()) {
                    self.sink.link_ok(entry.target.as_str(), desired.as_str());
                    self.record(ActionKind::LinkExists, plan.link_path.clone(), desired.clone());
                    tally.links_ok = bump(tally.links_ok);
                    LinkMove::Done(Ok(()))
                } else if plan.replace {
                    LinkMove::Relink { write: !self.dry_run }
                } else {
                    self.record(ActionKind::LinkSkip, plan.link_path.clone(), desired.clone());
                    let mut m = chars_of("incorrect link ");
                    push_str(&mut m, entry.target.as_str());
                    push_str(&mut m, " -> ");
                    push_str(&mut m, cur.as_str());
                    push_str(&mut m, " (want ");
                    push_str(&mut m, desired.as_str());
                    push_str(&mut m, "); enable relink to replace");
                    assert(m@ =~= incorrect_link_text(entry.target@, cur@, desired@));
                    LinkMove::Done(Err(string_of(m.as_slice())))
                }
            },
            Existing::NotSymlink => LinkMove::Backup,
        }
    }

    /// Report a created symlink: the sink hears of it, a `LinkCreate` action
    /// is recorded, and it is counted.
    pub fn link_created(&mut self, plan: &LinkPlan, tally: &mut Tally)
        requires
            plan.desired is Ok,
        ensures
            recorded(final(self).actions@) == recorded(old(self).actions@).push(
                action_of(ActionKind::LinkCreate, plan.link_path@, plan.desired->Ok_0@, old(self).dry_run),
            ),
            told(*old(self), SinkEvent::Linked(plan.link_path@, plan.desired->Ok_0@), *final(self)),
            *final(tally) == (Tally { links_created: bumped(old(tally).links_created), ..*old(tally) }),
    {
        let desired: &String = match &plan.desired {
            Ok(d) => d,
            Err(_) => {
                assert(false);
                return;
            },
        };
        self.sink.linked(plan.link_path.as_str(), desired.as_str());
        self.record(ActionKind::LinkCreate, plan.link_path.clone(), desired.clone());
        tally.links_created = bump(tally.links_created);
    }

    /// Report a replaced symlink: the sink hears of it, a `LinkRelink` action
    /// is recorded, and it is counted.
    pub fn link_relinked(&mut self, plan: &LinkPlan, tally: &mut Tally)
        requires
            plan.desired is Ok,
        ensures
            recorded(final(self).actions@) == recorded(old(self).actions@).push(
                action_of(ActionKind::LinkRelink, plan.link_path@, plan.desired->Ok_0@, old(self).dry_run),
            ),
            told(*old(self), SinkEvent::Relinked(plan.link_path@, plan.desired->Ok_0@), *final(self)),
            *final(tally) == (Tally { links_relinked: bumped(old(tally).links_relinked), ..*old(tally) }),
    {
        let desired: &String = match &plan.desired {
            Ok(d) => d,
            Err(_) => {
                assert(false);
                return;
            },
        };
        self.sink.relinked(plan.link_path.as_str(), desired.as_str());
        self.record(ActionKind::LinkRelink, plan.link_path.clone(), desired.clone());
        tally.links_relinked = bump(tally.links_relinked);
    }

    /// Plan backing up `path`. The tag defaults to `backup`; the first backup
    /// of the run sets the root under the home directory (the engine's, else
    /// `env_home`) and, in a real run, asks for it to be created. With no home
    /// directory known the backup fails with `home dir`.
    pub fn backup_plan(&mut self, path: &str, env_home: Option<String>) -> (r: Result<
        BackupSteps,
        String,
    >)
        ensures
            final(self).backup_tag@ == effective_tag(old(self).backup_tag@),
            final(self).actions == old(self).actions,
            final(self).base_dir == old(self).base_dir,
            final(self).dry_run == old(self).dry_run,
            final(self).skip_shell == old(self).skip_shell,
            final(self).defaults == old(self).defaults,
            final(self).backup_home == old(self).backup_home,
            final(self).sink == old(self).sink,
            ({
                let tag = effective_tag(old(self).backup_tag@);
                let home = match old(self).backup_home {
                    Some(h) => Some(h@),
                    None => match env_home {
                        Some(h) => Some(h@),
                        None => None,
                    },
                };
                let dry = old(self).dry_run;
                if old(self).backup@.len() > 0 {
                    &&& final(self).backup@ == old(self).backup@
                    &&& r matches Ok(st) && st.make_root is None && st.dst@ == backup_destination(
                        old(self).backup@,
                        path@,
                    ) && st.move_it == !dry
                } else {
                    match home {
                        None => r matches Err(m) && m@ == "home dir"@ && final(self).backup
                            == old(self).backup,
                        Some(h) => {
                            let root = backup_root(h, tag);
                            &&& final(self).backup@ == root
                            &&& r matches Ok(st) && st.dst@ == backup_destination(root, path@)
                                && st.move_it == !dry && (if dry {
                                st.make_root is None
                            } else {
                                st.make_root matches Some(m) && m@ == root
                            })
                        },
                    }
                }
            }),
    {
        if self.backup_tag.as_str().is_empty() {
            let v = chars_of("backup");
            self.backup_tag = string_of(v.as_slice());
        }
        let mut make_root: Option<String> = None;
        if !self.backup.is_initialized() {
            let home: String = match &self.backup_home {
                Some(h) => h.clone(),
                None => match env_home {
                    Some(h) => h,
                    None => {
                        let v = chars_of("home dir");
                        return Err(string_of(v.as_slice()));
                    },
                },
            };
            let root = self.backup.init_root(home.as_str(), self.backup_tag.as_str());
            if !self.dry_run {
                make_root = Some(root);
            }
        }
        let dst = self.backup.destination(path);
        Ok(BackupSteps { make_root, dst, move_it: !self.dry_run })
    }

    /// Report a path backed up `from -> to`: the sink hears of it, a
    /// `LinkBackup` action is recorded, it is counted, and the link is created
    /// next.
    pub fn link_backed_up(&mut self, from: &str, to: &str, tally: &mut Tally) -> (r: LinkMove)
        ensures
            r == (LinkMove::Create { write: !old(self).dry_run }),
            recorded(final(self).actions@) == recorded(old(self).actions@).push(
                action_of(ActionKind::LinkBackup, from@, to@, old(self).dry_run),
            ),
            told(*old(self), SinkEvent::BackedUp(from@, to@), *final(self)),
            *final(tally) == (Tally { links_backed_up: bumped(old(tally).links_backed_up), ..*old(tally) }),
    {
        self.sink.backed_up(from, to);
        let f = chars_of(from);
        let t = chars_of(to);
        self.record(ActionKind::LinkBackup, string_of(f.as_slice()), string_of(t.as_slice()));
        tally.links_backed_up = bump(tally.links_backed_up);
        LinkMove::Create { write: !self.dry_run }
    }
}

// ── shell ──────────────────────────────────────────────────────────────────

/// How to run one shell command: `/bin/sh -c command` in the base directory,
/// inheriting only the selected streams (the others are dropped).
#[derive(Debug)]
pub struct ShellRun {
    /// The script handed to the shell.
    pub command: String,
    /// Inherit stdin.
    pub stdin: bool,
    /// Inherit stdout.
    pub stdout: bool,
    /// Inherit stderr.
    pub stderr: bool,
}

// ── clean ──────────────────────────────────────────────────────────────────

/// How deep a forced, recursive clean descends below the scanned directory.
pub const MAX_FORCE_DEPTH: usize = 5;

/// How one clean entry is scanned.
#[derive(Debug)]
pub struct CleanPlan {
    /// The directory to scan.
    pub dir: String,
    /// Whether dead links pointing outside the base directory go too: the
    /// entry asks for it and the directory lies under the home directory.
    pub force: bool,
    /// Whether subdirectories are scanned.
    pub recursive: bool,
}

/// What the caller found at one directory entry during a clean scan.
#[derive(Debug)]
pub struct EntryFacts {
    /// It is a directory (not followed through a symlink).
    pub is_dir: bool,
    /// It is a symlink.
    pub is_symlink: bool,
    /// Following it reaches something.
    pub resolves: bool,
    /// Where it points, when it is a symlink that could be read.
    pub points: Option<String>,
}

/// What the caller does with one directory entry during a clean scan.
#[derive(Debug, PartialEq, Eq)]
pub enum CleanMove {
    /// Scan it as a subdirectory, one level deeper.
    Descend,
    /// Leave it alone.
    Skip,
    /// Remove the dead link (only when `write`), then report it with
    /// [`Engine::clean_removed`].
    Remove {
        /// Where it pointed, made absolute against its directory.
        points_abs: String,
        /// Whether to remove it (not in a dry run).
        write: bool,
    },
}

/// The prefixes that count as "inside" a directory: its cleaned path, and
/// its cleaned resolved path when that differs.
pub open spec fn candidate_texts(literal: Seq<char>, resolved: Option<Seq<char>>) -> Seq<Seq<char>> {
    match resolved {
        Some(r) => if cleaned(r) != cleaned(literal) {
            seq![cleaned(literal), cleaned(r)]
        } else {
            seq![cleaned(literal)]
        },
        None => seq![cleaned(literal)],
    }
}

/// The prefixes that count as "inside" a directory given as `literal` and,
/// when the filesystem could resolve it, `resolved`.
pub fn candidates(literal: &str, resolved: Option<String>) -> (r: Vec<String>)
    ensures
        string_views(r@) == candidate_texts(literal@, match resolved {
            Some(x) => Some(x@),
            None => None,
        }),
{
    let mut out: Vec<String> = Vec::new();
    let first = clean(literal);
    out.push(first);
    if let Some(x) = resolved {
        let second = clean(x.as_str());
        if !str_eq(second.as_str(), out[0].as_str()) {
            out.push(second);
        }
    }
    assert(string_views(out@) =~= candidate_texts(literal@, match resolved {
        Some(x) => Some(x@),
        None => None,
    }));
    out
}

/// What the caller does with one entry of a directory at `depth` (the
/// scanned directory is depth 0): a subdirectory is descended into when the
/// scan is recursive (a forced scan no deeper than [`MAX_FORCE_DEPTH`]);
/// only dead symlinks are removed, and, unless forced, only those pointing
/// inside the base directory.
pub open spec fn clean_choice(
    force: bool,
    recursive: bool,
    depth: nat,
    dir: Seq<char>,
    is_dir: bool,
    is_symlink: bool,
    resolves: bool,
    points: Option<Seq<char>>,
    base: Seq<Seq<char>>,
) -> Option<Option<Seq<char>>> {
    if recursive && is_dir && (!force || depth < MAX_FORCE_DEPTH) {
        None
    } else if !is_symlink || resolves {
        Some(None)
    } else {
        match points {
            None => Some(None),
            Some(p) => {
                let pa = joined_path(dir, p);
                if !force && !inside_any(pa, base) {
                    Some(None)
                } else {
                    Some(Some(pa))
                }
            },
        }
    }
}

// ── create ─────────────────────────────────────────────────────────────────

/// What the caller found at a path to create.
#[derive(Debug, Clone, Copy, PartialEq, Eq, Structural)]
pub enum PathState {
    /// Something exists there.
    Present,
    /// Nothing exists there.
    Absent,
    /// It could not be examined.
    Unreadable,
}

/// What the caller does with one path to create.
#[derive(Debug, Clone, Copy, PartialEq, Eq, Structural)]
pub enum CreateMove {
    /// Nothing more.
    Done,
    /// Create the directory with `mode` (only when `write`), then report it
    /// with [`Engine::create_made`].
    Make {
        /// The permission bits to set.
        mode: u32,
        /// Whether to create it (not in a dry run).
        write: bool,
    },
}

impl<S: OutputSink> Engine<S> {
    /// Announce and record one shell command, and say how to run it: not at
    /// all in a dry run; otherwise it is counted as run.
    pub fn shell_step(&mut self, item: &ShellEntry, tally: &mut Tally) -> (r: Option<ShellRun>)
        ensures
            recorded(final(self).actions@) == recorded(old(self).actions@).push(
                action_of(ActionKind::ShellRun, item.command@, item.description@, old(self).dry_run),
            ),
            ({
                let opts = merged_shell(old(self).defaults.shell, item.options);
                let quiet = or_else(opts.quiet, false);
                let event = SinkEvent::ShellCmd(item.description@, item.command@, quiet);
                &&& told(*old(self), event, *final(self))
                &&& if old(self).dry_run {
                    r is None && *final(tally) == *old(tally)
                } else {
                    &&& r matches Some(run) && run.command@ == item.command@ && run.stdin == or_else(
                        opts.stdin,
                        false,
                    ) && run.stdout == (!quiet && or_else(opts.stdout, false)) && run.stderr == (
                    !quiet && or_else(opts.stderr, false))
                    &&& *final(tally) == (Tally { shell_run: bumped(old(tally).shell_run), ..*old(tally) })
                }
            }),
    {
        let opts = merge_shell_opts(&self.defaults.shell, &item.options);
        let quiet = bool_or(opts.quiet, false);
        self.sink.shell_cmd(item.description.as_str(), item.command.as_str(), quiet);
        self.record(ActionKind::ShellRun, item.command.clone(), item.description.clone());
        if self.dry_run {
            return None;
        }
        tally.shell_run = bump(tally.shell_run);
        Some(
            ShellRun {
                command: item.command.clone(),
                stdin: bool_or(opts.stdin, false),
                stdout: !quiet && bool_or(opts.stdout, false),
                stderr: !quiet && bool_or(opts.stderr, false),
            },
        )
    }

    /// Count a shell command's outcome: a failure (non-zero exit, or no
    /// exit status at all) is counted; a command failing never aborts.
    pub fn shell_finished(&self, succeeded: bool, tally: &mut Tally)
        ensures
            succeeded ==> *final(tally) == *old(tally),
            !succeeded ==> *final(tally) == (Tally { shell_failed: bumped(old(tally).shell_failed), ..*old(tally) }),
    {
        if !succeeded {
            tally.shell_failed = bump(tally.shell_failed);
        }
    }

    /// The home directory the run works under: the engine's, else `env_home`.
    pub fn home_dir(&self, env_home: Option<String>) -> (r: Option<String>)
        ensures
            match self.backup_home {
                Some(h) => r matches Some(x) && x@ == h@,
                None => r == env_home,
            },
    {
        match &self.backup_home {
            Some(h) => Some(h.clone()),
            None => env_home,
        }
    }

    /// Plan one clean entry whose target expands to `dir` (resolved by the
    /// filesystem to `dir_resolved`, when it could be). Force is honored only
    /// when the directory, as given or resolved, lies inside one of
    /// `home_candidates`.
    pub fn clean_plan(
        &self,
        entry: &CleanEntry,
        dir: &str,
        dir_resolved: &Option<String>,
        home_candidates: &[String],
    ) -> (r: CleanPlan)
        ensures
            ({
                let opts = merged_clean(self.defaults.clean, entry.options);
                let homes = string_views(home_candidates@);
                &&& r.dir@ == dir@
                &&& r.recursive == or_else(opts.recursive, false)
                &&& r.force == (or_else(opts.force, false) && (inside_any(dir@, homes) || (
                dir_resolved matches Some(x) && inside_any(x@, homes))))
            }),
    {
        let opts = merge_clean_opts(&self.defaults.clean, &entry.options);
        let wants_force = bool_or(opts.force, false);
        let under_home = is_inside_any(dir, home_candidates) || match dir_resolved {
            Some(x) => is_inside_any(x.as_str(), home_candidates),
            None => false,
        };
        let v = chars_of(dir);
        CleanPlan {
            dir: string_of(v.as_slice()),
            force: wants_force && under_home,
            recursive: bool_or(opts.recursive, false),
        }
    }

    /// Decide what happens to one entry of directory `dir` at `depth` during
    /// a clean scan, given what the filesystem reported and the prefixes that
    /// count as the base directory.
    pub fn clean_decide(
        &self,
        plan: &CleanPlan,
        depth: usize,
        dir: &str,
        facts: &EntryFacts,
        base_candidates: &[String],
    ) -> (r: CleanMove)
        ensures
            match clean_choice(
                plan.force,
                plan.recursive,
                depth as nat,
                dir@,
                facts.is_dir,
                facts.is_symlink,
                facts.resolves,
                match facts.points {
                    Some(p) => Some(p@),
                    None => None,
                },
                string_views(base_candidates@),
            ) {
                None => r == CleanMove::Descend,
                Some(None) => r == CleanMove::Skip,
                Some(Some(pa)) => r matches CleanMove::Remove { points_abs, write } && points_abs@
                    == pa && write == !self.dry_run,
            },
    {
        if plan.recursive && facts.is_dir && (!plan.force || depth < MAX_FORCE_DEPTH) {
            return CleanMove::Descend;
        }
        if !facts.is_symlink || facts.resolves {
            return CleanMove::Skip;
        }
        match &facts.points {
            None => CleanMove::Skip,
            Some(p) => {
                let pa = join_path(dir, p.as_str());
                if !plan.force && !is_inside_any(pa.as_str(), base_candidates) {
                    CleanMove::Skip
                } else {
                    CleanMove::Remove { points_abs: pa, write: !self.dry_run }
                }
            },
        }
    }

    /// Report a dead link `path -> points_abs` removed: the sink hears of it,
    /// a `CleanRemove` action is recorded, and it is counted.
    pub fn clean_removed(&mut self, path: &str, points_abs: &str, tally: &mut Tally)
        ensures
            recorded(final(self).actions@) == recorded(old(self).actions@).push(
                action_of(ActionKind::CleanRemove, path@, points_abs@, old(self).dry_run),
            ),
            told(*old(self), SinkEvent::RemovedDeadLink(path@, points_abs@), *final(self)),
            *final(tally) == (Tally { cleaned: bumped(old(tally).cleaned), ..*old(tally) }),
    {
        self.sink.removed_dead_link(path, points_abs);
        let f = chars_of(path);
        let t = chars_of(points_abs);
        self.record(ActionKind::CleanRemove, string_of(f.as_slice()), string_of(t.as_slice()));
        tally.cleaned = bump(tally.cleaned);
    }

    /// Decide what happens to a path to create (`path` is the entry's path
    /// expanded): an existing path is left alone (no mode update) and
    /// recorded; one that could not be examined is skipped; a missing one is
    /// made with the entry's mode, `0o777` by default (umask still applies).
    pub fn create_decide(&mut self, entry: &CreateEntry, path: &str, state: PathState) -> (r:
        CreateMove)
        ensures
            match state {
                PathState::Present => {
                    &&& r == CreateMove::Done
                    &&& recorded(final(self).actions@) == recorded(old(self).actions@).push(
                        action_of(ActionKind::CreateExists, path@, Seq::empty(), old(self).dry_run),
                    )
                    &&& told(*old(self), SinkEvent::PathExists(path@), *final(self))
                },
                PathState::Unreadable => r == CreateMove::Done && unchanged(*final(self), *old(self)),
                PathState::Absent => {
                    &&& r == (CreateMove::Make {
                        mode: match entry.mode {
                            Some(m) => m,
                            None => 0o777,
                        },
                        write: !old(self).dry_run,
                    })
                    &&& unchanged(*final(self), *old(self))
                },
            },
    {
        match state {
            PathState::Present => {
                self.sink.path_exists(path);
                let f = chars_of(path);
                self.record(ActionKind::CreateExists, string_of(f.as_slice()), String::new());
                CreateMove::Done
            },
            PathState::Unreadable => CreateMove::Done,
            PathState::Absent => {
                let mode = match entry.mode {
                    Some(m) => m,
                    None => 0o777,
                };
                CreateMove::Make { mode, write: !self.dry_run }
            },
        }
    }

    /// Report a directory made: the sink hears of it, a `CreateDir` action is
    /// recorded, and it is counted.
    pub fn create_made(&mut self, path: &str, tally: &mut Tally)
        ensures
            recorded(final(self).actions@) == recorded(old(self).actions@).push(
                action_of(ActionKind::CreateDir, path@, Seq::empty(), old(self).dry_run),
            ),
            told(*old(self), SinkEvent::Created(path@), *final(self)),
            *final(tally) == (Tally { created: bumped(old(tally).created), ..*old(tally) }),
    {
        self.sink.created(path);
        let f = chars_of(path);
        self.record(ActionKind::CreateDir, string_of(f.as_slice()), String::new());
        tally.created = bump(tally.created);
    }
}

// ── laws ───────────────────────────────────────────────────────────────────

/// The payloads of the `defaults:` directives among `ds`, in order.
pub open spec fn defaults_payloads(ds: Seq<Directive>) -> Seq<DefaultsView>
    decreases ds.len(),
{
    if ds.len() == 0 {
        Seq::empty()
    } else {
        let p = defaults_payloads(ds.drop_last());
        match ds.last().kind {
            DirectiveKind::Defaults(x) => p.push(x@),
            _ => p,
        }
    }
}

/// Each directive of a run sees the defaults of the `defaults:` directives
/// before it, merged in order, later keys winning: `before[i]` is the engine
/// as directive `ds[i]` is dispatched, `after[i]` the engine that dispatch
/// leaves, and the entry work between one directive and the next keeps the
/// defaults.
pub proof fn directives_see_earlier_defaults<S: OutputSink>(
    ds: Seq<Directive>,
    rs: Seq<Dispatch>,
    before: Seq<Engine<S>>,
    after: Seq<Engine<S>>,
)
    requires
        rs.len() == ds.len(),
        before.len() == ds.len(),
        after.len() == ds.len(),
        forall|i: int| 0 <= i < ds.len() ==> dispatched(before[i], ds[i], rs[i], #[trigger] after[i]),
        forall|i: int| 0 < i < ds.len() ==> (#[trigger] before[i]).defaults == after[i - 1].defaults,
    ensures
        forall|i: int|
            0 <= i < ds.len() ==> (#[trigger] before[i]).defaults@ == defaults_over(
                before[0].defaults@,
                defaults_payloads(ds.take(i)),
            ),
    decreases ds.len(),
{
    if ds.len() > 0 {
        let n = ds.len() - 1;
        directives_see_earlier_defaults(
            ds.drop_last(),
            rs.drop_last(),
            before.drop_last(),
            after.drop_last(),
        );
        assert forall|i: int| 0 <= i < ds.len() implies (#[trigger] before[i]).defaults@
            == defaults_over(before[0].defaults@, defaults_payloads(ds.take(i))) by {
            if i < n {
                assert(before.drop_last()[i] == before[i]);
                assert(ds.drop_last().take(i) =~= ds.take(i));
            } else if i > 0 {
                let j = i - 1;
                assert(before.drop_last()[j] == before[j]);
                assert(ds.drop_last().take(j) =~= ds.take(j));
                assert(dispatched(before[j], ds[j], rs[j], after[j]));
                assert(ds.take(i).drop_last() =~= ds.take(j));
                assert(ds.take(i).last() == ds[j]);
                match ds[j].kind {
                    DirectiveKind::Defaults(x) => {
                        assert(defaults_payloads(ds.take(i)) == defaults_payloads(ds.take(j)).push(x@));
                        let p = defaults_payloads(ds.take(j)).push(x@);
                        assert(p.drop_last() =~= defaults_payloads(ds.take(j)));
                    },
                    _ => {
                        assert(defaults_payloads(ds.take(i)) == defaults_payloads(ds.take(j)));
                    },
                }
            } else {
                assert(ds.take(0) =~= Seq::<Directive>::empty());
            }
        }
    }
}

/// `dry` is the move a dry run makes where a live run makes `live`: the same
/// move, with nothing written.
pub open spec fn dry_move_of(live: LinkMove, dry: LinkMove) -> bool {
    match live {
        LinkMove::Done(Ok(())) => dry == LinkMove::Done(Ok(())),
        LinkMove::Done(Err(m)) => dry matches LinkMove::Done(Err(n)) && n@ == m@,
        LinkMove::Create { .. } => dry == LinkMove::Create { write: false },
        LinkMove::Relink { .. } => dry == LinkMove::Relink { write: false },
        LinkMove::Backup => dry == LinkMove::Backup,
    }
}

/// An action as a dry run records it.
pub open spec fn marked_dry(a: ActionView) -> ActionView {
    ActionView { dry_run: true, ..a }
}

/// `dry` mirrors `live` as a dry run: the same settings but for the dry-run
/// flag, and the same actions, each marked as planned only.
pub open spec fn mirrors_dry<S: OutputSink>(live: Engine<S>, dry: Engine<S>) -> bool {
    &&& !live.dry_run && dry.dry_run
    &&& same_settings(Engine { dry_run: true, ..live }, dry)
    &&& recorded(dry.actions@) == recorded(live.actions@).map_values(|a: ActionView| marked_dry(a))
}

/// A dry run decides a link entry as a live run does: the same move with
/// nothing written, the same tally, and the same action recorded, marked as
/// planned only; so the dry engine still mirrors the live one.
pub proof fn dry_run_decides_links_alike<S: OutputSink>(
    live: Engine<S>,
    dry: Engine<S>,
    entry: LinkEntry,
    plan: LinkPlan,
    existing: Existing,
    t0: Tally,
    live_move: LinkMove,
    live_after: Engine<S>,
    live_tally: Tally,
    dry_move: LinkMove,
    dry_after: Engine<S>,
    dry_tally: Tally,
)
    requires
        plan.desired is Ok,
        mirrors_dry(live, dry),
        link_decided(live, entry, plan, existing, t0, live_move, live_after, live_tally),
        link_decided(dry, entry, plan, existing, t0, dry_move, dry_after, dry_tally),
    ensures
        dry_tally == live_tally,
        dry_move_of(live_move, dry_move),
        mirrors_dry(live_after, dry_after),
{
    let f = |a: ActionView| marked_dry(a);
    let lb = recorded(live.actions@);
    let la = recorded(live_after.actions@);
    let db = recorded(dry.actions@);
    let da = recorded(dry_after.actions@);
    if la == lb.push(la.last()) && la.len() > 0 {
        assert(da =~= la.map_values(f)) by {
            assert(la.map_values(f) =~= lb.map_values(f).push(f(la.last())));
        }
    }
}

/// A whole run of link decisions goes alike in a dry run and a live one:
/// started from engines where the dry one mirrors the live one, with the same
/// tally, and deciding the same entries on the same findings, the dry run
/// makes each live move with nothing written, ends with the same tally, and
/// records the same actions, each marked as planned only.
pub proof fn dry_run_decides_link_runs_alike<S: OutputSink>(
    entries: Seq<LinkEntry>,
    plans: Seq<LinkPlan>,
    found: Seq<Existing>,
    live: Seq<Engine<S>>,
    dry: Seq<Engine<S>>,
    live_tallies: Seq<Tally>,
    dry_tallies: Seq<Tally>,
    live_moves: Seq<LinkMove>,
    dry_moves: Seq<LinkMove>,
)
    requires
        plans.len() == entries.len(),
        found.len() == entries.len(),
        live_moves.len() == entries.len(),
        dry_moves.len() == entries.len(),
        live.len() == entries.len() + 1,
        dry.len() == entries.len() + 1,
        live_tallies.len() == entries.len() + 1,
        dry_tallies.len() == entries.len() + 1,
        mirrors_dry(live[0], dry[0]),
        live_tallies[0] == dry_tallies[0],
        forall|i: int| 0 <= i < entries.len() ==> (#[trigger] plans[i]).desired is Ok,
        forall|i: int|
            0 <= i < entries.len() ==> link_decided(
                live[i],
                entries[i],
                plans[i],
                found[i],
                live_tallies[i],
                #[trigger] live_moves[i],
                live[i + 1],
                live_tallies[i + 1],
            ),
        forall|i: int|
            0 <= i < entries.len() ==> link_decided(
                dry[i],
                entries[i],
                plans[i],
                found[i],
                dry_tallies[i],
                #[trigger] dry_moves[i],
                dry[i + 1],
                dry_tallies[i + 1],
            ),
    ensures
        mirrors_dry(live[entries.len() as int], dry[entries.len() as int]),
        live_tallies[entries.len() as int] == dry_tallies[entries.len() as int],
        forall|i: int| 0 <= i < entries.len() ==> dry_move_of(live_moves[i], #[trigger] dry_moves[i]),
    decreases entries.len(),
{
    let n = entries.len();
    if n > 0 {
        let m = n - 1;
        dry_run_decides_link_runs_alike(
            entries.drop_last(),
            plans.drop_last(),
            found.drop_last(),
            live.drop_last(),
            dry.drop_last(),
            live_tallies.drop_last(),
            dry_tallies.drop_last(),
            live_moves.drop_last(),
            dry_moves.drop_last(),
        );
        assert(plans[m as int].desired is Ok);
        dry_run_decides_links_alike(
            live[m as int],
            dry[m as int],
            entries[m as int],
            plans[m as int],
            found[m as int],
            live_tallies[m as int],
            live_moves[m as int],
            live[n as int],
            live_tallies[n as int],
            dry_moves[m as int],
            dry[n as int],
            dry_tallies[n as int],
        );
        assert forall|i: int| 0 <= i < n implies dry_move_of(live_moves[i], #[trigger] dry_moves[i]) by {
            if i < m {
                assert(live_moves.drop_last()[i] == live_moves[i]);
                assert(dry_moves.drop_last()[i] == dry_moves[i]);
            }
        }
    }
}

/// Applying again is idempotent for a link: where the link path already holds
/// the text a run would write, the entry is counted as correct, recorded as
/// existing, and nothing is written.
pub proof fn links_in_place_are_left_alone<S: OutputSink>(
    before: Engine<S>,
    entry: LinkEntry,
    plan: LinkPlan,
    current: String,
    t0: Tally,
    r: LinkMove,
    after: Engine<S>,
    t1: Tally,
)
    requires
        plan.desired matches Ok(d) && current@ == d@,
        link_decided(before, entry, plan, Existing::Symlink(current), t0, r, after, t1),
    ensures
        r == LinkMove::Done(Ok(())),
        t1 == (Tally { links_ok: bumped(t0.links_ok), ..t0 }),
        recorded(after.actions@) == recorded(before.actions@).push(
            action_of(ActionKind::LinkExists, plan.link_path@, current@, before.dry_run),
        ),
{
}

/// A clean scan removes only dead symlinks: nothing that still resolves,
/// nothing that is not a symlink, nothing whose destination is unknown, and,
/// unless forced, nothing pointing outside the base directory. A forced
/// scan descends no deeper than [`MAX_FORCE_DEPTH`].
pub proof fn clean_removes_only_dead_links_into_base(
    force: bool,
    recursive: bool,
    depth: nat,
    dir: Seq<char>,
    is_dir: bool,
    is_symlink: bool,
    resolves: bool,
    points: Option<Seq<char>>,
    base: Seq<Seq<char>>,
)
    ensures
        ({
            let c = clean_choice(force, recursive, depth, dir, is_dir, is_symlink, resolves, points, base);
            &&& c matches Some(Some(pa)) ==> is_symlink && !resolves && points is Some && pa
                == joined_path(dir, points->Some_0) && (force || inside_any(pa, base))
            &&& c is None ==> recursive && is_dir && (force ==> depth < MAX_FORCE_DEPTH)
        }),
{
}

} // verus!
