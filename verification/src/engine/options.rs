//! Option merging, the running defaults, and the per-run tally.

use vstd::prelude::*;

use crate::config::model::{
    opt_text, texts, unset_clean_options, unset_link_options, unset_shell_options,
    CleanOptions, Defaults, DefaultsView, LinkOptions, LinkOptionsView, ShellOptions,
};
use crate::text::{
    chars_of, debug_quoted, debug_quoted_text, decimal, decimal_string, push_str, string_of,
};

verus! {

// ── option merging (overlay set fields onto a base) ────────────────────────

/// `over` when it is set, else `base`.
pub open spec fn overlaid<T>(base: Option<T>, over: Option<T>) -> Option<T> {
    if over is Some {
        over
    } else {
        base
    }
}

/// `base` with every set field of `over` overriding it; `exclude` is replaced
/// wholesale when the overlay's list is non-empty.
pub open spec fn merged_link(base: LinkOptionsView, over: LinkOptionsView) -> LinkOptionsView {
    LinkOptionsView {
        path: overlaid(base.path, over.path),
        create: overlaid(base.create, over.create),
        relink: overlaid(base.relink, over.relink),
        force: overlaid(base.force, over.force),
        relative: overlaid(base.relative, over.relative),
        glob: overlaid(base.glob, over.glob),
        ignore_missing: overlaid(base.ignore_missing, over.ignore_missing),
        backup: overlaid(base.backup, over.backup),
        link_type: overlaid(base.link_type, over.link_type),
        canonicalize: overlaid(base.canonicalize, over.canonicalize),
        prefix: overlaid(base.prefix, over.prefix),
        exclude: if over.exclude.len() > 0 {
            over.exclude
        } else {
            base.exclude
        },
    }
}

/// `base` with every set field of `over` overriding it.
pub open spec fn merged_shell(base: ShellOptions, over: ShellOptions) -> ShellOptions {
    ShellOptions {
        stdin: overlaid(base.stdin, over.stdin),
        stdout: overlaid(base.stdout, over.stdout),
        stderr: overlaid(base.stderr, over.stderr),
        quiet: overlaid(base.quiet, over.quiet),
    }
}

/// `base` with every set field of `over` overriding it.
pub open spec fn merged_clean(base: CleanOptions, over: CleanOptions) -> CleanOptions {
    CleanOptions {
        force: overlaid(base.force, over.force),
        recursive: overlaid(base.recursive, over.recursive),
    }
}

/// A copy of an optional string.
pub fn copy_opt_string(o: &Option<String>) -> (r: Option<String>)
    ensures
        opt_text(r) == opt_text(*o),
{
    match o {
        Some(s) => Some(s.clone()),
        None => None,
    }
}

/// A copy of a list of strings.
pub fn copy_strings(v: &Vec<String>) -> (r: Vec<String>)
    ensures
        texts(r@) == texts(v@),
{
    let mut r: Vec<String> = Vec::new();
    let mut i: usize = 0;
    while i < v.len()
        invariant
            i <= v@.len(),
            r@.len() == i,
            texts(r@) == texts(v@).take(i as int),
        decreases v.len() - i,
    {
        let ghost before = r@;
        let c = v[i].clone();
        assert(c@ == v@[i as int]@);
        r.push(c);
        i = i + 1;
        assert forall|k: int| 0 <= k < i implies #[trigger] texts(r@)[k] == texts(v@).take(
            i as int,
        )[k] by {
            if k < i - 1 {
                assert(r@[k] == before[k]);
                assert(texts(before)[k] == texts(v@).take(i - 1)[k]);
            }
        }
        assert(texts(r@) =~= texts(v@).take(i as int));
    }
    assert(texts(v@).take(v@.len() as int) =~= texts(v@));
    r
}

/// A copy of a set of link options.
pub fn copy_link_opts(o: &LinkOptions) -> (r: LinkOptions)
    ensures
        r@ == o@,
{
    LinkOptions {
        path: copy_opt_string(&o.path),
        create: o.create,
        relink: o.relink,
        force: o.force,
        relative: o.relative,
        glob: o.glob,
        ignore_missing: o.ignore_missing,
        backup: o.backup,
        link_type: copy_opt_string(&o.link_type),
        canonicalize: o.canonicalize,
        prefix: copy_opt_string(&o.prefix),
        exclude: copy_strings(&o.exclude),
    }
}

fn pick<T: Copy>(base: Option<T>, over: Option<T>) -> (r: Option<T>)
    ensures
        r == overlaid(base, over),
{
    if over.is_some() {
        over
    } else {
        base
    }
}

fn pick_string(base: &Option<String>, over: &Option<String>) -> (r: Option<String>)
    ensures
        opt_text(r) == overlaid(opt_text(*base), opt_text(*over)),
{
    if over.is_some() {
        copy_opt_string(over)
    } else {
        copy_opt_string(base)
    }
}

/// Return a copy of `base` with every set field of `overlay` overriding it.
/// The exclude list is replaced wholesale when the overlay's is non-empty.
pub fn merge_link_opts(base: &LinkOptions, overlay: &LinkOptions) -> (r: LinkOptions)
    ensures
        r@ == merged_link(base@, overlay@),
{
    LinkOptions {
        path: pick_string(&base.path, &overlay.path),
        create: pick(base.create, overlay.create),
        relink: pick(base.relink, overlay.relink),
        force: pick(base.force, overlay.force),
        relative: pick(base.relative, overlay.relative),
        glob: pick(base.glob, overlay.glob),
        ignore_missing: pick(base.ignore_missing, overlay.ignore_missing),
        backup: pick(base.backup, overlay.backup),
        link_type: pick_string(&base.link_type, &overlay.link_type),
        canonicalize: pick(base.canonicalize, overlay.canonicalize),
        prefix: pick_string(&base.prefix, &overlay.prefix),
        exclude: if overlay.exclude.len() > 0 {
            copy_strings(&overlay.exclude)
        } else {
            copy_strings(&base.exclude)
        },
    }
}

/// Return a copy of `base` with every set field of `overlay` overriding it.
pub fn merge_shell_opts(base: &ShellOptions, overlay: &ShellOptions) -> (r: ShellOptions)
    ensures
        r == merged_shell(*base, *overlay),
{
    ShellOptions {
        stdin: pick(base.stdin, overlay.stdin),
        stdout: pick(base.stdout, overlay.stdout),
        stderr: pick(base.stderr, overlay.stderr),
        quiet: pick(base.quiet, overlay.quiet),
    }
}

/// Return a copy of `base` with every set field of `overlay` overriding it.
pub fn merge_clean_opts(base: &CleanOptions, overlay: &CleanOptions) -> (r: CleanOptions)
    ensures
        r == merged_clean(*base, *overlay),
{
    CleanOptions {
        force: pick(base.force, overlay.force),
        recursive: pick(base.recursive, overlay.recursive),
    }
}

/// The value of a tri-state option, or `fallback` when it is unset.
pub open spec fn or_else(opt: Option<bool>, fallback: bool) -> bool {
    match opt {
        Some(b) => b,
        None => fallback,
    }
}

/// `opt.unwrap_or(fallback)` for the tri-state option fields.
pub fn bool_or(opt: Option<bool>, fallback: bool) -> (r: bool)
    ensures
        r == or_else(opt, fallback),
{
    match opt {
        Some(b) => b,
        None => fallback,
    }
}

// ── the running defaults ───────────────────────────────────────────────────

/// The running defaults as the engine iterates. Later `defaults:` directives
/// override earlier values key by key.
#[derive(Debug, Clone)]
pub struct MergedDefaults {
    pub link: LinkOptions,
    pub shell: ShellOptions,
    pub clean: CleanOptions,
}

/// [`MergedDefaults`] with strings as character sequences.
pub struct MergedDefaultsView {
    pub link: LinkOptionsView,
    pub shell: ShellOptions,
    pub clean: CleanOptions,
}

impl View for MergedDefaults {
    type V = MergedDefaultsView;

    open spec fn view(&self) -> MergedDefaultsView {
        MergedDefaultsView { link: self.link@, shell: self.shell, clean: self.clean }
    }
}

/// The running defaults after one `defaults:` directive: each section that is
/// present is overlaid onto the running one.
pub open spec fn defaults_after(m: MergedDefaultsView, d: DefaultsView) -> MergedDefaultsView {
    MergedDefaultsView {
        link: match d.link {
            Some(l) => merged_link(m.link, l),
            None => m.link,
        },
        shell: match d.shell {
            Some(s) => merged_shell(m.shell, s),
            None => m.shell,
        },
        clean: match d.clean {
            Some(c) => merged_clean(m.clean, c),
            None => m.clean,
        },
    }
}

impl MergedDefaults {
    /// No defaults set.
    pub fn new() -> (r: Self)
        ensures
            r@ == (MergedDefaultsView {
                link: unset_link_options(),
                shell: unset_shell_options(),
                clean: unset_clean_options(),
            }),
    {
        MergedDefaults {
            link: LinkOptions::default(),
            shell: ShellOptions::default(),
            clean: CleanOptions::default(),
        }
    }

    /// Overlay one `defaults:` directive onto the running defaults.
    pub fn merge(&mut self, d: &Defaults)
        ensures
            final(self)@ == defaults_after(old(self)@, d@),
    {
        match &d.link {
            Some(link) => {
                self.link = merge_link_opts(&self.link, link);
            },
            None => {},
        }
        match &d.shell {
            Some(shell) => {
                self.shell = merge_shell_opts(&self.shell, shell);
            },
            None => {},
        }
        match &d.clean {
            Some(clean) => {
                self.clean = merge_clean_opts(&self.clean, clean);
            },
            None => {},
        }
    }
}

// ── laws of merging ────────────────────────────────────────────────────────

/// Whether `merged` is what overlaying one field gives: the overlay's value
/// whenever the overlay sets the field, the base's only when it does not.
pub open spec fn overlay_wins<T>(base: Option<T>, over: Option<T>, merged: Option<T>) -> bool {
    &&& over is Some ==> merged == over
    &&& over is None ==> merged == base
}

/// Overlaying link options: every field the overlay (an entry's own options)
/// sets wins over the base (the running defaults); the base is used only for
/// the fields the overlay leaves unset. A non-empty exclude list replaces the
/// base's; an empty one keeps it.
pub proof fn entry_link_options_win(base: LinkOptionsView, over: LinkOptionsView)
    ensures
        ({
            let m = merged_link(base, over);
            &&& overlay_wins(base.path, over.path, m.path)
            &&& overlay_wins(base.create, over.create, m.create)
            &&& overlay_wins(base.relink, over.relink, m.relink)
            &&& overlay_wins(base.force, over.force, m.force)
            &&& overlay_wins(base.relative, over.relative, m.relative)
            &&& overlay_wins(base.glob, over.glob, m.glob)
            &&& overlay_wins(base.ignore_missing, over.ignore_missing, m.ignore_missing)
            &&& overlay_wins(base.backup, over.backup, m.backup)
            &&& overlay_wins(base.link_type, over.link_type, m.link_type)
            &&& overlay_wins(base.canonicalize, over.canonicalize, m.canonicalize)
            &&& overlay_wins(base.prefix, over.prefix, m.prefix)
            &&& over.exclude.len() > 0 ==> m.exclude == over.exclude
            &&& over.exclude.len() == 0 ==> m.exclude == base.exclude
        }),
{
}

/// Overlaying shell options: every field the overlay sets wins over the
/// base; the base is used only for the fields the overlay leaves unset.
pub proof fn entry_shell_options_win(base: ShellOptions, over: ShellOptions)
    ensures
        ({
            let m = merged_shell(base, over);
            &&& overlay_wins(base.stdin, over.stdin, m.stdin)
            &&& overlay_wins(base.stdout, over.stdout, m.stdout)
            &&& overlay_wins(base.stderr, over.stderr, m.stderr)
            &&& overlay_wins(base.quiet, over.quiet, m.quiet)
        }),
{
}

/// Overlaying clean options: every field the overlay sets wins over the
/// base; the base is used only for the fields the overlay leaves unset.
pub proof fn entry_clean_options_win(base: CleanOptions, over: CleanOptions)
    ensures
        ({
            let m = merged_clean(base, over);
            &&& overlay_wins(base.force, over.force, m.force)
            &&& overlay_wins(base.recursive, over.recursive, m.recursive)
        }),
{
}

/// An overlay with nothing set leaves the base unchanged.
pub proof fn merge_link_unset_overlay(base: LinkOptionsView)
    ensures
        merged_link(base, unset_link_options()) == base,
{
}

/// Overlaying onto nothing set gives the overlay.
pub proof fn merge_link_onto_unset(over: LinkOptionsView)
    ensures
        merged_link(unset_link_options(), over) == over,
{
    if over.exclude.len() == 0 {
        assert(over.exclude =~= Seq::<Seq<char>>::empty());
    }
}

/// Overlaying is associative: two overlays applied in turn equal their merge
/// applied once.
pub proof fn merge_link_associative(a: LinkOptionsView, b: LinkOptionsView, c: LinkOptionsView)
    ensures
        merged_link(merged_link(a, b), c) == merged_link(a, merged_link(b, c)),
{
}

/// Overlaying options onto themselves changes nothing.
pub proof fn merge_link_idempotent(a: LinkOptionsView)
    ensures
        merged_link(a, a) == a,
{
}

/// An unset shell overlay leaves the base unchanged, and shell overlays
/// compose associatively.
pub proof fn merge_shell_laws(a: ShellOptions, b: ShellOptions, c: ShellOptions)
    ensures
        merged_shell(a, unset_shell_options()) == a,
        merged_shell(unset_shell_options(), a) == a,
        merged_shell(merged_shell(a, b), c) == merged_shell(a, merged_shell(b, c)),
{
}

/// An unset clean overlay leaves the base unchanged, and clean overlays
/// compose associatively.
pub proof fn merge_clean_laws(a: CleanOptions, b: CleanOptions, c: CleanOptions)
    ensures
        merged_clean(a, unset_clean_options()) == a,
        merged_clean(unset_clean_options(), a) == a,
        merged_clean(merged_clean(a, b), c) == merged_clean(a, merged_clean(b, c)),
{
}

/// One section of two `defaults:` directives taken as one: the second's
/// overlaid onto the first's when both are present, else whichever is.
pub open spec fn section_then<T>(a: Option<T>, b: Option<T>, merge: spec_fn(T, T) -> T) -> Option<T> {
    match (a, b) {
        (Some(x), Some(y)) => Some(merge(x, y)),
        (Some(x), None) => Some(x),
        (None, y) => y,
    }
}

/// Two `defaults:` directives taken as one, the second's keys winning.
pub open spec fn defaults_then(a: DefaultsView, b: DefaultsView) -> DefaultsView {
    DefaultsView {
        link: section_then(a.link, b.link, |x: LinkOptionsView, y: LinkOptionsView| merged_link(x, y)),
        shell: section_then(a.shell, b.shell, |x: ShellOptions, y: ShellOptions| merged_shell(x, y)),
        clean: section_then(a.clean, b.clean, |x: CleanOptions, y: CleanOptions| merged_clean(x, y)),
    }
}

/// A run of `defaults:` directives taken as one, later keys winning.
pub open spec fn defaults_sum(ds: Seq<DefaultsView>) -> DefaultsView
    decreases ds.len(),
{
    if ds.len() == 0 {
        DefaultsView { link: None, shell: None, clean: None }
    } else {
        defaults_then(defaults_sum(ds.drop_last()), ds.last())
    }
}

/// The running defaults after a run of `defaults:` directives, in order.
pub open spec fn defaults_over(m: MergedDefaultsView, ds: Seq<DefaultsView>) -> MergedDefaultsView
    decreases ds.len(),
{
    if ds.len() == 0 {
        m
    } else {
        defaults_after(defaults_over(m, ds.drop_last()), ds.last())
    }
}

/// Later `defaults:` directives override earlier values key by key: two
/// directives in turn act as the one that overlays the second onto the first.
pub proof fn defaults_in_turn(m: MergedDefaultsView, a: DefaultsView, b: DefaultsView)
    ensures
        defaults_after(defaults_after(m, a), b) == defaults_after(m, defaults_then(a, b)),
{
    let l = defaults_after(defaults_after(m, a), b);
    let r = defaults_after(m, defaults_then(a, b));
    match (a.link, b.link) {
        (Some(x), Some(y)) => {
            merge_link_associative(m.link, x, y);
        },
        _ => {},
    }
    assert(l.link == r.link);
    match (a.shell, b.shell) {
        (Some(x), Some(y)) => {
            merge_shell_laws(m.shell, x, y);
        },
        _ => {},
    }
    assert(l.shell == r.shell);
    match (a.clean, b.clean) {
        (Some(x), Some(y)) => {
            merge_clean_laws(m.clean, x, y);
        },
        _ => {},
    }
    assert(l.clean == r.clean);
}

/// A whole run of `defaults:` directives acts as the single directive that
/// overlays them in order, later keys winning.
pub proof fn defaults_run_acts_as_one(m: MergedDefaultsView, ds: Seq<DefaultsView>)
    ensures
        defaults_over(m, ds) == defaults_after(m, defaults_sum(ds)),
    decreases ds.len(),
{
    if ds.len() > 0 {
        defaults_run_acts_as_one(m, ds.drop_last());
        defaults_in_turn(m, defaults_sum(ds.drop_last()), ds.last());
    }
}

/// A `defaults:` directive with no sections leaves the running defaults as
/// they were.
pub proof fn empty_defaults_change_nothing(m: MergedDefaultsView)
    ensures
        defaults_after(m, DefaultsView { link: None, shell: None, clean: None }) == m,
{
}

// ── tally ──────────────────────────────────────────────────────────────────

/// Counts what happened across one apply run.
#[derive(Debug, Default, Clone, Copy, PartialEq, Eq)]
pub struct Tally {
    /// Links already correct (no-op).
    pub links_ok: u32,
    /// Links newly created.
    pub links_created: u32,
    /// Stale links replaced.
    pub links_relinked: u32,
    /// Non-symlink targets backed up.
    pub links_backed_up: u32,
    /// Shell commands run.
    pub shell_run: u32,
    /// Shell commands that exited non-zero.
    pub shell_failed: u32,
    /// Dead symlinks removed.
    pub cleaned: u32,
    /// Directories created.
    pub created: u32,
}

impl Tally {
    /// All counts zero.
    pub fn zero() -> (r: Tally)
        ensures
            r == (Tally {
                links_ok: 0,
                links_created: 0,
                links_relinked: 0,
                links_backed_up: 0,
                shell_run: 0,
                shell_failed: 0,
                cleaned: 0,
                created: 0,
            }),
    {
        Tally {
            links_ok: 0,
            links_created: 0,
            links_relinked: 0,
            links_backed_up: 0,
            shell_run: 0,
            shell_failed: 0,
            cleaned: 0,
            created: 0,
        }
    }
}

/// One more, saturating at `u32::MAX`.
pub open spec fn bumped(n: u32) -> u32 {
    if n < u32::MAX {
        (n + 1) as u32
    } else {
        n
    }
}

/// Counts one event, saturating at `u32::MAX`.
pub fn bump(n: u32) -> (r: u32)
    ensures
        r == bumped(n),
{
    if n < u32::MAX {
        n + 1
    } else {
        n
    }
}

/// A fatal error that aborts an apply run. Per-entry failures do not abort;
/// they are tallied and logged.
#[derive(Debug, Clone, PartialEq, Eq)]
pub enum ApplyError {
    /// The run was cancelled between directives.
    Cancelled,
    /// A directive of an unknown kind was encountered.
    UnknownDirective {
        /// The offending directive key.
        kind: String,
        /// 1-based source line.
        line: usize,
    },
}

/// How an apply error renders.
pub open spec fn apply_error_text(e: ApplyError) -> Seq<char> {
    match e {
        ApplyError::Cancelled => "apply cancelled"@,
        ApplyError::UnknownDirective { kind, line } => "engine: unknown directive "@ + debug_quoted_text(kind@)
            + " at line "@ + decimal(line as nat),
    }
}

impl ApplyError {
    /// The rendered error.
    pub fn to_string(&self) -> (r: String)
        ensures
            r@ == apply_error_text(*self),
    {
        match self {
            ApplyError::Cancelled => {
                let v = chars_of("apply cancelled");
                string_of(v.as_slice())
            },
            ApplyError::UnknownDirective { kind, line } => {
                let mut v = chars_of("engine: unknown directive ");
                push_str(&mut v, debug_quoted(kind.as_str()).as_str());
                push_str(&mut v, " at line ");
                push_str(&mut v, decimal_string(*line as u64).as_str());
                string_of(v.as_slice())
            },
        }
    }
}

} // verus!
