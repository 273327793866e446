//! The typed, order-preserving profile model.
//!
//! A profile is a flat list of directives; iteration order is execution order.
//! Option fields are `Option<_>` so "unset" (`None`) is distinct from
//! "explicitly false" (`Some(false)`).
//!
//! Each type has a view in which strings are `Seq<char>`; the parser's and the
//! engine's contracts are stated over these views.

use vstd::prelude::*;

verus! {

/// A parsed profile: a flat, ordered list of directives.
#[derive(Debug, Clone, PartialEq, Eq)]
pub struct Config {
    /// Source path (empty when parsed from text).
    pub path: String,
    /// Directives in declaration (= execution) order.
    pub directives: Vec<Directive>,
}

/// One entry in a profile's ordered directive list.
#[derive(Debug, Clone, PartialEq, Eq)]
pub struct Directive {
    /// The directive payload (exactly one kind).
    pub kind: DirectiveKind,
    /// 1-based YAML line where this directive starts; 0 if unknown.
    pub line: usize,
}

/// The directive payloads; the variant doubles as the directive's YAML key.
#[derive(Debug, Clone, PartialEq, Eq)]
pub enum DirectiveKind {
    /// `defaults:` — option defaults merged into subsequent directives.
    Defaults(Defaults),
    /// `link:` — target→source symlink declarations.
    Link(Link),
    /// `shell:` — ordered shell commands.
    Shell(Shell),
    /// `clean:` — directories to scan for dead symlinks.
    Clean(Clean),
    /// `create:` — directories to create.
    Create(Create),
}

/// Option defaults applied to subsequent directives.
#[derive(Debug, Clone, PartialEq, Eq)]
pub struct Defaults {
    /// Defaults for `link:` options.
    pub link: Option<LinkOptions>,
    /// Defaults for `shell:` options.
    pub shell: Option<ShellOptions>,
    /// Defaults for `clean:` options.
    pub clean: Option<CleanOptions>,
}

/// Per-link options. `exclude` is a plain list where empty means "unset".
#[derive(Debug, Clone, PartialEq, Eq)]
pub struct LinkOptions {
    /// Source path relative to the base dir (or absolute).
    pub path: Option<String>,
    /// Create the target's parent directory if missing.
    pub create: Option<bool>,
    /// Replace a symlink that points elsewhere.
    pub relink: Option<bool>,
    /// Alias for `relink`: replace a symlink pointing elsewhere.
    pub force: Option<bool>,
    /// Store a relative path in the symlink.
    pub relative: Option<bool>,
    /// Treat `path` as a glob (reserved; currently an error).
    pub glob: Option<bool>,
    /// Skip the existence check of `path`.
    pub ignore_missing: Option<bool>,
    /// Reserved for forward compatibility; targets are always backed up.
    pub backup: Option<bool>,
    /// `"symlink"` (default) or `"hardlink"` (reserved).
    pub link_type: Option<String>,
    /// Resolve symlinks in `path` before linking.
    pub canonicalize: Option<bool>,
    /// Prefix prepended to each link's target when expanding globs.
    pub prefix: Option<String>,
    /// Glob patterns to skip when `glob: true`.
    pub exclude: Vec<String>,
}

/// One target→source pair inside a `link:` directive.
#[derive(Debug, Clone, PartialEq, Eq)]
pub struct LinkEntry {
    /// The path created on the filesystem, e.g. `~/.config/nvim`.
    pub target: String,
    /// Per-entry options, overriding any defaults.
    pub options: LinkOptions,
}

/// The parsed `link:` directive, preserving target order.
#[derive(Debug, Clone, PartialEq, Eq)]
pub struct Link {
    /// Entries in declaration order.
    pub entries: Vec<LinkEntry>,
}

/// Per-shell-command flags.
#[derive(Debug, Clone, Copy, PartialEq, Eq)]
pub struct ShellOptions {
    /// Inherit stdin.
    pub stdin: Option<bool>,
    /// Stream stdout.
    pub stdout: Option<bool>,
    /// Stream stderr.
    pub stderr: Option<bool>,
    /// Suppress the name line.
    pub quiet: Option<bool>,
}

/// One shell command. `command` is required; the rest override defaults.
#[derive(Debug, Clone, PartialEq, Eq)]
pub struct ShellEntry {
    /// The command text (from the `script:` key).
    pub command: String,
    /// Human-readable label (from the `name:` key).
    pub description: String,
    /// Per-entry option overrides.
    pub options: ShellOptions,
}

/// The parsed `shell:` directive.
#[derive(Debug, Clone, PartialEq, Eq)]
pub struct Shell {
    /// Commands in declaration order.
    pub entries: Vec<ShellEntry>,
}

/// Per-target clean flags.
#[derive(Debug, Clone, Copy, PartialEq, Eq)]
pub struct CleanOptions {
    /// Remove dead symlinks even when they point outside the base directory.
    /// Bounded for safety: the scanned target must resolve under the home
    /// directory, and recursion depth is capped.
    pub force: Option<bool>,
    /// Recurse into subdirectories.
    pub recursive: Option<bool>,
}

/// One directory to scan for dead symlinks.
#[derive(Debug, Clone, PartialEq, Eq)]
pub struct CleanEntry {
    /// The directory to scan.
    pub target: String,
    /// Per-entry options.
    pub options: CleanOptions,
}

/// The parsed `clean:` directive.
#[derive(Debug, Clone, PartialEq, Eq)]
pub struct Clean {
    /// Entries in declaration order.
    pub entries: Vec<CleanEntry>,
}

/// One path to create.
#[derive(Debug, Clone, PartialEq, Eq)]
pub struct CreateEntry {
    /// The directory path.
    pub path: String,
    /// File mode; `None` means the default (`0o777`).
    pub mode: Option<u32>,
}

/// The parsed `create:` directive.
#[derive(Debug, Clone, PartialEq, Eq)]
pub struct Create {
    /// Entries in declaration order.
    pub entries: Vec<CreateEntry>,
}

// ── views ──────────────────────────────────────────────────────────────────

/// The view of an optional string.
pub open spec fn opt_text(o: Option<String>) -> Option<Seq<char>> {
    match o {
        Some(s) => Some(s@),
        None => None,
    }
}

/// The views of the elements of a sequence.
pub open spec fn seq_views<T: View>(s: Seq<T>) -> Seq<T::V> {
    s.map_values(|x: T| x@)
}

pub proof fn lemma_seq_views_push<T: View>(s: Seq<T>, x: T)
    ensures
        seq_views(s.push(x)) == seq_views(s).push(x@),
{
    assert(seq_views(s.push(x)) =~= seq_views(s).push(x@));
}

/// The views of a sequence of strings.
pub open spec fn texts(v: Seq<String>) -> Seq<Seq<char>> {
    v.map_values(|s: String| s@)
}

/// [`LinkOptions`] with strings as character sequences.
pub struct LinkOptionsView {
    pub path: Option<Seq<char>>,
    pub create: Option<bool>,
    pub relink: Option<bool>,
    pub force: Option<bool>,
    pub relative: Option<bool>,
    pub glob: Option<bool>,
    pub ignore_missing: Option<bool>,
    pub backup: Option<bool>,
    pub link_type: Option<Seq<char>>,
    pub canonicalize: Option<bool>,
    pub prefix: Option<Seq<char>>,
    pub exclude: Seq<Seq<char>>,
}

impl View for LinkOptions {
    type V = LinkOptionsView;

    open spec fn view(&self) -> LinkOptionsView {
        LinkOptionsView {
            path: opt_text(self.path),
            create: self.create,
            relink: self.relink,
            force: self.force,
            relative: self.relative,
            glob: self.glob,
            ignore_missing: self.ignore_missing,
            backup: self.backup,
            link_type: opt_text(self.link_type),
            canonicalize: self.canonicalize,
            prefix: opt_text(self.prefix),
            exclude: texts(self.exclude@),
        }
    }
}

impl View for ShellOptions {
    type V = ShellOptions;

    open spec fn view(&self) -> ShellOptions {
        *self
    }
}

impl View for CleanOptions {
    type V = CleanOptions;

    open spec fn view(&self) -> CleanOptions {
        *self
    }
}

/// Link options with every field unset.
pub open spec fn unset_link_options() -> LinkOptionsView {
    LinkOptionsView {
        path: None,
        create: None,
        relink: None,
        force: None,
        relative: None,
        glob: None,
        ignore_missing: None,
        backup: None,
        link_type: None,
        canonicalize: None,
        prefix: None,
        exclude: Seq::empty(),
    }
}

/// Shell options with every field unset.
pub open spec fn unset_shell_options() -> ShellOptions {
    ShellOptions { stdin: None, stdout: None, stderr: None, quiet: None }
}

/// Clean options with every field unset.
pub open spec fn unset_clean_options() -> CleanOptions {
    CleanOptions { force: None, recursive: None }
}

impl Default for LinkOptions {
    fn default() -> (r: LinkOptions)
        ensures
            r@ == unset_link_options(),
    {
        let r = LinkOptions {
            path: None,
            create: None,
            relink: None,
            force: None,
            relative: None,
            glob: None,
            ignore_missing: None,
            backup: None,
            link_type: None,
            canonicalize: None,
            prefix: None,
            exclude: Vec::new(),
        };
        assert(texts(r.exclude@) =~= Seq::empty());
        r
    }
}

impl Default for ShellOptions {
    fn default() -> (r: ShellOptions)
        ensures
            r == unset_shell_options(),
    {
        ShellOptions { stdin: None, stdout: None, stderr: None, quiet: None }
    }
}

impl Default for CleanOptions {
    fn default() -> (r: CleanOptions)
        ensures
            r == unset_clean_options(),
    {
        CleanOptions { force: None, recursive: None }
    }
}

/// [`Defaults`] with strings as character sequences.
pub struct DefaultsView {
    pub link: Option<LinkOptionsView>,
    pub shell: Option<ShellOptions>,
    pub clean: Option<CleanOptions>,
}

impl View for Defaults {
    type V = DefaultsView;

    open spec fn view(&self) -> DefaultsView {
        DefaultsView {
            link: match self.link {
                Some(l) => Some(l@),
                None => None,
            },
            shell: self.shell,
            clean: self.clean,
        }
    }
}

impl Default for Defaults {
    fn default() -> (r: Defaults)
        ensures
            r@ == (DefaultsView { link: None, shell: None, clean: None }),
    {
        Defaults { link: None, shell: None, clean: None }
    }
}

/// [`LinkEntry`] with strings as character sequences.
pub struct LinkEntryView {
    pub target: Seq<char>,
    pub options: LinkOptionsView,
}

impl View for LinkEntry {
    type V = LinkEntryView;

    open spec fn view(&self) -> LinkEntryView {
        LinkEntryView { target: self.target@, options: self.options@ }
    }
}

impl View for Link {
    type V = Seq<LinkEntryView>;

    open spec fn view(&self) -> Seq<LinkEntryView> {
        seq_views(self.entries@)
    }
}

/// [`ShellEntry`] with strings as character sequences.
pub struct ShellEntryView {
    pub command: Seq<char>,
    pub description: Seq<char>,
    pub options: ShellOptions,
}

impl View for ShellEntry {
    type V = ShellEntryView;

    open spec fn view(&self) -> ShellEntryView {
        ShellEntryView {
            command: self.command@,
            description: self.description@,
            options: self.options,
        }
    }
}

impl View for Shell {
    type V = Seq<ShellEntryView>;

    open spec fn view(&self) -> Seq<ShellEntryView> {
        seq_views(self.entries@)
    }
}

/// [`CleanEntry`] with strings as character sequences.
pub struct CleanEntryView {
    pub target: Seq<char>,
    pub options: CleanOptions,
}

impl View for CleanEntry {
    type V = CleanEntryView;

    open spec fn view(&self) -> CleanEntryView {
        CleanEntryView { target: self.target@, options: self.options }
    }
}

impl View for Clean {
    type V = Seq<CleanEntryView>;

    open spec fn view(&self) -> Seq<CleanEntryView> {
        seq_views(self.entries@)
    }
}

/// [`CreateEntry`] with strings as character sequences.
pub struct CreateEntryView {
    pub path: Seq<char>,
    pub mode: Option<u32>,
}

impl View for CreateEntry {
    type V = CreateEntryView;

    open spec fn view(&self) -> CreateEntryView {
        CreateEntryView { path: self.path@, mode: self.mode }
    }
}

impl View for Create {
    type V = Seq<CreateEntryView>;

    open spec fn view(&self) -> Seq<CreateEntryView> {
        seq_views(self.entries@)
    }
}

/// [`DirectiveKind`] with strings as character sequences.
pub enum DirectiveKindView {
    Defaults(DefaultsView),
    Link(Seq<LinkEntryView>),
    Shell(Seq<ShellEntryView>),
    Clean(Seq<CleanEntryView>),
    Create(Seq<CreateEntryView>),
}

impl View for DirectiveKind {
    type V = DirectiveKindView;

    open spec fn view(&self) -> DirectiveKindView {
        match self {
            DirectiveKind::Defaults(d) => DirectiveKindView::Defaults(d@),
            DirectiveKind::Link(l) => DirectiveKindView::Link(l@),
            DirectiveKind::Shell(s) => DirectiveKindView::Shell(s@),
            DirectiveKind::Clean(c) => DirectiveKindView::Clean(c@),
            DirectiveKind::Create(c) => DirectiveKindView::Create(c@),
        }
    }
}

/// [`Directive`] with strings as character sequences.
pub struct DirectiveView {
    pub kind: DirectiveKindView,
    pub line: usize,
}

impl View for Directive {
    type V = DirectiveView;

    open spec fn view(&self) -> DirectiveView {
        DirectiveView { kind: self.kind@, line: self.line }
    }
}

/// [`Config`] with strings as character sequences.
pub struct ConfigView {
    pub path: Seq<char>,
    pub directives: Seq<DirectiveView>,
}

impl View for Config {
    type V = ConfigView;

    open spec fn view(&self) -> ConfigView {
        ConfigView { path: self.path@, directives: seq_views(self.directives@) }
    }
}

impl Default for Config {
    fn default() -> (r: Config)
        ensures
            r@.path.len() == 0,
            r@.directives.len() == 0,
    {
        Config { path: String::new(), directives: Vec::new() }
    }
}

/// The YAML key of a directive kind.
pub open spec fn kind_name(k: DirectiveKindView) -> Seq<char> {
    match k {
        DirectiveKindView::Defaults(_) => "defaults"@,
        DirectiveKindView::Link(_) => "link"@,
        DirectiveKindView::Shell(_) => "shell"@,
        DirectiveKindView::Clean(_) => "clean"@,
        DirectiveKindView::Create(_) => "create"@,
    }
}

impl DirectiveKind {
    /// The directive's YAML key.
    pub fn name(&self) -> (r: &'static str)
        ensures
            r@ == kind_name(self@),
    {
        match self {
            DirectiveKind::Defaults(_) => "defaults",
            DirectiveKind::Link(_) => "link",
            DirectiveKind::Shell(_) => "shell",
            DirectiveKind::Clean(_) => "clean",
            DirectiveKind::Create(_) => "create",
        }
    }
}

} // verus!
