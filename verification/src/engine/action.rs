//! Recorded engine actions.
//!
//! `dfm diff` groups and colorizes output by [`ActionKind`], and callers
//! inspect recorded actions rather than scraping log text. Real and dry-run
//! executions record the same structures, so diff and apply share planning.

use vstd::prelude::*;

verus! {

/// Classifies a recorded engine action.
#[derive(Debug, Clone, Copy, PartialEq, Eq, Structural)]
pub enum ActionKind {
    /// A new symlink was created.
    LinkCreate,
    /// A stale symlink was replaced.
    LinkRelink,
    /// An idempotent no-op; recorded for completeness.
    LinkExists,
    /// An existing non-symlink was moved aside.
    LinkBackup,
    /// A link that would run but was blocked by a conflict (no relink/force).
    LinkSkip,
    /// A shell command was run.
    ShellRun,
    /// A dead symlink was removed.
    CleanRemove,
    /// A directory was created.
    CreateDir,
    /// An idempotent directory no-op (already present).
    CreateExists,
}

/// The short label of each kind, as diagnostic and diff output show it.
pub open spec fn kind_label(k: ActionKind) -> Seq<char> {
    match k {
        ActionKind::LinkCreate => "link"@,
        ActionKind::LinkRelink => "relink"@,
        ActionKind::LinkExists => "link-ok"@,
        ActionKind::LinkBackup => "backup"@,
        ActionKind::LinkSkip => "skip"@,
        ActionKind::ShellRun => "shell"@,
        ActionKind::CleanRemove => "clean"@,
        ActionKind::CreateDir => "mkdir"@,
        ActionKind::CreateExists => "mkdir-ok"@,
    }
}

impl ActionKind {
    /// The short label used in diagnostic and diff output.
    pub fn label(self) -> (r: &'static str)
        ensures
            r@ == kind_label(self),
    {
        match self {
            ActionKind::LinkCreate => "link",
            ActionKind::LinkRelink => "relink",
            ActionKind::LinkExists => "link-ok",
            ActionKind::LinkBackup => "backup",
            ActionKind::LinkSkip => "skip",
            ActionKind::ShellRun => "shell",
            ActionKind::CleanRemove => "clean",
            ActionKind::CreateDir => "mkdir",
            ActionKind::CreateExists => "mkdir-ok",
        }
    }

    /// The label as an owned string (what `Display` renders).
    pub fn to_string(self) -> (r: String)
        ensures
            r@ == kind_label(self),
    {
        let v = crate::text::chars_of(self.label());
        crate::text::string_of(v.as_slice())
    }
}

/// One recorded step produced by the engine.
#[derive(Debug, Clone, PartialEq, Eq)]
pub struct Action {
    /// What kind of action this is.
    pub kind: ActionKind,
    /// The primary subject: link target, directory path, or command string.
    pub from: String,
    /// The secondary target when relevant: symlink destination, backup
    /// destination path, or shell command description.
    pub to: String,
    /// True when this action was recorded but not executed (dry-run).
    pub dry_run: bool,
}

/// [`Action`] with its strings as character sequences.
pub struct ActionView {
    pub kind: ActionKind,
    pub from: Seq<char>,
    pub to: Seq<char>,
    pub dry_run: bool,
}

impl View for Action {
    type V = ActionView;

    open spec fn view(&self) -> ActionView {
        ActionView { kind: self.kind, from: self.from@, to: self.to@, dry_run: self.dry_run }
    }
}

} // verus!
