//! The output seam between the engine and the terminal.
//!
//! The engine reports progress through an [`OutputSink`] rather than calling
//! [`IoStreams`](crate::iostreams::IoStreams) directly, so the engine can run
//! without real streams ([`NullSink`]) while production wires a sink that
//! forwards to `IoStreams`.

use vstd::prelude::*;

use crate::iostreams::style::Tone;
use crate::iostreams::{arrow_line, gated, pair_line, shell_line, IoStreams, IoStreamsView};

verus! {

/// A progress event, as a sink hears it.
pub enum SinkEvent {
    /// A new symlink `from -> to` was created.
    Linked(Seq<char>, Seq<char>),
    /// A stale symlink was replaced with `from -> to`.
    Relinked(Seq<char>, Seq<char>),
    /// An existing symlink `from -> to` already points at the correct target.
    LinkOk(Seq<char>, Seq<char>),
    /// A pre-existing file was moved `from -> to` before linking.
    BackedUp(Seq<char>, Seq<char>),
    /// A dangling symlink `from -> to` was removed.
    RemovedDeadLink(Seq<char>, Seq<char>),
    /// A create target already exists and was skipped.
    PathExists(Seq<char>),
    /// A directory was created.
    Created(Seq<char>),
    /// A shell directive entry (description, command, its own quiet flag) is
    /// about to run.
    ShellCmd(Seq<char>, Seq<char>, bool),
}

/// Receives engine progress events. Each event takes the sink from one state
/// to the next as [`OutputSink::hears`] describes.
pub trait OutputSink: Sized {
    /// Whether hearing `event` takes the sink from `before` to `after`.
    spec fn hears(before: Self, event: SinkEvent, after: Self) -> bool;

    /// A new symlink `from -> to` was created.
    fn linked(&mut self, from: &str, to: &str)
        ensures
            Self::hears(*old(self), SinkEvent::Linked(from@, to@), *final(self)),
    ;

    /// A stale symlink was replaced with `from -> to`.
    fn relinked(&mut self, from: &str, to: &str)
        ensures
            Self::hears(*old(self), SinkEvent::Relinked(from@, to@), *final(self)),
    ;

    /// An existing symlink already points at the correct target.
    fn link_ok(&mut self, from: &str, to: &str)
        ensures
            Self::hears(*old(self), SinkEvent::LinkOk(from@, to@), *final(self)),
    ;

    /// A pre-existing file was moved `from -> to` before linking.
    fn backed_up(&mut self, from: &str, to: &str)
        ensures
            Self::hears(*old(self), SinkEvent::BackedUp(from@, to@), *final(self)),
    ;

    /// A dangling symlink `from -> to` was removed.
    fn removed_dead_link(&mut self, from: &str, to: &str)
        ensures
            Self::hears(*old(self), SinkEvent::RemovedDeadLink(from@, to@), *final(self)),
    ;

    /// A create target already exists and was skipped.
    fn path_exists(&mut self, path: &str)
        ensures
            Self::hears(*old(self), SinkEvent::PathExists(path@), *final(self)),
    ;

    /// A directory was created.
    fn created(&mut self, path: &str)
        ensures
            Self::hears(*old(self), SinkEvent::Created(path@), *final(self)),
    ;

    /// A shell directive entry is about to run. `quiet` mirrors the entry's
    /// own quiet flag (distinct from stream-level quiet).
    fn shell_cmd(&mut self, description: &str, command: &str, quiet: bool)
        ensures
            Self::hears(*old(self), SinkEvent::ShellCmd(description@, command@, quiet), *final(self)),
    ;
}

/// An [`OutputSink`] that discards every event.
#[derive(Debug, Default, Clone, Copy)]
pub struct NullSink;

impl OutputSink for NullSink {
    /// Every event leaves the sink as it was.
    open spec fn hears(before: Self, event: SinkEvent, after: Self) -> bool {
        before == after
    }

    fn linked(&mut self, from: &str, to: &str) {
    }

    fn relinked(&mut self, from: &str, to: &str) {
    }

    fn link_ok(&mut self, from: &str, to: &str) {
    }

    fn backed_up(&mut self, from: &str, to: &str) {
    }

    fn removed_dead_link(&mut self, from: &str, to: &str) {
    }

    fn path_exists(&mut self, path: &str) {
    }

    fn created(&mut self, path: &str) {
    }

    fn shell_cmd(&mut self, description: &str, command: &str, quiet: bool) {
    }
}

/// The streams after `event` is shown on `ios`: its line goes to the error
/// stream unless the streams are quiet; nothing else changes.
pub open spec fn shown(ios: IoStreamsView, event: SinkEvent) -> IoStreamsView {
    let line = match event {
        SinkEvent::Linked(from, to) => arrow_line(Tone::BoldGreen, "Linked"@, Tone::White, from, Tone::Dim, to, ios.err_color),
        SinkEvent::Relinked(from, to) => arrow_line(Tone::Yellow, "Relinked"@, Tone::White, from, Tone::Dim, to, ios.err_color),
        SinkEvent::LinkOk(from, to) => arrow_line(Tone::Bold, "Link exists"@, Tone::Dim, from, Tone::White, to, ios.err_color),
        SinkEvent::BackedUp(from, to) => arrow_line(Tone::Yellow, "backed up"@, Tone::White, from, Tone::Dim, to, ios.err_color),
        SinkEvent::RemovedDeadLink(from, to) => arrow_line(Tone::Yellow, "Removed"@, Tone::White, from, Tone::Dim, to, ios.err_color),
        SinkEvent::PathExists(path) => pair_line(Tone::Bold, "Path exists"@, Tone::Dim, path, ios.err_color),
        SinkEvent::Created(path) => pair_line(Tone::BoldGreen, "Created"@, Tone::White, path, ios.err_color),
        SinkEvent::ShellCmd(d, c, q) => shell_line(d, c, q, ios.err_color),
    };
    IoStreamsView { err: ios.err + gated(ios.quiet, line), ..ios }
}

/// Forwards engine progress events to an [`IoStreams`], rendering them as
/// styled, quiet-aware terminal output.
pub struct IoStreamsSink<'a> {
    ios: &'a mut IoStreams,
}

impl<'a> IoStreamsSink<'a> {
    /// The streams that events are forwarded to.
    pub closed spec fn streams(&self) -> IoStreamsView {
        self.ios@
    }

    /// Wrap a mutable [`IoStreams`].
    pub fn new(ios: &'a mut IoStreams) -> (r: Self)
        ensures
            r.streams() == old(ios)@,
    {
        IoStreamsSink { ios }
    }
}

impl<'a> OutputSink for IoStreamsSink<'a> {
    /// Each event is shown on the streams, as [`shown`] describes.
    open spec fn hears(before: Self, event: SinkEvent, after: Self) -> bool {
        after.streams() == shown(before.streams(), event)
    }

    fn linked(&mut self, from: &str, to: &str) {
        self.ios.linked(from, to);
    }

    fn relinked(&mut self, from: &str, to: &str) {
        self.ios.relinked(from, to);
    }

    fn link_ok(&mut self, from: &str, to: &str) {
        self.ios.link_ok(from, to);
    }

    fn backed_up(&mut self, from: &str, to: &str) {
        self.ios.backed_up(from, to);
    }

    fn removed_dead_link(&mut self, from: &str, to: &str) {
        self.ios.removed_dead_link(from, to);
    }

    fn path_exists(&mut self, path: &str) {
        self.ios.path_exists(path);
    }

    fn created(&mut self, path: &str) {
        self.ios.created(path);
    }

    fn shell_cmd(&mut self, description: &str, command: &str, quiet: bool) {
        self.ios.shell_cmd(description, command, quiet);
    }
}

} // verus!
