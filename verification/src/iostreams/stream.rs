//! The byte streams behind [`IoStreams`](super::IoStreams): each knows where
//! its text goes and, as ghost state, the text handed to its writer so far.
//! That text changes only through [`write_text`], whose contract is the one
//! place it is described.

use std::io::Write;

use vstd::prelude::*;

verus! {

/// Where a stream's text goes.
#[derive(Debug, Clone, Copy, PartialEq, Eq, Structural)]
pub enum StreamTarget {
    /// The process's standard output.
    Stdout,
    /// The process's standard error.
    Stderr,
    /// Nowhere: the text is dropped.
    Discard,
    /// A writer the caller supplied.
    Supplied,
}

/// A boxed writer, kept opaque: only the functions below touch it.
#[verifier::external_body]
pub struct WriterBox {
    w: Box<dyn Write + Send>,
}

/// A writer together with where it sends its text.
pub struct Writer {
    target: StreamTarget,
    boxed: WriterBox,
}

impl Writer {
    /// Where the writer sends its text.
    pub closed spec fn target(&self) -> StreamTarget {
        self.target
    }
}

/// A caller's writer, boxed (`Box::new`).
#[verifier::external_body]
pub fn supplied_writer<W: Write + Send + 'static>(w: W) -> (r: Writer)
    ensures
        r.target() == StreamTarget::Supplied,
{
    Writer { target: StreamTarget::Supplied, boxed: WriterBox { w: Box::new(w) } }
}

/// `std::io::sink()`, boxed: a writer that drops everything.
#[verifier::external_body]
pub fn discard_writer() -> (r: Writer)
    ensures
        r.target() == StreamTarget::Discard,
{
    Writer { target: StreamTarget::Discard, boxed: WriterBox { w: Box::new(std::io::sink()) } }
}

/// `std::io::stdout()`, boxed.
#[verifier::external_body]
pub fn stdout_writer() -> (r: Writer)
    ensures
        r.target() == StreamTarget::Stdout,
{
    Writer { target: StreamTarget::Stdout, boxed: WriterBox { w: Box::new(std::io::stdout()) } }
}

/// `std::io::stderr()`, boxed.
#[verifier::external_body]
pub fn stderr_writer() -> (r: Writer)
    ensures
        r.target() == StreamTarget::Stderr,
{
    Writer { target: StreamTarget::Stderr, boxed: WriterBox { w: Box::new(std::io::stderr()) } }
}

/// A writer and the text handed to it so far.
pub struct Stream {
    writer: Writer,
    handed: Ghost<Seq<char>>,
}

impl Stream {
    /// Where the stream's text goes.
    pub closed spec fn target(&self) -> StreamTarget {
        self.writer.target()
    }

    /// The text handed to the stream's writer so far.
    pub closed spec fn handed(&self) -> Seq<char> {
        self.handed@
    }

    /// A stream over `writer` that has been handed nothing yet.
    pub fn over(writer: Writer) -> (r: Stream)
        ensures
            r.target() == writer.target(),
            r.handed().len() == 0,
    {
        Stream { writer, handed: Ghost(Seq::empty()) }
    }
}

/// Hands `text` to the stream's writer with `Write::write_all`; write errors
/// are dropped (output is fire-and-forget). The contract claims that the
/// stream has then been handed `text` after what it held, and still goes to
/// the same place.
#[verifier::external_body]
pub fn write_text(s: &mut Stream, text: &str)
    ensures
        final(s).handed() == old(s).handed() + text@,
        final(s).target() == old(s).target(),
{
    let _ = s.writer.boxed.w.write_all(text.as_bytes());
}

} // verus!
