//! Profile parse and load errors.
//!
//! `ParseError` records a 1-based line/column when known and renders as
//! `line L:C: msg` (or just `msg` when the position is unknown).

use vstd::prelude::*;

use crate::text::{chars_of, decimal, decimal_string, push_str, string_of};

verus! {

/// A profile parse failure, with a 1-based line/column when available.
#[derive(Debug, Clone, PartialEq, Eq)]
pub struct ParseError {
    /// 1-based line; 0 means "unknown".
    pub line: usize,
    /// 1-based column; 0 means "unknown".
    pub column: usize,
    /// Human-readable message (no position prefix).
    pub msg: String,
}

/// [`ParseError`] with the message as a character sequence.
pub struct ParseErrorView {
    pub line: nat,
    pub column: nat,
    pub msg: Seq<char>,
}

impl View for ParseError {
    type V = ParseErrorView;

    open spec fn view(&self) -> ParseErrorView {
        ParseErrorView { line: self.line as nat, column: self.column as nat, msg: self.msg@ }
    }
}

/// How a parse error renders: `line L:C: msg` when the line is known.
pub open spec fn parse_error_text(e: ParseErrorView) -> Seq<char> {
    if e.line > 0 {
        "line "@ + decimal(e.line) + ":"@ + decimal(e.column) + ": "@ + e.msg
    } else {
        e.msg
    }
}

impl ParseError {
    /// A `ParseError` at a known 1-based position.
    pub fn at(line: usize, column: usize, msg: String) -> (r: Self)
        ensures
            r@ == (ParseErrorView { line: line as nat, column: column as nat, msg: msg@ }),
    {
        ParseError { line, column, msg }
    }

    /// A `ParseError` with no position information.
    pub fn msg(msg: String) -> (r: Self)
        ensures
            r@ == (ParseErrorView { line: 0, column: 0, msg: msg@ }),
    {
        ParseError { line: 0, column: 0, msg }
    }

    /// The rendered error: `line L:C: msg`, or `msg` when the line is unknown.
    pub fn to_string(&self) -> (r: String)
        ensures
            r@ == parse_error_text(self@),
    {
        if self.line > 0 {
            let mut v = chars_of("line ");
            push_str(&mut v, decimal_string(self.line as u64).as_str());
            push_str(&mut v, ":");
            push_str(&mut v, decimal_string(self.column as u64).as_str());
            push_str(&mut v, ": ");
            push_str(&mut v, self.msg.as_str());
            string_of(v.as_slice())
        } else {
            let v = chars_of(self.msg.as_str());
            string_of(v.as_slice())
        }
    }
}

/// Failure to load a profile: either the file could not be read or its
/// contents did not parse.
#[derive(Debug, Clone, PartialEq, Eq)]
pub enum LoadError {
    /// The profile file could not be opened or read.
    Open {
        /// The path that failed to open.
        path: String,
        /// What the operating system reported.
        reason: String,
    },
    /// The profile file opened but its contents did not parse.
    Parse {
        /// The path whose contents failed to parse.
        path: String,
        /// The underlying parse error.
        source: ParseError,
    },
}

/// How a load error renders: `config: open …` or `config: parse …`.
pub open spec fn load_error_text(e: LoadError) -> Seq<char> {
    match e {
        LoadError::Open { path, reason } => "config: open "@ + path@ + ": "@ + reason@,
        LoadError::Parse { path, source } => "config: parse "@ + path@ + ": "@ + parse_error_text(
            source@,
        ),
    }
}

impl LoadError {
    /// The rendered error.
    pub fn to_string(&self) -> (r: String)
        ensures
            r@ == load_error_text(*self),
    {
        match self {
            LoadError::Open { path, reason } => {
                let mut v = chars_of("config: open ");
                push_str(&mut v, path.as_str());
                push_str(&mut v, ": ");
                push_str(&mut v, reason.as_str());
                string_of(v.as_slice())
            },
            LoadError::Parse { path, source } => {
                let mut v = chars_of("config: parse ");
                push_str(&mut v, path.as_str());
                push_str(&mut v, ": ");
                push_str(&mut v, source.to_string().as_str());
                string_of(v.as_slice())
            },
        }
    }
}

} // verus!
