//! The profile parser: from the YAML tree to the typed [`Config`].
//!
//! Mapping declaration order is execution order, every error carries the
//! position of the node it is about, scalars are read as raw text, and unknown
//! keys are rejected at every nesting level.

use vstd::prelude::*;

use super::error::{LoadError, ParseError, ParseErrorView};
use super::model::{
    Clean, CleanEntry, CleanEntryView, CleanOptions, Config, ConfigView, Create, CreateEntry,
    CreateEntryView, Defaults, DefaultsView, Directive, DirectiveKind, DirectiveKindView,
    DirectiveView, kind_name, Link, LinkEntry, LinkEntryView, LinkOptions, LinkOptionsView, Shell,
    ShellEntry, ShellEntryView, ShellOptions, texts, seq_views, lemma_seq_views_push, unset_clean_options, unset_link_options,
    unset_shell_options,
};
use super::yaml::{load_yaml, yaml_document, Mark, YamlEntry, YamlLoadError, YamlNode, YamlScalar};
use crate::engine::path::split_on;
use crate::text::{
    chars_of, debug_quoted, debug_quoted_text, is_white, is_white_char, push_str, str_eq,
    string_of,
};

verus! {

// ── results and errors ─────────────────────────────────────────────────────

/// A parse result with the value and the error taken by their views.
pub open spec fn viewed<T: View>(r: Result<T, ParseError>) -> Result<T::V, ParseErrorView> {
    match r {
        Ok(v) => Ok(v@),
        Err(e) => Err(e@),
    }
}

/// Where a node starts.
pub open spec fn node_start(n: YamlNode) -> Option<Mark> {
    match n {
        YamlNode::Scalar(s) => s.start,
        YamlNode::Mapping(_, m) => m,
        YamlNode::Sequence(_, m) => m,
    }
}

/// An error at a position, or without one.
pub open spec fn error_at_mark(m: Option<Mark>, msg: Seq<char>) -> ParseErrorView {
    match m {
        Some(mk) => ParseErrorView { line: mk.line as nat, column: mk.column as nat, msg },
        None => ParseErrorView { line: 0, column: 0, msg },
    }
}

/// An error at the start of a node.
pub open spec fn error_at(n: YamlNode, msg: Seq<char>) -> ParseErrorView {
    error_at_mark(node_start(n), msg)
}

fn err_mark(m: Option<Mark>, msg: String) -> (e: ParseError)
    ensures
        e@ == error_at_mark(m, msg@),
{
    match m {
        Some(mk) => ParseError::at(mk.line, mk.column, msg),
        None => ParseError::msg(msg),
    }
}

fn start_of(n: &YamlNode) -> (m: Option<Mark>)
    ensures
        m == node_start(*n),
{
    match n {
        YamlNode::Scalar(s) => s.start,
        YamlNode::Mapping(_, m) => *m,
        YamlNode::Sequence(_, m) => *m,
    }
}

fn err_at(n: &YamlNode, msg: String) -> (e: ParseError)
    ensures
        e@ == error_at(*n, msg@),
{
    err_mark(start_of(n), msg)
}

fn err_key(k: &YamlScalar, msg: String) -> (e: ParseError)
    ensures
        e@ == error_at_mark(k.start, msg@),
{
    err_mark(k.start, msg)
}

/// The literal text as an owned string.
fn lit(s: &str) -> (r: String)
    ensures
        r@ == s@,
{
    let v = chars_of(s);
    string_of(v.as_slice())
}

/// `a` followed by the quoted `b`.
fn quoted_after(a: &str, b: &String) -> (r: String)
    ensures
        r@ == a@ + debug_quoted_text(b@),
{
    let mut v = chars_of(a);
    push_str(&mut v, debug_quoted(b.as_str()).as_str());
    string_of(v.as_slice())
}

/// `a`, the quoted `b`, then `c`.
fn quoted_between(a: &str, b: &String, c: &str) -> (r: String)
    ensures
        r@ == a@ + debug_quoted_text(b@) + c@,
{
    let mut v = chars_of(a);
    push_str(&mut v, debug_quoted(b.as_str()).as_str());
    push_str(&mut v, c);
    string_of(v.as_slice())
}

fn key_is(k: &YamlScalar, word: &str) -> (r: bool)
    ensures
        r == (k.text@ == word@),
{
    str_eq(k.text.as_str(), word)
}

// ── folds over mappings and sequences ──────────────────────────────────────

/// Runs `step` over the entries in order, stopping at the first error.
pub open spec fn fold_entries<T>(
    es: Seq<YamlEntry>,
    init: T,
    step: spec_fn(T, YamlEntry) -> Result<T, ParseErrorView>,
) -> Result<T, ParseErrorView>
    decreases es.len(),
{
    if es.len() == 0 {
        Ok(init)
    } else {
        match fold_entries(es.drop_last(), init, step) {
            Ok(acc) => step(acc, es.last()),
            Err(e) => Err(e),
        }
    }
}

/// Runs `step` over the items in order, stopping at the first error.
pub open spec fn fold_items<T>(
    items: Seq<YamlNode>,
    init: T,
    step: spec_fn(T, YamlNode) -> Result<T, ParseErrorView>,
) -> Result<T, ParseErrorView>
    decreases items.len(),
{
    if items.len() == 0 {
        Ok(init)
    } else {
        match fold_items(items.drop_last(), init, step) {
            Ok(acc) => step(acc, items.last()),
            Err(e) => Err(e),
        }
    }
}

pub proof fn lemma_fold_entries_next<T>(
    es: Seq<YamlEntry>,
    i: int,
    init: T,
    step: spec_fn(T, YamlEntry) -> Result<T, ParseErrorView>,
)
    requires
        0 <= i < es.len(),
    ensures
        fold_entries(es.take(i + 1), init, step) == match fold_entries(es.take(i), init, step) {
            Ok(acc) => step(acc, es[i]),
            Err(e) => Err(e),
        },
{
    assert(es.take(i + 1).drop_last() =~= es.take(i));
    assert(es.take(i + 1).last() == es[i]);
}

/// Once the fold over a prefix has failed, the fold over the whole fails the
/// same way.
pub proof fn lemma_fold_entries_stops<T>(
    es: Seq<YamlEntry>,
    i: int,
    init: T,
    step: spec_fn(T, YamlEntry) -> Result<T, ParseErrorView>,
)
    requires
        0 <= i <= es.len(),
        fold_entries(es.take(i), init, step) is Err,
    ensures
        fold_entries(es, init, step) == fold_entries(es.take(i), init, step),
    decreases es.len() - i,
{
    if i == es.len() {
        assert(es.take(i) =~= es);
    } else {
        lemma_fold_entries_next(es, i, init, step);
        lemma_fold_entries_stops(es, i + 1, init, step);
    }
}

/// Once the fold over a prefix has failed, the fold over the whole fails the
/// same way.
pub proof fn lemma_fold_items_stops<T>(
    items: Seq<YamlNode>,
    i: int,
    init: T,
    step: spec_fn(T, YamlNode) -> Result<T, ParseErrorView>,
)
    requires
        0 <= i <= items.len(),
        fold_items(items.take(i), init, step) is Err,
    ensures
        fold_items(items, init, step) == fold_items(items.take(i), init, step),
    decreases items.len() - i,
{
    if i == items.len() {
        assert(items.take(i) =~= items);
    } else {
        lemma_fold_items_next(items, i, init, step);
        lemma_fold_items_stops(items, i + 1, init, step);
    }
}

pub proof fn lemma_fold_items_next<T>(
    items: Seq<YamlNode>,
    i: int,
    init: T,
    step: spec_fn(T, YamlNode) -> Result<T, ParseErrorView>,
)
    requires
        0 <= i < items.len(),
    ensures
        fold_items(items.take(i + 1), init, step) == match fold_items(items.take(i), init, step) {
            Ok(acc) => step(acc, items[i]),
            Err(e) => Err(e),
        },
{
    assert(items.take(i + 1).drop_last() =~= items.take(i));
    assert(items.take(i + 1).last() == items[i]);
}

// ── scalars ────────────────────────────────────────────────────────────────

/// Words read as `true`.
pub open spec fn is_true_word(t: Seq<char>) -> bool {
    t == "true"@ || t == "yes"@ || t == "on"@
}

/// Words read as `false`.
pub open spec fn is_false_word(t: Seq<char>) -> bool {
    t == "false"@ || t == "no"@ || t == "off"@
}

/// A boolean scalar: only `true/yes/on` and `false/no/off`.
pub open spec fn bool_value(n: YamlNode) -> Result<bool, ParseErrorView> {
    match n {
        YamlNode::Scalar(s) => if is_true_word(s.text@) {
            Ok(true)
        } else if is_false_word(s.text@) {
            Ok(false)
        } else {
            Err(error_at_mark(s.start, "invalid boolean "@ + debug_quoted_text(s.text@)))
        },
        _ => Err(error_at(n, "expected boolean"@)),
    }
}

/// A string scalar's raw text.
pub open spec fn text_value(n: YamlNode) -> Result<Seq<char>, ParseErrorView> {
    match n {
        YamlNode::Scalar(s) => Ok(s.text@),
        _ => Err(error_at(n, "expected a string scalar"@)),
    }
}

/// A scalar's raw text, or empty for other nodes.
pub open spec fn item_text(n: YamlNode) -> Seq<char> {
    match n {
        YamlNode::Scalar(s) => s.text@,
        _ => Seq::empty(),
    }
}

/// Parse a boolean scalar. Accepts only `true/yes/on` and `false/no/off`.
fn scalar_bool(n: &YamlNode) -> (r: Result<bool, ParseError>)
    ensures
        match r {
            Ok(b) => bool_value(*n) == Ok::<bool, ParseErrorView>(b),
            Err(e) => bool_value(*n) == Err::<bool, ParseErrorView>(e@),
        },
{
    match n {
        YamlNode::Scalar(s) => {
            let t = s.text.as_str();
            if str_eq(t, "true") || str_eq(t, "yes") || str_eq(t, "on") {
                Ok(true)
            } else if str_eq(t, "false") || str_eq(t, "no") || str_eq(t, "off") {
                Ok(false)
            } else {
                Err(err_mark(s.start, quoted_after("invalid boolean ", &s.text)))
            }
        },
        _ => Err(err_at(n, lit("expected boolean"))),
    }
}

/// Read a scalar node's raw string, erroring if it is not a scalar.
fn scalar_str(n: &YamlNode) -> (r: Result<String, ParseError>)
    ensures
        match r {
            Ok(t) => text_value(*n) == Ok::<Seq<char>, ParseErrorView>(t@),
            Err(e) => text_value(*n) == Err::<Seq<char>, ParseErrorView>(e@),
        },
{
    match n {
        YamlNode::Scalar(s) => Ok(s.text.clone()),
        _ => Err(err_at(n, lit("expected a string scalar"))),
    }
}

/// The raw string of a node when it is a scalar, else empty.
fn node_value_str(n: &YamlNode) -> (r: String)
    ensures
        r@ == item_text(*n),
{
    match n {
        YamlNode::Scalar(s) => s.text.clone(),
        _ => String::new(),
    }
}


// ── link options ───────────────────────────────────────────────────────────

/// One `key: value` of a link options mapping applied to `o`.
pub open spec fn link_option_step(o: LinkOptionsView, k: YamlScalar, v: YamlNode) -> Result<
    LinkOptionsView,
    ParseErrorView,
> {
    let key = k.text@;
    if key == "path"@ {
        match text_value(v) {
            Ok(t) => Ok(LinkOptionsView { path: Some(t), ..o }),
            Err(e) => Err(e),
        }
    } else if key == "create"@ {
        match bool_value(v) {
            Ok(b) => Ok(LinkOptionsView { create: Some(b), ..o }),
            Err(e) => Err(e),
        }
    } else if key == "relink"@ {
        match bool_value(v) {
            Ok(b) => Ok(LinkOptionsView { relink: Some(b), ..o }),
            Err(e) => Err(e),
        }
    } else if key == "force"@ {
        match bool_value(v) {
            Ok(b) => Ok(LinkOptionsView { force: Some(b), ..o }),
            Err(e) => Err(e),
        }
    } else if key == "relative"@ {
        match bool_value(v) {
            Ok(b) => Ok(LinkOptionsView { relative: Some(b), ..o }),
            Err(e) => Err(e),
        }
    } else if key == "glob"@ {
        match bool_value(v) {
            Ok(b) => Ok(LinkOptionsView { glob: Some(b), ..o }),
            Err(e) => Err(e),
        }
    } else if key == "ignore-missing"@ {
        match bool_value(v) {
            Ok(b) => Ok(LinkOptionsView { ignore_missing: Some(b), ..o }),
            Err(e) => Err(e),
        }
    } else if key == "backup"@ {
        match bool_value(v) {
            Ok(b) => Ok(LinkOptionsView { backup: Some(b), ..o }),
            Err(e) => Err(e),
        }
    } else if key == "type"@ {
        match text_value(v) {
            Ok(t) => if t == "symlink"@ || t == "hardlink"@ {
                Ok(LinkOptionsView { link_type: Some(t), ..o })
            } else {
                Err(
                    error_at(
                        v,
                        "link type must be \"symlink\" or \"hardlink\", got "@ + debug_quoted_text(
                            t,
                        ),
                    ),
                )
            },
            Err(e) => Err(e),
        }
    } else if key == "canonicalize"@ || key == "canonicalize-path"@ {
        match bool_value(v) {
            Ok(b) => Ok(LinkOptionsView { canonicalize: Some(b), ..o }),
            Err(e) => Err(e),
        }
    } else if key == "prefix"@ {
        match text_value(v) {
            Ok(t) => Ok(LinkOptionsView { prefix: Some(t), ..o }),
            Err(e) => Err(e),
        }
    } else if key == "exclude"@ {
        match v {
            YamlNode::Sequence(items, _) => Ok(
                LinkOptionsView { exclude: items@.map_values(|i: YamlNode| item_text(i)), ..o },
            ),
            _ => Err(error_at(v, "link exclude must be a sequence"@)),
        }
    } else if key == "if"@ {
        Err(
            error_at_mark(
                k.start,
                "link: 'if' directive is not supported; conditionals were removed"@,
            ),
        )
    } else {
        Err(error_at_mark(k.start, "link: unknown option "@ + debug_quoted_text(key)))
    }
}

/// [`link_option_step`] on a mapping entry.
pub open spec fn link_option_entry() -> spec_fn(LinkOptionsView, YamlEntry) -> Result<
    LinkOptionsView,
    ParseErrorView,
> {
    |o: LinkOptionsView, e: YamlEntry| link_option_step(o, e.key, e.value)
}

/// A link options mapping.
pub open spec fn link_options_of(n: YamlNode) -> Result<LinkOptionsView, ParseErrorView> {
    match n {
        YamlNode::Mapping(es, _) => fold_entries(es@, unset_link_options(), link_option_entry()),
        _ => Err(error_at(n, "link options must be a mapping"@)),
    }
}

fn set_bool(r: Result<bool, ParseError>) -> (out: Result<bool, ParseError>)
    ensures
        out == r,
{
    r
}

fn exclude_list(items: &Vec<YamlNode>) -> (r: Vec<String>)
    ensures
        texts(r@) == items@.map_values(|i: YamlNode| item_text(i)),
{
    let mut r: Vec<String> = Vec::new();
    let mut i: usize = 0;
    while i < items.len()
        invariant
            i <= items@.len(),
            r@.len() == i,
            texts(r@) == items@.map_values(|i: YamlNode| item_text(i)).take(i as int),
        decreases items.len() - i,
    {
        let ghost before = r@;
        let t = node_value_str(&items[i]);
        r.push(t);
        i = i + 1;
        assert forall|k: int| 0 <= k < i implies #[trigger] texts(r@)[k] == items@.map_values(
            |i: YamlNode| item_text(i),
        ).take(i as int)[k] by {
            if k < i - 1 {
                assert(r@[k] == before[k]);
                assert(texts(before)[k] == items@.map_values(|i: YamlNode| item_text(i)).take(
                    i - 1,
                )[k]);
            }
        }
        assert(texts(r@) =~= items@.map_values(|i: YamlNode| item_text(i)).take(i as int));
    }
    assert(items@.map_values(|i: YamlNode| item_text(i)).take(items@.len() as int)
        =~= items@.map_values(|i: YamlNode| item_text(i)));
    r
}

/// Applies one `key: value` of a link options mapping.
fn apply_link_option(o: LinkOptions, k: &YamlScalar, v: &YamlNode) -> (r: Result<
    LinkOptions,
    ParseError,
>)
    ensures
        viewed(r) == link_option_step(o@, *k, *v),
{
    let mut o = o;
    if key_is(k, "path") {
        match scalar_str(v) {
            Ok(t) => {
                o.path = Some(t);
                Ok(o)
            },
            Err(e) => Err(e),
        }
    } else if key_is(k, "create") {
        match scalar_bool(v) {
            Ok(b) => {
                o.create = Some(b);
                Ok(o)
            },
            Err(e) => Err(e),
        }
    } else if key_is(k, "relink") {
        match scalar_bool(v) {
            Ok(b) => {
                o.relink = Some(b);
                Ok(o)
            },
            Err(e) => Err(e),
        }
    } else if key_is(k, "force") {
        match scalar_bool(v) {
            Ok(b) => {
                o.force = Some(b);
                Ok(o)
            },
            Err(e) => Err(e),
        }
    } else if key_is(k, "relative") {
        match scalar_bool(v) {
            Ok(b) => {
                o.relative = Some(b);
                Ok(o)
            },
            Err(e) => Err(e),
        }
    } else if key_is(k, "glob") {
        match scalar_bool(v) {
            Ok(b) => {
                o.glob = Some(b);
                Ok(o)
            },
            Err(e) => Err(e),
        }
    } else if key_is(k, "ignore-missing") {
        match scalar_bool(v) {
            Ok(b) => {
                o.ignore_missing = Some(b);
                Ok(o)
            },
            Err(e) => Err(e),
        }
    } else if key_is(k, "backup") {
        match scalar_bool(v) {
            Ok(b) => {
                o.backup = Some(b);
                Ok(o)
            },
            Err(e) => Err(e),
        }
    } else if key_is(k, "type") {
        match scalar_str(v) {
            Ok(t) => {
                if str_eq(t.as_str(), "symlink") || str_eq(t.as_str(), "hardlink") {
                    o.link_type = Some(t);
                    Ok(o)
                } else {
                    Err(
                        err_at(
                            v,
                            quoted_after("link type must be \"symlink\" or \"hardlink\", got ", &t),
                        ),
                    )
                }
            },
            Err(e) => Err(e),
        }
    } else if key_is(k, "canonicalize") || key_is(k, "canonicalize-path") {
        match scalar_bool(v) {
            Ok(b) => {
                o.canonicalize = Some(b);
                Ok(o)
            },
            Err(e) => Err(e),
        }
    } else if key_is(k, "prefix") {
        match scalar_str(v) {
            Ok(t) => {
                o.prefix = Some(t);
                Ok(o)
            },
            Err(e) => Err(e),
        }
    } else if key_is(k, "exclude") {
        match v {
            YamlNode::Sequence(items, _) => {
                o.exclude = exclude_list(items);
                Ok(o)
            },
            _ => Err(err_at(v, lit("link exclude must be a sequence"))),
        }
    } else if key_is(k, "if") {
        Err(err_key(k, lit("link: 'if' directive is not supported; conditionals were removed")))
    } else {
        Err(err_key(k, quoted_after("link: unknown option ", &k.text)))
    }
}

/// Parse a link options mapping.
fn parse_link_options(n: &YamlNode) -> (r: Result<LinkOptions, ParseError>)
    ensures
        viewed(r) == link_options_of(*n),
{
    match n {
        YamlNode::Mapping(es, _) => {
            let mut o = LinkOptions::default();
            let mut i: usize = 0;
            while i < es.len()
                invariant
                    i <= es@.len(),
                    link_options_of(*n) == fold_entries(es@, unset_link_options(), link_option_entry()),
                    fold_entries(es@.take(i as int), unset_link_options(), link_option_entry())
                        == Ok::<LinkOptionsView, ParseErrorView>(o@),
                decreases es.len() - i,
            {
                proof {
                    lemma_fold_entries_next(es@, i as int, unset_link_options(), link_option_entry());
                }
                let ghost ov = o@;
                assert(link_option_entry()(ov, es@[i as int]) == link_option_step(
                    ov,
                    es@[i as int].key,
                    es@[i as int].value,
                ));
                match apply_link_option(o, &es[i].key, &es[i].value) {
                    Ok(next) => {
                        o = next;
                    },
                    Err(e) => {
                        proof {
                            lemma_fold_entries_stops(
                                es@,
                                i as int + 1,
                                unset_link_options(),
                                link_option_entry(),
                            );
                        }
                        return Err(e);
                    },
                }
                i = i + 1;
            }
            assert(es@.take(es@.len() as int) =~= es@);
            Ok(o)
        },
        _ => Err(err_at(n, lit("link options must be a mapping"))),
    }
}


// ── shell and clean options ────────────────────────────────────────────────

/// One `key: value` of a shell options mapping applied to `o`.
pub open spec fn shell_option_step(o: ShellOptions, k: YamlScalar, v: YamlNode) -> Result<
    ShellOptions,
    ParseErrorView,
> {
    let key = k.text@;
    if key == "stdin"@ {
        match bool_value(v) {
            Ok(b) => Ok(ShellOptions { stdin: Some(b), ..o }),
            Err(e) => Err(e),
        }
    } else if key == "stdout"@ {
        match bool_value(v) {
            Ok(b) => Ok(ShellOptions { stdout: Some(b), ..o }),
            Err(e) => Err(e),
        }
    } else if key == "stderr"@ {
        match bool_value(v) {
            Ok(b) => Ok(ShellOptions { stderr: Some(b), ..o }),
            Err(e) => Err(e),
        }
    } else if key == "quiet"@ {
        match bool_value(v) {
            Ok(b) => Ok(ShellOptions { quiet: Some(b), ..o }),
            Err(e) => Err(e),
        }
    } else {
        Err(error_at_mark(k.start, "shell defaults: unknown key "@ + debug_quoted_text(key)))
    }
}

/// [`shell_option_step`] on a mapping entry.
pub open spec fn shell_option_entry() -> spec_fn(ShellOptions, YamlEntry) -> Result<
    ShellOptions,
    ParseErrorView,
> {
    |o: ShellOptions, e: YamlEntry| shell_option_step(o, e.key, e.value)
}

/// A shell options mapping (the `shell:` section of `defaults:`).
pub open spec fn shell_options_of(n: YamlNode) -> Result<ShellOptions, ParseErrorView> {
    match n {
        YamlNode::Mapping(es, _) => fold_entries(es@, unset_shell_options(), shell_option_entry()),
        _ => Err(error_at(n, "shell options must be a mapping"@)),
    }
}

fn apply_shell_option(o: ShellOptions, k: &YamlScalar, v: &YamlNode) -> (r: Result<
    ShellOptions,
    ParseError,
>)
    ensures
        viewed(r) == shell_option_step(o, *k, *v),
{
    let mut o = o;
    if key_is(k, "stdin") {
        match scalar_bool(v) {
            Ok(b) => {
                o.stdin = Some(b);
                Ok(o)
            },
            Err(e) => Err(e),
        }
    } else if key_is(k, "stdout") {
        match scalar_bool(v) {
            Ok(b) => {
                o.stdout = Some(b);
                Ok(o)
            },
            Err(e) => Err(e),
        }
    } else if key_is(k, "stderr") {
        match scalar_bool(v) {
            Ok(b) => {
                o.stderr = Some(b);
                Ok(o)
            },
            Err(e) => Err(e),
        }
    } else if key_is(k, "quiet") {
        match scalar_bool(v) {
            Ok(b) => {
                o.quiet = Some(b);
                Ok(o)
            },
            Err(e) => Err(e),
        }
    } else {
        Err(err_key(k, quoted_after("shell defaults: unknown key ", &k.text)))
    }
}

fn parse_shell_options(n: &YamlNode) -> (r: Result<ShellOptions, ParseError>)
    ensures
        viewed(r) == shell_options_of(*n),
{
    match n {
        YamlNode::Mapping(es, _) => {
            let mut o = ShellOptions::default();
            let mut i: usize = 0;
            while i < es.len()
                invariant
                    i <= es@.len(),
                    shell_options_of(*n) == fold_entries(es@, unset_shell_options(), shell_option_entry()),
                    fold_entries(es@.take(i as int), unset_shell_options(), shell_option_entry())
                        == Ok::<ShellOptions, ParseErrorView>(o),
                decreases es.len() - i,
            {
                proof {
                    lemma_fold_entries_next(es@, i as int, unset_shell_options(), shell_option_entry());
                }
                assert(shell_option_entry()(o, es@[i as int]) == shell_option_step(
                    o,
                    es@[i as int].key,
                    es@[i as int].value,
                ));
                match apply_shell_option(o, &es[i].key, &es[i].value) {
                    Ok(next) => {
                        o = next;
                    },
                    Err(e) => {
                        proof {
                            lemma_fold_entries_stops(es@, i as int + 1, unset_shell_options(), shell_option_entry());
                        }
                        return Err(e);
                    },
                }
                i = i + 1;
            }
            assert(es@.take(es@.len() as int) =~= es@);
            Ok(o)
        },
        _ => Err(err_at(n, lit("shell options must be a mapping"))),
    }
}

/// One `key: value` of a clean options mapping applied to `o`.
pub open spec fn clean_option_step(o: CleanOptions, k: YamlScalar, v: YamlNode) -> Result<
    CleanOptions,
    ParseErrorView,
> {
    let key = k.text@;
    if key == "force"@ {
        match bool_value(v) {
            Ok(b) => Ok(CleanOptions { force: Some(b), ..o }),
            Err(e) => Err(e),
        }
    } else if key == "recursive"@ {
        match bool_value(v) {
            Ok(b) => Ok(CleanOptions { recursive: Some(b), ..o }),
            Err(e) => Err(e),
        }
    } else {
        Err(error_at_mark(k.start, "clean: unknown option "@ + debug_quoted_text(key)))
    }
}

/// [`clean_option_step`] on a mapping entry.
pub open spec fn clean_option_entry() -> spec_fn(CleanOptions, YamlEntry) -> Result<
    CleanOptions,
    ParseErrorView,
> {
    |o: CleanOptions, e: YamlEntry| clean_option_step(o, e.key, e.value)
}

/// A clean options mapping.
pub open spec fn clean_options_of(n: YamlNode) -> Result<CleanOptions, ParseErrorView> {
    match n {
        YamlNode::Mapping(es, _) => fold_entries(es@, unset_clean_options(), clean_option_entry()),
        _ => Err(error_at(n, "clean options must be a mapping"@)),
    }
}

fn apply_clean_option(o: CleanOptions, k: &YamlScalar, v: &YamlNode) -> (r: Result<
    CleanOptions,
    ParseError,
>)
    ensures
        viewed(r) == clean_option_step(o, *k, *v),
{
    let mut o = o;
    if key_is(k, "force") {
        match scalar_bool(v) {
            Ok(b) => {
                o.force = Some(b);
                Ok(o)
            },
            Err(e) => Err(e),
        }
    } else if key_is(k, "recursive") {
        match scalar_bool(v) {
            Ok(b) => {
                o.recursive = Some(b);
                Ok(o)
            },
            Err(e) => Err(e),
        }
    } else {
        Err(err_key(k, quoted_after("clean: unknown option ", &k.text)))
    }
}

fn parse_clean_options(n: &YamlNode) -> (r: Result<CleanOptions, ParseError>)
    ensures
        viewed(r) == clean_options_of(*n),
{
    match n {
        YamlNode::Mapping(es, _) => {
            let mut o = CleanOptions::default();
            let mut i: usize = 0;
            while i < es.len()
                invariant
                    i <= es@.len(),
                    clean_options_of(*n) == fold_entries(es@, unset_clean_options(), clean_option_entry()),
                    fold_entries(es@.take(i as int), unset_clean_options(), clean_option_entry())
                        == Ok::<CleanOptions, ParseErrorView>(o),
                decreases es.len() - i,
            {
                proof {
                    lemma_fold_entries_next(es@, i as int, unset_clean_options(), clean_option_entry());
                }
                assert(clean_option_entry()(o, es@[i as int]) == clean_option_step(
                    o,
                    es@[i as int].key,
                    es@[i as int].value,
                ));
                match apply_clean_option(o, &es[i].key, &es[i].value) {
                    Ok(next) => {
                        o = next;
                    },
                    Err(e) => {
                        proof {
                            lemma_fold_entries_stops(es@, i as int + 1, unset_clean_options(), clean_option_entry());
                        }
                        return Err(e);
                    },
                }
                i = i + 1;
            }
            assert(es@.take(es@.len() as int) =~= es@);
            Ok(o)
        },
        _ => Err(err_at(n, lit("clean options must be a mapping"))),
    }
}

// ── defaults ───────────────────────────────────────────────────────────────

/// No defaults set.
pub open spec fn no_defaults() -> DefaultsView {
    DefaultsView { link: None, shell: None, clean: None }
}

/// One section of a `defaults:` mapping applied to `d`. A `create` section is
/// accepted and ignored.
pub open spec fn defaults_step(d: DefaultsView, k: YamlScalar, v: YamlNode) -> Result<
    DefaultsView,
    ParseErrorView,
> {
    let key = k.text@;
    if key == "link"@ {
        match link_options_of(v) {
            Ok(l) => Ok(DefaultsView { link: Some(l), ..d }),
            Err(e) => Err(e),
        }
    } else if key == "shell"@ {
        match shell_options_of(v) {
            Ok(o) => Ok(DefaultsView { shell: Some(o), ..d }),
            Err(e) => Err(e),
        }
    } else if key == "clean"@ {
        match clean_options_of(v) {
            Ok(o) => Ok(DefaultsView { clean: Some(o), ..d }),
            Err(e) => Err(e),
        }
    } else if key == "create"@ {
        Ok(d)
    } else {
        Err(error_at_mark(k.start, "defaults: unknown section "@ + debug_quoted_text(key)))
    }
}

/// [`defaults_step`] on a mapping entry.
pub open spec fn defaults_entry() -> spec_fn(DefaultsView, YamlEntry) -> Result<
    DefaultsView,
    ParseErrorView,
> {
    |d: DefaultsView, e: YamlEntry| defaults_step(d, e.key, e.value)
}

/// A `defaults:` mapping.
pub open spec fn defaults_of(n: YamlNode) -> Result<DefaultsView, ParseErrorView> {
    match n {
        YamlNode::Mapping(es, _) => fold_entries(es@, no_defaults(), defaults_entry()),
        _ => Err(error_at(n, "defaults: must be a mapping"@)),
    }
}

fn apply_defaults_section(d: Defaults, k: &YamlScalar, v: &YamlNode) -> (r: Result<
    Defaults,
    ParseError,
>)
    ensures
        viewed(r) == defaults_step(d@, *k, *v),
{
    let mut d = d;
    if key_is(k, "link") {
        match parse_link_options(v) {
            Ok(l) => {
                d.link = Some(l);
                Ok(d)
            },
            Err(e) => Err(e),
        }
    } else if key_is(k, "shell") {
        match parse_shell_options(v) {
            Ok(o) => {
                d.shell = Some(o);
                Ok(d)
            },
            Err(e) => Err(e),
        }
    } else if key_is(k, "clean") {
        match parse_clean_options(v) {
            Ok(o) => {
                d.clean = Some(o);
                Ok(d)
            },
            Err(e) => Err(e),
        }
    } else if key_is(k, "create") {
        Ok(d)
    } else {
        Err(err_key(k, quoted_after("defaults: unknown section ", &k.text)))
    }
}

fn parse_defaults(n: &YamlNode) -> (r: Result<Defaults, ParseError>)
    ensures
        viewed(r) == defaults_of(*n),
{
    match n {
        YamlNode::Mapping(es, _) => {
            let mut d = Defaults::default();
            let mut i: usize = 0;
            while i < es.len()
                invariant
                    i <= es@.len(),
                    defaults_of(*n) == fold_entries(es@, no_defaults(), defaults_entry()),
                    fold_entries(es@.take(i as int), no_defaults(), defaults_entry())
                        == Ok::<DefaultsView, ParseErrorView>(d@),
                decreases es.len() - i,
            {
                proof {
                    lemma_fold_entries_next(es@, i as int, no_defaults(), defaults_entry());
                }
                let ghost dv = d@;
                assert(defaults_entry()(dv, es@[i as int]) == defaults_step(
                    dv,
                    es@[i as int].key,
                    es@[i as int].value,
                ));
                match apply_defaults_section(d, &es[i].key, &es[i].value) {
                    Ok(next) => {
                        d = next;
                    },
                    Err(e) => {
                        proof {
                            lemma_fold_entries_stops(es@, i as int + 1, no_defaults(), defaults_entry());
                        }
                        return Err(e);
                    },
                }
                i = i + 1;
            }
            assert(es@.take(es@.len() as int) =~= es@);
            Ok(d)
        },
        _ => Err(err_at(n, lit("defaults: must be a mapping"))),
    }
}


// ── link ───────────────────────────────────────────────────────────────────

/// One `target: source` (or `target: {options}`) entry of `link:`.
pub open spec fn link_entry_of(k: YamlScalar, v: YamlNode) -> Result<LinkEntryView, ParseErrorView> {
    match v {
        YamlNode::Scalar(s) => Ok(
            LinkEntryView {
                target: k.text@,
                options: LinkOptionsView { path: Some(s.text@), ..unset_link_options() },
            },
        ),
        YamlNode::Mapping(_, _) => match link_options_of(v) {
            Ok(o) => Ok(LinkEntryView { target: k.text@, options: o }),
            Err(e) => Err(e),
        },
        _ => Err(
            error_at(
                v,
                "link "@ + debug_quoted_text(k.text@) + ": value must be a string or mapping"@,
            ),
        ),
    }
}

/// [`link_entry_of`] appended to the entries so far.
pub open spec fn link_entry_step() -> spec_fn(Seq<LinkEntryView>, YamlEntry) -> Result<
    Seq<LinkEntryView>,
    ParseErrorView,
> {
    |acc: Seq<LinkEntryView>, e: YamlEntry|
        match link_entry_of(e.key, e.value) {
            Ok(le) => Ok(acc.push(le)),
            Err(x) => Err(x),
        }
}

/// A `link:` mapping of target to source.
pub open spec fn links_of(n: YamlNode) -> Result<Seq<LinkEntryView>, ParseErrorView> {
    match n {
        YamlNode::Mapping(es, _) => fold_entries(es@, Seq::empty(), link_entry_step()),
        _ => Err(error_at(n, "link: must be a mapping of target\u{2192}source"@)),
    }
}

fn parse_link_entry(k: &YamlScalar, v: &YamlNode) -> (r: Result<LinkEntry, ParseError>)
    ensures
        viewed(r) == link_entry_of(*k, *v),
{
    match v {
        YamlNode::Scalar(s) => {
            let mut options = LinkOptions::default();
            options.path = Some(s.text.clone());
            Ok(LinkEntry { target: k.text.clone(), options })
        },
        YamlNode::Mapping(_, _) => match parse_link_options(v) {
            Ok(o) => Ok(LinkEntry { target: k.text.clone(), options: o }),
            Err(e) => Err(e),
        },
        _ => Err(err_at(v, quoted_between("link ", &k.text, ": value must be a string or mapping"))),
    }
}

fn parse_link(n: &YamlNode) -> (r: Result<Link, ParseError>)
    ensures
        viewed(r) == links_of(*n),
{
    match n {
        YamlNode::Mapping(es, _) => {
            let mut entries: Vec<LinkEntry> = Vec::new();
            let mut i: usize = 0;
            assert(seq_views(entries@) =~= Seq::<LinkEntryView>::empty());
            assert(es@.take(0) =~= Seq::<YamlEntry>::empty());
            while i < es.len()
                invariant
                    i <= es@.len(),
                    links_of(*n) == fold_entries(es@, Seq::empty(), link_entry_step()),
                    fold_entries(es@.take(i as int), Seq::empty(), link_entry_step())
                        == Ok::<Seq<LinkEntryView>, ParseErrorView>(seq_views(entries@)),
                decreases es.len() - i,
            {
                proof {
                    lemma_fold_entries_next(es@, i as int, Seq::empty(), link_entry_step());
                }
                match parse_link_entry(&es[i].key, &es[i].value) {
                    Ok(le) => {
                        proof {
                            lemma_seq_views_push(entries@, le);
                        }
                        entries.push(le);
                    },
                    Err(e) => {
                        proof {
                            lemma_fold_entries_stops(es@, i as int + 1, Seq::empty(), link_entry_step());
                        }
                        return Err(e);
                    },
                }
                i = i + 1;
            }
            assert(es@.take(es@.len() as int) =~= es@);
            Ok(Link { entries })
        },
        _ => Err(err_at(n, lit("link: must be a mapping of target\u{2192}source"))),
    }
}

// ── shell ──────────────────────────────────────────────────────────────────

/// A shell entry with nothing set.
pub open spec fn blank_shell_entry() -> ShellEntryView {
    ShellEntryView {
        command: Seq::empty(),
        description: Seq::empty(),
        options: unset_shell_options(),
    }
}

/// One `key: value` of a shell entry applied to `e`. Only the canonical form
/// is accepted: `name`, `script` and the stream flags.
pub open spec fn shell_entry_step(e: ShellEntryView, k: YamlScalar, v: YamlNode) -> Result<
    ShellEntryView,
    ParseErrorView,
> {
    let key = k.text@;
    if key == "name"@ {
        match text_value(v) {
            Ok(t) => Ok(ShellEntryView { description: t, ..e }),
            Err(x) => Err(x),
        }
    } else if key == "script"@ {
        match text_value(v) {
            Ok(t) => Ok(ShellEntryView { command: t, ..e }),
            Err(x) => Err(x),
        }
    } else if key == "stdin"@ || key == "stdout"@ || key == "stderr"@ || key == "quiet"@ {
        match shell_option_step(e.options, k, v) {
            Ok(o) => Ok(ShellEntryView { options: o, ..e }),
            Err(x) => Err(x),
        }
    } else if key == "command"@ || key == "description"@ {
        Err(
            error_at_mark(
                k.start,
                "shell: "@ + debug_quoted_text(key)
                    + " is no longer supported; use 'script' (or 'name' for description)"@,
            ),
        )
    } else {
        Err(error_at_mark(k.start, "shell: unknown key "@ + debug_quoted_text(key)))
    }
}

/// [`shell_entry_step`] on a mapping entry.
pub open spec fn shell_entry_key() -> spec_fn(ShellEntryView, YamlEntry) -> Result<
    ShellEntryView,
    ParseErrorView,
> {
    |s: ShellEntryView, e: YamlEntry| shell_entry_step(s, e.key, e.value)
}

/// One shell entry: a mapping with `name` and a required `script`.
pub open spec fn shell_entry_of(n: YamlNode) -> Result<ShellEntryView, ParseErrorView> {
    match n {
        YamlNode::Mapping(es, _) => match fold_entries(es@, blank_shell_entry(), shell_entry_key()) {
            Ok(e) => if e.command.len() == 0 {
                Err(error_at(n, "shell: 'script' is required"@))
            } else {
                Ok(e)
            },
            Err(x) => Err(x),
        },
        _ => Err(error_at(n, "shell entry must be a mapping with 'name' and 'script'"@)),
    }
}

/// [`shell_entry_of`] appended to the entries so far.
pub open spec fn shell_item_step() -> spec_fn(Seq<ShellEntryView>, YamlNode) -> Result<
    Seq<ShellEntryView>,
    ParseErrorView,
> {
    |acc: Seq<ShellEntryView>, item: YamlNode|
        match shell_entry_of(item) {
            Ok(se) => Ok(acc.push(se)),
            Err(x) => Err(x),
        }
}

/// A `shell:` sequence.
pub open spec fn shells_of(n: YamlNode) -> Result<Seq<ShellEntryView>, ParseErrorView> {
    match n {
        YamlNode::Sequence(items, _) => fold_items(items@, Seq::empty(), shell_item_step()),
        _ => Err(error_at(n, "shell: must be a sequence"@)),
    }
}

fn apply_shell_key(e: ShellEntry, k: &YamlScalar, v: &YamlNode) -> (r: Result<
    ShellEntry,
    ParseError,
>)
    ensures
        viewed(r) == shell_entry_step(e@, *k, *v),
{
    let mut e = e;
    if key_is(k, "name") {
        match scalar_str(v) {
            Ok(t) => {
                e.description = t;
                Ok(e)
            },
            Err(x) => Err(x),
        }
    } else if key_is(k, "script") {
        match scalar_str(v) {
            Ok(t) => {
                e.command = t;
                Ok(e)
            },
            Err(x) => Err(x),
        }
    } else if key_is(k, "stdin") || key_is(k, "stdout") || key_is(k, "stderr") || key_is(
        k,
        "quiet",
    ) {
        match apply_shell_option(e.options, k, v) {
            Ok(o) => {
                e.options = o;
                Ok(e)
            },
            Err(x) => Err(x),
        }
    } else if key_is(k, "command") || key_is(k, "description") {
        Err(
            err_key(
                k,
                quoted_between(
                    "shell: ",
                    &k.text,
                    " is no longer supported; use 'script' (or 'name' for description)",
                ),
            ),
        )
    } else {
        Err(err_key(k, quoted_after("shell: unknown key ", &k.text)))
    }
}

/// Accepts the single canonical form: a mapping with `name:` + `script:` plus
/// optional flags.
fn parse_shell_entry(n: &YamlNode) -> (r: Result<ShellEntry, ParseError>)
    ensures
        viewed(r) == shell_entry_of(*n),
{
    match n {
        YamlNode::Mapping(es, _) => {
            let mut e = ShellEntry {
                command: String::new(),
                description: String::new(),
                options: ShellOptions::default(),
            };
            let mut i: usize = 0;
            while i < es.len()
                invariant
                    i <= es@.len(),
                    es@ == es@,
                    shell_entry_of(*n) == match fold_entries(
                        es@,
                        blank_shell_entry(),
                        shell_entry_key(),
                    ) {
                        Ok(e) => if e.command.len() == 0 {
                            Err(error_at(*n, "shell: 'script' is required"@))
                        } else {
                            Ok(e)
                        },
                        Err(x) => Err(x),
                    },
                    fold_entries(es@.take(i as int), blank_shell_entry(), shell_entry_key())
                        == Ok::<ShellEntryView, ParseErrorView>(e@),
                decreases es.len() - i,
            {
                proof {
                    lemma_fold_entries_next(es@, i as int, blank_shell_entry(), shell_entry_key());
                }
                let ghost ev = e@;
                assert(shell_entry_key()(ev, es@[i as int]) == shell_entry_step(
                    ev,
                    es@[i as int].key,
                    es@[i as int].value,
                ));
                match apply_shell_key(e, &es[i].key, &es[i].value) {
                    Ok(next) => {
                        e = next;
                    },
                    Err(x) => {
                        proof {
                            lemma_fold_entries_stops(es@, i as int + 1, blank_shell_entry(), shell_entry_key());
                        }
                        return Err(x);
                    },
                }
                i = i + 1;
            }
            assert(es@.take(es@.len() as int) =~= es@);
            if e.command.as_str().is_empty() {
                return Err(err_at(n, lit("shell: 'script' is required")));
            }
            Ok(e)
        },
        _ => Err(err_at(n, lit("shell entry must be a mapping with 'name' and 'script'"))),
    }
}

fn parse_shell(n: &YamlNode) -> (r: Result<Shell, ParseError>)
    ensures
        viewed(r) == shells_of(*n),
{
    match n {
        YamlNode::Sequence(items, _) => {
            let mut entries: Vec<ShellEntry> = Vec::new();
            let mut i: usize = 0;
            assert(seq_views(entries@) =~= Seq::<ShellEntryView>::empty());
            assert(items@.take(0) =~= Seq::<YamlNode>::empty());
            while i < items.len()
                invariant
                    i <= items@.len(),
                    shells_of(*n) == fold_items(items@, Seq::empty(), shell_item_step()),
                    fold_items(items@.take(i as int), Seq::empty(), shell_item_step())
                        == Ok::<Seq<ShellEntryView>, ParseErrorView>(seq_views(entries@)),
                decreases items.len() - i,
            {
                proof {
                    lemma_fold_items_next(items@, i as int, Seq::empty(), shell_item_step());
                }
                match parse_shell_entry(&items[i]) {
                    Ok(se) => {
                        proof {
                            lemma_seq_views_push(entries@, se);
                        }
                        entries.push(se);
                    },
                    Err(x) => {
                        proof {
                            lemma_fold_items_stops(items@, i as int + 1, Seq::empty(), shell_item_step());
                        }
                        return Err(x);
                    },
                }
                i = i + 1;
            }
            assert(items@.take(items@.len() as int) =~= items@);
            Ok(Shell { entries })
        },
        _ => Err(err_at(n, lit("shell: must be a sequence"))),
    }
}


// ── clean ──────────────────────────────────────────────────────────────────

/// A `clean:` list item: a scalar target with default options.
pub open spec fn clean_item_step() -> spec_fn(Seq<CleanEntryView>, YamlNode) -> Result<
    Seq<CleanEntryView>,
    ParseErrorView,
> {
    |acc: Seq<CleanEntryView>, item: YamlNode|
        match item {
            YamlNode::Scalar(s) => Ok(
                acc.push(CleanEntryView { target: s.text@, options: unset_clean_options() }),
            ),
            _ => Err(error_at(item, "clean list entries must be strings"@)),
        }
}

/// A `clean:` mapping entry: the key is the target; a mapping value holds its
/// options, any other value is ignored.
pub open spec fn clean_entry_step() -> spec_fn(Seq<CleanEntryView>, YamlEntry) -> Result<
    Seq<CleanEntryView>,
    ParseErrorView,
> {
    |acc: Seq<CleanEntryView>, e: YamlEntry|
        if e.value is Mapping {
            match clean_options_of(e.value) {
                Ok(o) => Ok(acc.push(CleanEntryView { target: e.key.text@, options: o })),
                Err(x) => Err(x),
            }
        } else {
            Ok(acc.push(CleanEntryView { target: e.key.text@, options: unset_clean_options() }))
        }
}

/// A `clean:` sequence of targets or mapping of target to options.
pub open spec fn cleans_of(n: YamlNode) -> Result<Seq<CleanEntryView>, ParseErrorView> {
    match n {
        YamlNode::Sequence(items, _) => fold_items(items@, Seq::empty(), clean_item_step()),
        YamlNode::Mapping(es, _) => fold_entries(es@, Seq::empty(), clean_entry_step()),
        _ => Err(error_at(n, "clean: must be a sequence or mapping"@)),
    }
}

fn parse_clean(n: &YamlNode) -> (r: Result<Clean, ParseError>)
    ensures
        viewed(r) == cleans_of(*n),
{
    let mut entries: Vec<CleanEntry> = Vec::new();
    assert(seq_views(entries@) =~= Seq::<CleanEntryView>::empty());
    match n {
        YamlNode::Sequence(items, _) => {
            let mut i: usize = 0;
            assert(items@.take(0) =~= Seq::<YamlNode>::empty());
            while i < items.len()
                invariant
                    i <= items@.len(),
                    cleans_of(*n) == fold_items(items@, Seq::empty(), clean_item_step()),
                    fold_items(items@.take(i as int), Seq::empty(), clean_item_step())
                        == Ok::<Seq<CleanEntryView>, ParseErrorView>(seq_views(entries@)),
                decreases items.len() - i,
            {
                proof {
                    lemma_fold_items_next(items@, i as int, Seq::empty(), clean_item_step());
                }
                match &items[i] {
                    YamlNode::Scalar(s) => {
                        let ce = CleanEntry { target: s.text.clone(), options: CleanOptions::default() };
                        proof {
                            lemma_seq_views_push(entries@, ce);
                        }
                        entries.push(ce);
                    },
                    _ => {
                        let e = err_at(&items[i], lit("clean list entries must be strings"));
                        proof {
                            lemma_fold_items_stops(items@, i as int + 1, Seq::empty(), clean_item_step());
                        }
                        return Err(e);
                    },
                }
                i = i + 1;
            }
            assert(items@.take(items@.len() as int) =~= items@);
            Ok(Clean { entries })
        },
        YamlNode::Mapping(es, _) => {
            let mut i: usize = 0;
            assert(es@.take(0) =~= Seq::<YamlEntry>::empty());
            while i < es.len()
                invariant
                    i <= es@.len(),
                    cleans_of(*n) == fold_entries(es@, Seq::empty(), clean_entry_step()),
                    fold_entries(es@.take(i as int), Seq::empty(), clean_entry_step())
                        == Ok::<Seq<CleanEntryView>, ParseErrorView>(seq_views(entries@)),
                decreases es.len() - i,
            {
                proof {
                    lemma_fold_entries_next(es@, i as int, Seq::empty(), clean_entry_step());
                }
                let options = match &es[i].value {
                    YamlNode::Mapping(_, _) => match parse_clean_options(&es[i].value) {
                        Ok(o) => o,
                        Err(x) => {
                            proof {
                                lemma_fold_entries_stops(es@, i as int + 1, Seq::empty(), clean_entry_step());
                            }
                            return Err(x);
                        },
                    },
                    _ => CleanOptions::default(),
                };
                let ce = CleanEntry { target: es[i].key.text.clone(), options };
                proof {
                    lemma_seq_views_push(entries@, ce);
                }
                entries.push(ce);
                i = i + 1;
            }
            assert(es@.take(es@.len() as int) =~= es@);
            Ok(Clean { entries })
        },
        _ => Err(err_at(n, lit("clean: must be a sequence or mapping"))),
    }
}

// ── create ─────────────────────────────────────────────────────────────────

/// Why `u32::from_str_radix` refused its input.
#[derive(Debug, Clone, Copy, PartialEq, Eq)]
pub enum IntError {
    /// No digits.
    Empty,
    /// A character that is not a digit of the radix.
    InvalidDigit,
    /// The value does not fit in `u32`.
    PosOverflow,
}

/// How std renders a `ParseIntError` of each kind.
pub open spec fn int_error_text(e: IntError) -> Seq<char> {
    match e {
        IntError::Empty => "cannot parse integer from empty string"@,
        IntError::InvalidDigit => "invalid digit found in string"@,
        IntError::PosOverflow => "number too large to fit in target type"@,
    }
}

/// The value of a digit character in the radix (8 or 10), if it is one.
pub open spec fn digit_value(c: char, radix: nat) -> Option<nat> {
    if '0' <= c && c <= '9' && (c as nat) - ('0' as nat) < radix {
        Some(((c as nat) - ('0' as nat)) as nat)
    } else {
        None
    }
}

/// The digits read left to right as `u32::from_str_radix` reads them: the
/// first non-digit is `InvalidDigit`, the first step past `u32::MAX` is
/// `PosOverflow`.
pub open spec fn digits_value(ds: Seq<char>, radix: nat) -> Result<u32, IntError>
    decreases ds.len(),
{
    if ds.len() == 0 {
        Ok(0)
    } else {
        match digits_value(ds.drop_last(), radix) {
            Err(e) => Err(e),
            Ok(acc) => match digit_value(ds.last(), radix) {
                None => Err(IntError::InvalidDigit),
                Some(d) => if acc * radix + d > u32::MAX {
                    Err(IntError::PosOverflow)
                } else {
                    Ok((acc * radix + d) as u32)
                },
            },
        }
    }
}

/// `u32::from_str_radix` on unsigned digits.
pub open spec fn radix_value(ds: Seq<char>, radix: nat) -> Result<u32, IntError> {
    if ds.len() == 0 {
        Err(IntError::Empty)
    } else {
        digits_value(ds, radix)
    }
}

/// `u32::from_str_radix` for radix 8 or 10 on a string without a sign.
pub fn parse_u32_radix(ds: &[char], radix: u32) -> (r: Result<u32, IntError>)
    requires
        radix == 8 || radix == 10,
    ensures
        r == radix_value(ds@, radix as nat),
{
    if ds.len() == 0 {
        return Err(IntError::Empty);
    }
    let mut acc: u32 = 0;
    let mut i: usize = 0;
    assert(ds@.take(0) =~= Seq::<char>::empty());
    while i < ds.len()
        invariant
            radix == 8 || radix == 10,
            i <= ds@.len(),
            digits_value(ds@.take(i as int), radix as nat) == Ok::<u32, IntError>(acc),
        decreases ds.len() - i,
    {
        let ghost t = ds@.take(i + 1);
        assert(t.drop_last() =~= ds@.take(i as int));
        assert(t.last() == ds@[i as int]);
        let c = ds[i];
        if !('0' <= c && c <= '9') {
            proof {
                lemma_digits_value_stops(ds@, i as int + 1, radix as nat);
            }
            return Err(IntError::InvalidDigit);
        }
        let d: u32 = (c as u32) - ('0' as u32);
        if d >= radix {
            proof {
                lemma_digits_value_stops(ds@, i as int + 1, radix as nat);
            }
            return Err(IntError::InvalidDigit);
        }
        assert((c as nat) - ('0' as nat) == d as nat);
        let lim: u32 = (u32::MAX - d) / radix;
        assert(lim as int == (u32::MAX as int - d as int) / (radix as int));
        if acc > lim {
            assert(acc * radix + d > u32::MAX) by (nonlinear_arith)
                requires
                    acc as int > lim as int,
                    lim as int == (u32::MAX as int - d as int) / (radix as int),
                    radix > 0,
                    d < radix,
            ;
            proof {
                lemma_digits_value_stops(ds@, i as int + 1, radix as nat);
            }
            return Err(IntError::PosOverflow);
        }
        assert(acc * radix + d <= u32::MAX) by (nonlinear_arith)
            requires
                acc as int <= lim as int,
                lim as int == (u32::MAX as int - d as int) / (radix as int),
                radix > 0,
                d <= u32::MAX,
        ;
        acc = acc * radix + d;
        i = i + 1;
    }
    assert(ds@.take(ds@.len() as int) =~= ds@);
    Ok(acc)
}

proof fn lemma_digits_value_stops(ds: Seq<char>, i: int, radix: nat)
    requires
        0 <= i <= ds.len(),
        digits_value(ds.take(i), radix) is Err,
    ensures
        digits_value(ds, radix) == digits_value(ds.take(i), radix),
    decreases ds.len() - i,
{
    if i == ds.len() {
        assert(ds.take(i) =~= ds);
    } else {
        let t = ds.take(i + 1);
        assert(t.drop_last() =~= ds.take(i));
        lemma_digits_value_stops(ds, i + 1, radix);
    }
}

/// The digits and radix of a mode: `0o…`/`0O…` and `0…` are octal, anything
/// else decimal.
pub open spec fn mode_digits(raw: Seq<char>) -> (Seq<char>, nat) {
    if raw.len() > 1 && raw[0] == '0' && (raw[1] == 'o' || raw[1] == 'O') {
        (raw.subrange(2, raw.len() as int), 8)
    } else if raw.len() > 1 && raw[0] == '0' {
        (raw.drop_first(), 8)
    } else {
        (raw, 10)
    }
}

/// A file-mode scalar: octal (`0o700`, `0700`) or decimal; a sign is refused.
pub open spec fn mode_value(n: YamlNode) -> Result<u32, ParseErrorView> {
    match n {
        YamlNode::Scalar(s) => {
            let raw = s.text@;
            let (ds, radix): (Seq<char>, nat) = mode_digits(raw);
            if ds.len() > 0 && (ds[0] == '+' || ds[0] == '-') {
                Err(
                    error_at_mark(
                        s.start,
                        "invalid mode "@ + debug_quoted_text(raw) + ": invalid sign"@,
                    ),
                )
            } else {
                match radix_value(ds, radix) {
                    Ok(v) => Ok(v),
                    Err(ie) => Err(
                        error_at_mark(
                            s.start,
                            "invalid mode "@ + debug_quoted_text(raw) + ": "@ + int_error_text(ie),
                        ),
                    ),
                }
            }
        },
        _ => Err(error_at(n, "expected file mode integer"@)),
    }
}

fn int_error_message(e: IntError) -> (r: &'static str)
    ensures
        r@ == int_error_text(e),
{
    match e {
        IntError::Empty => "cannot parse integer from empty string",
        IntError::InvalidDigit => "invalid digit found in string",
        IntError::PosOverflow => "number too large to fit in target type",
    }
}

/// Parse a file-mode scalar. Accepts `0o700`/`0700` (octal) and decimal.
/// Leading `+`/`-` are rejected: a mode is an unsigned value.
pub fn scalar_mode(n: &YamlNode) -> (r: Result<u32, ParseError>)
    ensures
        match r {
            Ok(v) => mode_value(*n) == Ok::<u32, ParseErrorView>(v),
            Err(e) => mode_value(*n) == Err::<u32, ParseErrorView>(e@),
        },
{
    match n {
        YamlNode::Scalar(s) => {
            let raw = chars_of(s.text.as_str());
            let (ds, radix): (Vec<char>, u32) = if raw.len() > 1 && raw[0] == '0' && (raw[1] == 'o'
                || raw[1] == 'O') {
                (crate::text::slice_chars(raw.as_slice(), 2, raw.len()), 8)
            } else if raw.len() > 1 && raw[0] == '0' {
                let d = crate::text::slice_chars(raw.as_slice(), 1, raw.len());
                assert(d@ =~= raw@.drop_first());
                (d, 8)
            } else {
                (raw, 10)
            };
            assert(ds@ == mode_digits(s.text@).0);
            if ds.len() > 0 && (ds[0] == '+' || ds[0] == '-') {
                return Err(
                    err_mark(s.start, quoted_between("invalid mode ", &s.text, ": invalid sign")),
                );
            }
            match parse_u32_radix(ds.as_slice(), radix) {
                Ok(v) => Ok(v),
                Err(ie) => {
                    let mut m = chars_of("invalid mode ");
                    push_str(&mut m, debug_quoted(s.text.as_str()).as_str());
                    push_str(&mut m, ": ");
                    push_str(&mut m, int_error_message(ie));
                    Err(err_mark(s.start, string_of(m.as_slice())))
                },
            }
        },
        _ => Err(err_at(n, lit("expected file mode integer"))),
    }
}

/// A `create:` list item: a scalar path with the default mode.
pub open spec fn create_item_step() -> spec_fn(Seq<CreateEntryView>, YamlNode) -> Result<
    Seq<CreateEntryView>,
    ParseErrorView,
> {
    |acc: Seq<CreateEntryView>, item: YamlNode|
        match item {
            YamlNode::Scalar(s) => Ok(acc.push(CreateEntryView { path: s.text@, mode: None })),
            _ => Err(error_at(item, "create list entries must be strings"@)),
        }
}

/// One key of a create entry's options: `mode` is read; any other key is
/// rejected.
pub open spec fn mode_step() -> spec_fn(Option<u32>, YamlEntry) -> Result<
    Option<u32>,
    ParseErrorView,
> {
    |m: Option<u32>, e: YamlEntry|
        if e.key.text@ == "mode"@ {
            match mode_value(e.value) {
                Ok(v) => Ok(Some(v)),
                Err(x) => Err(x),
            }
        } else {
            Err(error_at_mark(e.key.start, "create: unknown option "@ + debug_quoted_text(e.key.text@)))
        }
}

/// A `create:` mapping entry: the key is the path; a mapping value may set
/// `mode`.
pub open spec fn create_entry_of(e: YamlEntry) -> Result<CreateEntryView, ParseErrorView> {
    match e.value {
        YamlNode::Mapping(inner, _) => match fold_entries(inner@, None, mode_step()) {
            Ok(m) => Ok(CreateEntryView { path: e.key.text@, mode: m }),
            Err(x) => Err(x),
        },
        _ => Ok(CreateEntryView { path: e.key.text@, mode: None }),
    }
}

/// [`create_entry_of`] appended to the entries so far.
pub open spec fn create_entry_step() -> spec_fn(Seq<CreateEntryView>, YamlEntry) -> Result<
    Seq<CreateEntryView>,
    ParseErrorView,
> {
    |acc: Seq<CreateEntryView>, e: YamlEntry|
        match create_entry_of(e) {
            Ok(ce) => Ok(acc.push(ce)),
            Err(x) => Err(x),
        }
}

/// A `create:` sequence of paths or mapping of path to options.
pub open spec fn creates_of(n: YamlNode) -> Result<Seq<CreateEntryView>, ParseErrorView> {
    match n {
        YamlNode::Sequence(items, _) => fold_items(items@, Seq::empty(), create_item_step()),
        YamlNode::Mapping(es, _) => fold_entries(es@, Seq::empty(), create_entry_step()),
        _ => Err(error_at(n, "create: must be a sequence or mapping"@)),
    }
}

fn create_mode(inner: &Vec<YamlEntry>) -> (r: Result<Option<u32>, ParseError>)
    ensures
        match r {
            Ok(m) => fold_entries(inner@, None, mode_step()) == Ok::<Option<u32>, ParseErrorView>(m),
            Err(e) => fold_entries(inner@, None, mode_step()) == Err::<Option<u32>, ParseErrorView>(e@),
        },
{
    let mut mode: Option<u32> = None;
    let mut i: usize = 0;
    while i < inner.len()
        invariant
            i <= inner@.len(),
            fold_entries(inner@.take(i as int), None, mode_step()) == Ok::<
                Option<u32>,
                ParseErrorView,
            >(mode),
        decreases inner.len() - i,
    {
        proof {
            lemma_fold_entries_next(inner@, i as int, None, mode_step());
        }
        if key_is(&inner[i].key, "mode") {
            match scalar_mode(&inner[i].value) {
                Ok(v) => {
                    mode = Some(v);
                },
                Err(x) => {
                    proof {
                        lemma_fold_entries_stops(inner@, i as int + 1, None, mode_step());
                    }
                    return Err(x);
                },
            }
        } else {
            let k = &inner[i].key;
            let x = err_key(k, quoted_after("create: unknown option ", &k.text));
            proof {
                lemma_fold_entries_stops(inner@, i as int + 1, None, mode_step());
            }
            return Err(x);
        }
        i = i + 1;
    }
    assert(inner@.take(inner@.len() as int) =~= inner@);
    Ok(mode)
}

fn parse_create(n: &YamlNode) -> (r: Result<Create, ParseError>)
    ensures
        viewed(r) == creates_of(*n),
{
    let mut entries: Vec<CreateEntry> = Vec::new();
    assert(seq_views(entries@) =~= Seq::<CreateEntryView>::empty());
    match n {
        YamlNode::Sequence(items, _) => {
            let mut i: usize = 0;
            assert(items@.take(0) =~= Seq::<YamlNode>::empty());
            while i < items.len()
                invariant
                    i <= items@.len(),
                    creates_of(*n) == fold_items(items@, Seq::empty(), create_item_step()),
                    fold_items(items@.take(i as int), Seq::empty(), create_item_step())
                        == Ok::<Seq<CreateEntryView>, ParseErrorView>(seq_views(entries@)),
                decreases items.len() - i,
            {
                proof {
                    lemma_fold_items_next(items@, i as int, Seq::empty(), create_item_step());
                }
                match &items[i] {
                    YamlNode::Scalar(s) => {
                        let ce = CreateEntry { path: s.text.clone(), mode: None };
                        proof {
                            lemma_seq_views_push(entries@, ce);
                        }
                        entries.push(ce);
                    },
                    _ => {
                        let e = err_at(&items[i], lit("create list entries must be strings"));
                        proof {
                            lemma_fold_items_stops(items@, i as int + 1, Seq::empty(), create_item_step());
                        }
                        return Err(e);
                    },
                }
                i = i + 1;
            }
            assert(items@.take(items@.len() as int) =~= items@);
            Ok(Create { entries })
        },
        YamlNode::Mapping(es, _) => {
            let mut i: usize = 0;
            assert(es@.take(0) =~= Seq::<YamlEntry>::empty());
            while i < es.len()
                invariant
                    i <= es@.len(),
                    creates_of(*n) == fold_entries(es@, Seq::empty(), create_entry_step()),
                    fold_entries(es@.take(i as int), Seq::empty(), create_entry_step())
                        == Ok::<Seq<CreateEntryView>, ParseErrorView>(seq_views(entries@)),
                decreases es.len() - i,
            {
                proof {
                    lemma_fold_entries_next(es@, i as int, Seq::empty(), create_entry_step());
                }
                let mode = match &es[i].value {
                    YamlNode::Mapping(inner, _) => match create_mode(inner) {
                        Ok(m) => m,
                        Err(x) => {
                            proof {
                                lemma_fold_entries_stops(es@, i as int + 1, Seq::empty(), create_entry_step());
                            }
                            return Err(x);
                        },
                    },
                    _ => None,
                };
                let ce = CreateEntry { path: es[i].key.text.clone(), mode };
                proof {
                    lemma_seq_views_push(entries@, ce);
                }
                entries.push(ce);
                i = i + 1;
            }
            assert(es@.take(es@.len() as int) =~= es@);
            Ok(Create { entries })
        },
        _ => Err(err_at(n, lit("create: must be a sequence or mapping"))),
    }
}

// ── directives and the document ───────────────────────────────────────────

/// The line of a position, 0 when unknown.
pub open spec fn mark_line(m: Option<Mark>) -> usize {
    match m {
        Some(mk) => mk.line,
        None => 0,
    }
}

/// A top-level key and its value as a directive payload; unknown keys are
/// refused at the key.
pub open spec fn directive_kind_of(k: YamlScalar, v: YamlNode) -> Result<
    DirectiveKindView,
    ParseErrorView,
> {
    let name = k.text@;
    if name == "defaults"@ {
        match defaults_of(v) {
            Ok(d) => Ok(DirectiveKindView::Defaults(d)),
            Err(e) => Err(e),
        }
    } else if name == "link"@ {
        match links_of(v) {
            Ok(l) => Ok(DirectiveKindView::Link(l)),
            Err(e) => Err(e),
        }
    } else if name == "shell"@ {
        match shells_of(v) {
            Ok(s) => Ok(DirectiveKindView::Shell(s)),
            Err(e) => Err(e),
        }
    } else if name == "clean"@ {
        match cleans_of(v) {
            Ok(c) => Ok(DirectiveKindView::Clean(c)),
            Err(e) => Err(e),
        }
    } else if name == "create"@ {
        match creates_of(v) {
            Ok(c) => Ok(DirectiveKindView::Create(c)),
            Err(e) => Err(e),
        }
    } else {
        Err(
            error_at_mark(
                k.start,
                "unknown directive "@ + debug_quoted_text(name) + " (plugins are not supported)"@,
            ),
        )
    }
}

/// One top-level entry appended to the directives so far, with the line of
/// its key.
pub open spec fn directive_step() -> spec_fn(Seq<DirectiveView>, YamlEntry) -> Result<
    Seq<DirectiveView>,
    ParseErrorView,
> {
    |acc: Seq<DirectiveView>, e: YamlEntry|
        match directive_kind_of(e.key, e.value) {
            Ok(kind) => Ok(acc.push(DirectiveView { kind, line: mark_line(e.key.start) })),
            Err(x) => Err(x),
        }
}

/// The message for a root that is not a mapping.
pub open spec fn top_level_text() -> Seq<char> {
    "top-level must be a mapping of directives (defaults/link/shell/clean/create)"@
}

/// The directives of a loaded document, in declaration order.
pub open spec fn document_of(root: YamlNode) -> Result<Seq<DirectiveView>, ParseErrorView> {
    match root {
        YamlNode::Mapping(es, _) => fold_entries(es@, Seq::empty(), directive_step()),
        _ => Err(error_at(root, top_level_text())),
    }
}

/// How a refusal of the YAML loader is reported.
pub open spec fn refusal_error(e: YamlLoadError) -> ParseErrorView {
    let at = |m: Mark, msg: Seq<char>|
        ParseErrorView { line: m.line as nat, column: m.column as nat, msg };
    match e {
        YamlLoadError::TopLevelMustBeMapping(m) => at(m, top_level_text()),
        YamlLoadError::TopLevelMustBeSequence(m) => at(m, "top-level must be a sequence"@),
        YamlLoadError::UnexpectedAnchor(m) => at(
            m,
            "anchors/aliases are not supported in profiles"@,
        ),
        YamlLoadError::MappingKeyMustBeScalar(m) => at(m, "mapping keys must be scalars"@),
        YamlLoadError::UnexpectedTag(m) => at(m, "explicit YAML tags are not supported"@),
        YamlLoadError::Scan(m, text) => at(m, "yaml: "@ + text@),
        YamlLoadError::DuplicateKey => ParseErrorView { line: 0, column: 0, msg: "duplicate key"@ },
    }
}

/// The configuration a loaded document (or the loader's refusal) gives.
pub open spec fn config_of(doc: Result<YamlNode, YamlLoadError>) -> Result<
    ConfigView,
    ParseErrorView,
> {
    match doc {
        Err(e) => Err(refusal_error(e)),
        Ok(root) => match document_of(root) {
            Ok(ds) => Ok(ConfigView { path: Seq::empty(), directives: ds }),
            Err(e) => Err(e),
        },
    }
}

fn parse_directive(k: &YamlScalar, v: &YamlNode) -> (r: Result<Directive, ParseError>)
    ensures
        viewed(r) == (match directive_kind_of(*k, *v) {
            Ok(kind) => Ok(DirectiveView { kind, line: mark_line(k.start) }),
            Err(x) => Err(x),
        }),
{
    let line: usize = match k.start {
        Some(m) => m.line,
        None => 0,
    };
    let kind = if key_is(k, "defaults") {
        match parse_defaults(v) {
            Ok(d) => DirectiveKind::Defaults(d),
            Err(e) => return Err(e),
        }
    } else if key_is(k, "link") {
        match parse_link(v) {
            Ok(l) => DirectiveKind::Link(l),
            Err(e) => return Err(e),
        }
    } else if key_is(k, "shell") {
        match parse_shell(v) {
            Ok(s) => DirectiveKind::Shell(s),
            Err(e) => return Err(e),
        }
    } else if key_is(k, "clean") {
        match parse_clean(v) {
            Ok(c) => DirectiveKind::Clean(c),
            Err(e) => return Err(e),
        }
    } else if key_is(k, "create") {
        match parse_create(v) {
            Ok(c) => DirectiveKind::Create(c),
            Err(e) => return Err(e),
        }
    } else {
        return Err(
            err_key(k, quoted_between("unknown directive ", &k.text, " (plugins are not supported)")),
        );
    };
    Ok(Directive { kind, line })
}

fn refusal_to_error(e: YamlLoadError) -> (r: ParseError)
    ensures
        r@ == refusal_error(e),
{
    match e {
        YamlLoadError::TopLevelMustBeMapping(m) => ParseError::at(
            m.line,
            m.column,
            lit("top-level must be a mapping of directives (defaults/link/shell/clean/create)"),
        ),
        YamlLoadError::TopLevelMustBeSequence(m) => ParseError::at(
            m.line,
            m.column,
            lit("top-level must be a sequence"),
        ),
        YamlLoadError::UnexpectedAnchor(m) => ParseError::at(
            m.line,
            m.column,
            lit("anchors/aliases are not supported in profiles"),
        ),
        YamlLoadError::MappingKeyMustBeScalar(m) => ParseError::at(
            m.line,
            m.column,
            lit("mapping keys must be scalars"),
        ),
        YamlLoadError::UnexpectedTag(m) => ParseError::at(
            m.line,
            m.column,
            lit("explicit YAML tags are not supported"),
        ),
        YamlLoadError::Scan(m, text) => {
            let mut v = chars_of("yaml: ");
            push_str(&mut v, text.as_str());
            ParseError::at(m.line, m.column, string_of(v.as_slice()))
        },
        YamlLoadError::DuplicateKey => ParseError::msg(lit("duplicate key")),
    }
}

/// The configuration of a loaded document: its top-level mapping read as
/// directives in declaration order, or the loader's refusal reported with its
/// position.
pub fn config_from_yaml(doc: Result<YamlNode, YamlLoadError>) -> (r: Result<Config, ParseError>)
    ensures
        viewed(r) == config_of(doc),
{
    let ghost whole = config_of(doc);
    let root = match doc {
        Err(e) => return Err(refusal_to_error(e)),
        Ok(root) => root,
    };
    assert(whole == match document_of(root) {
        Ok(ds) => Ok(ConfigView { path: Seq::empty(), directives: ds }),
        Err(e) => Err::<ConfigView, ParseErrorView>(e),
    });
    match &root {
        YamlNode::Mapping(es, _) => {
            let mut directives: Vec<Directive> = Vec::new();
            let mut i: usize = 0;
            assert(seq_views(directives@) =~= Seq::<DirectiveView>::empty());
            assert(es@.take(0) =~= Seq::<YamlEntry>::empty());
            while i < es.len()
                invariant
                    i <= es@.len(),
                    document_of(root) == fold_entries(es@, Seq::empty(), directive_step()),
                    fold_entries(es@.take(i as int), Seq::empty(), directive_step())
                        == Ok::<Seq<DirectiveView>, ParseErrorView>(seq_views(directives@)),
                    whole == config_of(doc),
                    whole == match document_of(root) {
                        Ok(ds) => Ok(ConfigView { path: Seq::empty(), directives: ds }),
                        Err(e) => Err::<ConfigView, ParseErrorView>(e),
                    },
                decreases es.len() - i,
            {
                proof {
                    lemma_fold_entries_next(es@, i as int, Seq::empty(), directive_step());
                }
                match parse_directive(&es[i].key, &es[i].value) {
                    Ok(d) => {
                        proof {
                            lemma_seq_views_push(directives@, d);
                        }
                        directives.push(d);
                    },
                    Err(e) => {
                        proof {
                            lemma_fold_entries_stops(es@, i as int + 1, Seq::empty(), directive_step());
                        }
                        return Err(e);
                    },
                }
                i = i + 1;
            }
            assert(es@.take(es@.len() as int) =~= es@);
            let cfg = Config { path: String::new(), directives };
            assert(cfg@.path =~= Seq::<char>::empty());
            Ok(cfg)
        },
        _ => Err(
            err_at(
                &root,
                lit("top-level must be a mapping of directives (defaults/link/shell/clean/create)"),
            ),
        ),
    }
}

// ── blank documents ────────────────────────────────────────────────────────

/// The first character of `l` that is not white space, if any.
pub open spec fn first_non_white(l: Seq<char>) -> Option<char>
    decreases l.len(),
{
    if l.len() == 0 {
        None
    } else {
        match first_non_white(l.drop_last()) {
            Some(c) => Some(c),
            None => if is_white(l.last()) {
                None
            } else {
                Some(l.last())
            },
        }
    }
}

/// A line that, trimmed, is empty or starts with `#`.
pub open spec fn blank_line(l: Seq<char>) -> bool {
    match first_non_white(l) {
        None => true,
        Some(c) => c == '#',
    }
}

/// A document whose every line is blank or a comment.
pub open spec fn blank_document(src: Seq<char>) -> bool {
    forall|k: int|
        0 <= k < split_on(src, '\n').len() ==> blank_line(#[trigger] split_on(src, '\n')[k])
}

fn is_blank_document(src: &str) -> (r: bool)
    ensures
        r == blank_document(src@),
{
    let cs = chars_of(src);
    let mut ok = true;
    let mut cur: Option<char> = None;
    let mut i: usize = 0;
    assert(cs@.take(0) =~= Seq::<char>::empty());
    while i < cs.len()
        invariant
            i <= cs@.len(),
            split_on(cs@.take(i as int), '\n').len() >= 1,
            ok == (forall|k: int|
                0 <= k < split_on(cs@.take(i as int), '\n').len() - 1 ==> blank_line(
                    #[trigger] split_on(cs@.take(i as int), '\n')[k],
                )),
            cur == first_non_white(split_on(cs@.take(i as int), '\n').last()),
        decreases cs.len() - i,
    {
        let ghost prev = split_on(cs@.take(i as int), '\n');
        let ghost next = split_on(cs@.take(i + 1), '\n');
        assert(cs@.take(i + 1).drop_last() =~= cs@.take(i as int));
        assert(cs@.take(i + 1).last() == cs@[i as int]);
        let c = cs[i];
        if c == '\n' {
            let line_ok = match cur {
                None => true,
                Some(x) => x == '#',
            };
            assert(next == prev.push(Seq::<char>::empty()));
            assert(forall|k: int| 0 <= k < prev.len() ==> next[k] == prev[k]);
            assert(line_ok == blank_line(prev.last()));
            ok = ok && line_ok;
            cur = None;
        } else {
            let ghost lst = prev.last().push(c);
            assert(lst.drop_last() =~= prev.last());
            assert(next == prev.update(prev.len() - 1, lst));
            assert(forall|k: int| 0 <= k < prev.len() - 1 ==> next[k] == prev[k]);
            if cur.is_none() && !is_white_char(c) {
                cur = Some(c);
            }
        }
        i = i + 1;
    }
    assert(cs@.take(cs@.len() as int) =~= cs@);
    let last_ok = match cur {
        None => true,
        Some(x) => x == '#',
    };
    ok && last_ok
}

// ── entry points ───────────────────────────────────────────────────────────

/// What parsing `src` gives: an empty configuration for a blank or
/// comment-only document, else the configuration of the loaded document.
pub open spec fn parsed(src: Seq<char>) -> Result<ConfigView, ParseErrorView> {
    if blank_document(src) {
        Ok(ConfigView { path: Seq::empty(), directives: Seq::empty() })
    } else {
        config_of(yaml_document(src))
    }
}

/// Parse a profile YAML from a string. The root must be a mapping whose keys
/// are directive names; unknown directives are rejected.
pub fn parse_str(src: &str) -> (r: Result<Config, ParseError>)
    ensures
        viewed(r) == parsed(src@),
{
    if is_blank_document(src) {
        let cfg = Config::default();
        assert(cfg@.path =~= Seq::<char>::empty());
        assert(cfg@.directives =~= Seq::<DirectiveView>::empty());
        return Ok(cfg);
    }
    config_from_yaml(load_yaml(src))
}

/// What loading a profile gives, from its path as displayed and the outcome
/// of reading the file: a read failure is an `Open` error; contents that do
/// not parse are a `Parse` error; otherwise the configuration, recording the
/// path.
pub fn load_contents(path: String, contents: Result<String, String>) -> (r: Result<
    Config,
    LoadError,
>)
    ensures
        match contents {
            Err(reason) => r == Err::<Config, LoadError>(LoadError::Open { path, reason }),
            Ok(data) => match parsed(data@) {
                Ok(c) => r is Ok && r.unwrap()@ == (ConfigView {
                    path: path@,
                    directives: c.directives,
                }),
                Err(e) => r is Err && r->Err_0 is Parse && r->Err_0->Parse_path@ == path@
                    && r->Err_0->Parse_source@ == e,
            },
        },
{
    match contents {
        Err(reason) => Err(LoadError::Open { path, reason }),
        Ok(data) => match parse_str(data.as_str()) {
            Ok(mut cfg) => {
                cfg.path = path;
                Ok(cfg)
            },
            Err(source) => Err(LoadError::Parse { path, source }),
        },
    }
}

// ── laws ───────────────────────────────────────────────────────────────────

proof fn lemma_directives_follow_keys(es: Seq<YamlEntry>, n: int)
    requires
        0 <= n <= es.len(),
        fold_entries(es.take(n), Seq::empty(), directive_step()) is Ok,
    ensures
        ({
            let ds = fold_entries(es.take(n), Seq::empty(), directive_step())->Ok_0;
            &&& ds.len() == n
            &&& forall|i: int|
                0 <= i < n ==> (#[trigger] ds[i]).line == mark_line(es[i].key.start) && kind_name(
                    ds[i].kind,
                ) == es[i].key.text@
        }),
    decreases n,
{
    if n > 0 {
        let t = es.take(n);
        assert(t.drop_last() =~= es.take(n - 1));
        assert(t.last() == es[n - 1]);
        let prev = fold_entries(es.take(n - 1), Seq::empty(), directive_step());
        assert(prev is Ok);
        lemma_directives_follow_keys(es, n - 1);
        let e = es[n - 1];
        let name = e.key.text@;
        let k = directive_kind_of(e.key, e.value)->Ok_0;
        assert(kind_name(k) == name);
    } else {
        assert(es.take(0) =~= Seq::<YamlEntry>::empty());
    }
}

/// The directives of a document come out in declaration order, one per
/// top-level key: the `i`-th directive is named by the `i`-th key and
/// carries that key's line.
pub proof fn directives_follow_keys(es: Vec<YamlEntry>, m: Option<Mark>)
    requires
        document_of(YamlNode::Mapping(es, m)) is Ok,
    ensures
        ({
            let ds = document_of(YamlNode::Mapping(es, m))->Ok_0;
            &&& ds.len() == es@.len()
            &&& forall|i: int|
                0 <= i < es@.len() ==> (#[trigger] ds[i]).line == mark_line(es@[i].key.start)
                    && kind_name(ds[i].kind) == es@[i].key.text@
        }),
{
    assert(es@.take(es@.len() as int) =~= es@);
    lemma_directives_follow_keys(es@, es@.len() as int);
}

/// A boolean option accepts exactly the words `true`, `yes`, `on` (as true)
/// and `false`, `no`, `off` (as false); any other scalar is refused.
pub proof fn booleans_take_six_words(s: YamlScalar)
    ensures
        bool_value(YamlNode::Scalar(s)) == Ok::<bool, ParseErrorView>(true) <==> (s.text@ == "true"@
            || s.text@ == "yes"@ || s.text@ == "on"@),
        bool_value(YamlNode::Scalar(s)) == Ok::<bool, ParseErrorView>(false) <==> (!(s.text@
            == "true"@ || s.text@ == "yes"@ || s.text@ == "on"@) && (s.text@ == "false"@ || s.text@
            == "no"@ || s.text@ == "off"@)),
{
}

/// A file mode with a sign after its radix prefix is refused.
pub proof fn signed_modes_are_refused(s: YamlScalar)
    requires
        mode_digits(s.text@).0.len() > 0,
        mode_digits(s.text@).0[0] == '+' || mode_digits(s.text@).0[0] == '-',
    ensures
        mode_value(YamlNode::Scalar(s)) is Err,
{
}


// ── laws of option parsing ─────────────────────────────────────────────────

/// The test for one key name.
pub open spec fn key_named(word: Seq<char>) -> spec_fn(Seq<char>) -> bool {
    |k: Seq<char>| k == word
}

/// The test for the two spellings of the canonicalize option.
pub open spec fn canonicalize_key() -> spec_fn(Seq<char>) -> bool {
    |k: Seq<char>| k == "canonicalize"@ || k == "canonicalize-path"@
}

/// A value read as a boolean word.
pub open spec fn bool_read() -> spec_fn(YamlNode) -> Result<bool, ParseErrorView> {
    |v: YamlNode| bool_value(v)
}

/// A value read as a string scalar's text.
pub open spec fn text_read() -> spec_fn(YamlNode) -> Result<Seq<char>, ParseErrorView> {
    |v: YamlNode| text_value(v)
}

/// What the last entry whose key passes `is_key` holds, read with `read`;
/// `None` when no entry has such a key.
pub open spec fn last_value<V>(
    es: Seq<YamlEntry>,
    is_key: spec_fn(Seq<char>) -> bool,
    read: spec_fn(YamlNode) -> Result<V, ParseErrorView>,
) -> Option<V>
    decreases es.len(),
{
    if es.len() == 0 {
        None
    } else if is_key(es.last().key.text@) {
        match read(es.last().value) {
            Ok(x) => Some(x),
            Err(_) => None,
        }
    } else {
        last_value(es.drop_last(), is_key, read)
    }
}

/// A fold whose steps set `field` from each entry whose key passes `is_key`
/// (to the value read from it) and leave it alone for every other entry ends,
/// when it succeeds, with the value of the last such entry.
proof fn lemma_last_value_wins<T, V>(
    es: Seq<YamlEntry>,
    init: T,
    step: spec_fn(T, YamlEntry) -> Result<T, ParseErrorView>,
    is_key: spec_fn(Seq<char>) -> bool,
    read: spec_fn(YamlNode) -> Result<V, ParseErrorView>,
    field: spec_fn(T) -> Option<V>,
    r: T,
)
    requires
        field(init) is None,
        forall|acc: T, e: YamlEntry|
            (#[trigger] step(acc, e)) is Ok ==> if is_key(e.key.text@) {
                read(e.value) is Ok && field(step(acc, e)->Ok_0) == Some(read(e.value)->Ok_0)
            } else {
                field(step(acc, e)->Ok_0) == field(acc)
            },
        fold_entries(es, init, step) == Ok::<T, ParseErrorView>(r),
    ensures
        field(r) == last_value(es, is_key, read),
    decreases es.len(),
{
    if es.len() > 0 {
        let prev = fold_entries(es.drop_last(), init, step);
        match prev {
            Ok(acc) => {
                lemma_last_value_wins(es.drop_last(), init, step, is_key, read, field, acc);
                assert(step(acc, es.last()) is Ok);
            },
            Err(_) => {},
        }
    }
}

proof fn lemma_link_step_fields(acc: LinkOptionsView, e: YamlEntry)
    requires
        link_option_step(acc, e.key, e.value) is Ok,
    ensures
        ({
            let k = e.key.text@;
            let n = link_option_step(acc, e.key, e.value)->Ok_0;
            &&& k == "path"@ ==> text_value(e.value) is Ok && n.path == Some(text_value(e.value)->Ok_0)
            &&& k != "path"@ ==> n.path == acc.path
            &&& k == "create"@ ==> bool_value(e.value) is Ok && n.create == Some(bool_value(e.value)->Ok_0)
            &&& k != "create"@ ==> n.create == acc.create
            &&& k == "relink"@ ==> bool_value(e.value) is Ok && n.relink == Some(bool_value(e.value)->Ok_0)
            &&& k != "relink"@ ==> n.relink == acc.relink
            &&& k == "force"@ ==> bool_value(e.value) is Ok && n.force == Some(bool_value(e.value)->Ok_0)
            &&& k != "force"@ ==> n.force == acc.force
            &&& k == "relative"@ ==> bool_value(e.value) is Ok && n.relative == Some(bool_value(e.value)->Ok_0)
            &&& k != "relative"@ ==> n.relative == acc.relative
            &&& k == "glob"@ ==> bool_value(e.value) is Ok && n.glob == Some(bool_value(e.value)->Ok_0)
            &&& k != "glob"@ ==> n.glob == acc.glob
            &&& k == "ignore-missing"@ ==> bool_value(e.value) is Ok && n.ignore_missing == Some(bool_value(e.value)->Ok_0)
            &&& k != "ignore-missing"@ ==> n.ignore_missing == acc.ignore_missing
            &&& k == "backup"@ ==> bool_value(e.value) is Ok && n.backup == Some(bool_value(e.value)->Ok_0)
            &&& k != "backup"@ ==> n.backup == acc.backup
            &&& k == "type"@ ==> text_value(e.value) is Ok && n.link_type == Some(text_value(e.value)->Ok_0)
            &&& k != "type"@ ==> n.link_type == acc.link_type
            &&& (k == "canonicalize"@ || k == "canonicalize-path"@) ==> bool_value(e.value) is Ok && n.canonicalize == Some(bool_value(e.value)->Ok_0)
            &&& !(k == "canonicalize"@ || k == "canonicalize-path"@) ==> n.canonicalize == acc.canonicalize
            &&& k == "prefix"@ ==> text_value(e.value) is Ok && n.prefix == Some(text_value(e.value)->Ok_0)
            &&& k != "prefix"@ ==> n.prefix == acc.prefix
        }),
{
    reveal_strlit("path");
    reveal_strlit("create");
    reveal_strlit("relink");
    reveal_strlit("force");
    reveal_strlit("relative");
    reveal_strlit("glob");
    reveal_strlit("ignore-missing");
    reveal_strlit("backup");
    reveal_strlit("type");
    reveal_strlit("canonicalize");
    reveal_strlit("canonicalize-path");
    reveal_strlit("prefix");
    reveal_strlit("exclude");
    reveal_strlit("if");
    assert("create"@[0] != "path"@[0]);
    assert("create"@ != "path"@);
    assert("relink"@[0] != "path"@[0]);
    assert("relink"@ != "path"@);
    assert("relink"@[0] != "create"@[0]);
    assert("relink"@ != "create"@);
    assert("force"@[0] != "path"@[0]);
    assert("force"@ != "path"@);
    assert("force"@[0] != "create"@[0]);
    assert("force"@ != "create"@);
    assert("force"@[0] != "relink"@[0]);
    assert("force"@ != "relink"@);
    assert("relative"@[0] != "path"@[0]);
    assert("relative"@ != "path"@);
    assert("relative"@[0] != "create"@[0]);
    assert("relative"@ != "create"@);
    assert("relative"@[3] != "relink"@[3]);
    assert("relative"@ != "relink"@);
    assert("relative"@[0] != "force"@[0]);
    assert("relative"@ != "force"@);
    assert("glob"@[0] != "path"@[0]);
    assert("glob"@ != "path"@);
    assert("glob"@[0] != "create"@[0]);
    assert("glob"@ != "create"@);
    assert("glob"@[0] != "relink"@[0]);
    assert("glob"@ != "relink"@);
    assert("glob"@[0] != "force"@[0]);
    assert("glob"@ != "force"@);
    assert("glob"@[0] != "relative"@[0]);
    assert("glob"@ != "relative"@);
    assert("ignore-missing"@[0] != "path"@[0]);
    assert("ignore-missing"@ != "path"@);
    assert("ignore-missing"@[0] != "create"@[0]);
    assert("ignore-missing"@ != "create"@);
    assert("ignore-missing"@[0] != "relink"@[0]);
    assert("ignore-missing"@ != "relink"@);
    assert("ignore-missing"@[0] != "force"@[0]);
    assert("ignore-missing"@ != "force"@);
    assert("ignore-missing"@[0] != "relative"@[0]);
    assert("ignore-missing"@ != "relative"@);
    assert("ignore-missing"@[0] != "glob"@[0]);
    assert("ignore-missing"@ != "glob"@);
    assert("backup"@[0] != "path"@[0]);
    assert("backup"@ != "path"@);
    assert("backup"@[0] != "create"@[0]);
    assert("backup"@ != "create"@);
    assert("backup"@[0] != "relink"@[0]);
    assert("backup"@ != "relink"@);
    assert("backup"@[0] != "force"@[0]);
    assert("backup"@ != "force"@);
    assert("backup"@[0] != "relative"@[0]);
    assert("backup"@ != "relative"@);
    assert("backup"@[0] != "glob"@[0]);
    assert("backup"@ != "glob"@);
    assert("backup"@[0] != "ignore-missing"@[0]);
    assert("backup"@ != "ignore-missing"@);
    assert("type"@[0] != "path"@[0]);
    assert("type"@ != "path"@);
    assert("type"@[0] != "create"@[0]);
    assert("type"@ != "create"@);
    assert("type"@[0] != "relink"@[0]);
    assert("type"@ != "relink"@);
    assert("type"@[0] != "force"@[0]);
    assert("type"@ != "force"@);
    assert("type"@[0] != "relative"@[0]);
    assert("type"@ != "relative"@);
    assert("type"@[0] != "glob"@[0]);
    assert("type"@ != "glob"@);
    assert("type"@[0] != "ignore-missing"@[0]);
    assert("type"@ != "ignore-missing"@);
    assert("type"@[0] != "backup"@[0]);
    assert("type"@ != "backup"@);
    assert("canonicalize"@[0] != "path"@[0]);
    assert("canonicalize"@ != "path"@);
    assert("canonicalize"@[1] != "create"@[1]);
    assert("canonicalize"@ != "create"@);
    assert("canonicalize"@[0] != "relink"@[0]);
    assert("canonicalize"@ != "relink"@);
    assert("canonicalize"@[0] != "force"@[0]);
    assert("canonicalize"@ != "force"@);
    assert("canonicalize"@[0] != "relative"@[0]);
    assert("canonicalize"@ != "relative"@);
    assert("canonicalize"@[0] != "glob"@[0]);
    assert("canonicalize"@ != "glob"@);
    assert("canonicalize"@[0] != "ignore-missing"@[0]);
    assert("canonicalize"@ != "ignore-missing"@);
    assert("canonicalize"@[0] != "backup"@[0]);
    assert("canonicalize"@ != "backup"@);
    assert("canonicalize"@[0] != "type"@[0]);
    assert("canonicalize"@ != "type"@);
    assert("canonicalize-path"@[0] != "path"@[0]);
    assert("canonicalize-path"@ != "path"@);
    assert("canonicalize-path"@[1] != "create"@[1]);
    assert("canonicalize-path"@ != "create"@);
    assert("canonicalize-path"@[0] != "relink"@[0]);
    assert("canonicalize-path"@ != "relink"@);
    assert("canonicalize-path"@[0] != "force"@[0]);
    assert("canonicalize-path"@ != "force"@);
    assert("canonicalize-path"@[0] != "relative"@[0]);
    assert("canonicalize-path"@ != "relative"@);
    assert("canonicalize-path"@[0] != "glob"@[0]);
    assert("canonicalize-path"@ != "glob"@);
    assert("canonicalize-path"@[0] != "ignore-missing"@[0]);
    assert("canonicalize-path"@ != "ignore-missing"@);
    assert("canonicalize-path"@[0] != "backup"@[0]);
    assert("canonicalize-path"@ != "backup"@);
    assert("canonicalize-path"@[0] != "type"@[0]);
    assert("canonicalize-path"@ != "type"@);
    assert("canonicalize-path"@.len() != "canonicalize"@.len());
    assert("canonicalize-path"@ != "canonicalize"@);
    assert("prefix"@[1] != "path"@[1]);
    assert("prefix"@ != "path"@);
    assert("prefix"@[0] != "create"@[0]);
    assert("prefix"@ != "create"@);
    assert("prefix"@[0] != "relink"@[0]);
    assert("prefix"@ != "relink"@);
    assert("prefix"@[0] != "force"@[0]);
    assert("prefix"@ != "force"@);
    assert("prefix"@[0] != "relative"@[0]);
    assert("prefix"@ != "relative"@);
    assert("prefix"@[0] != "glob"@[0]);
    assert("prefix"@ != "glob"@);
    assert("prefix"@[0] != "ignore-missing"@[0]);
    assert("prefix"@ != "ignore-missing"@);
    assert("prefix"@[0] != "backup"@[0]);
    assert("prefix"@ != "backup"@);
    assert("prefix"@[0] != "type"@[0]);
    assert("prefix"@ != "type"@);
    assert("prefix"@[0] != "canonicalize"@[0]);
    assert("prefix"@ != "canonicalize"@);
    assert("prefix"@[0] != "canonicalize-path"@[0]);
    assert("prefix"@ != "canonicalize-path"@);
    assert("exclude"@[0] != "path"@[0]);
    assert("exclude"@ != "path"@);
    assert("exclude"@[0] != "create"@[0]);
    assert("exclude"@ != "create"@);
    assert("exclude"@[0] != "relink"@[0]);
    assert("exclude"@ != "relink"@);
    assert("exclude"@[0] != "force"@[0]);
    assert("exclude"@ != "force"@);
    assert("exclude"@[0] != "relative"@[0]);
    assert("exclude"@ != "relative"@);
    assert("exclude"@[0] != "glob"@[0]);
    assert("exclude"@ != "glob"@);
    assert("exclude"@[0] != "ignore-missing"@[0]);
    assert("exclude"@ != "ignore-missing"@);
    assert("exclude"@[0] != "backup"@[0]);
    assert("exclude"@ != "backup"@);
    assert("exclude"@[0] != "type"@[0]);
    assert("exclude"@ != "type"@);
    assert("exclude"@[0] != "canonicalize"@[0]);
    assert("exclude"@ != "canonicalize"@);
    assert("exclude"@[0] != "canonicalize-path"@[0]);
    assert("exclude"@ != "canonicalize-path"@);
    assert("exclude"@[0] != "prefix"@[0]);
    assert("exclude"@ != "prefix"@);
    assert("if"@[0] != "path"@[0]);
    assert("if"@ != "path"@);
    assert("if"@[0] != "create"@[0]);
    assert("if"@ != "create"@);
    assert("if"@[0] != "relink"@[0]);
    assert("if"@ != "relink"@);
    assert("if"@[0] != "force"@[0]);
    assert("if"@ != "force"@);
    assert("if"@[0] != "relative"@[0]);
    assert("if"@ != "relative"@);
    assert("if"@[0] != "glob"@[0]);
    assert("if"@ != "glob"@);
    assert("if"@[1] != "ignore-missing"@[1]);
    assert("if"@ != "ignore-missing"@);
    assert("if"@[0] != "backup"@[0]);
    assert("if"@ != "backup"@);
    assert("if"@[0] != "type"@[0]);
    assert("if"@ != "type"@);
    assert("if"@[0] != "canonicalize"@[0]);
    assert("if"@ != "canonicalize"@);
    assert("if"@[0] != "canonicalize-path"@[0]);
    assert("if"@ != "canonicalize-path"@);
    assert("if"@[0] != "prefix"@[0]);
    assert("if"@ != "prefix"@);
    assert("if"@[0] != "exclude"@[0]);
    assert("if"@ != "exclude"@);
}

proof fn lemma_shell_step_fields(acc: ShellOptions, e: YamlEntry)
    requires
        shell_option_step(acc, e.key, e.value) is Ok,
    ensures
        ({
            let k = e.key.text@;
            let n = shell_option_step(acc, e.key, e.value)->Ok_0;
            &&& k == "stdin"@ ==> bool_value(e.value) is Ok && n.stdin == Some(bool_value(e.value)->Ok_0)
            &&& k != "stdin"@ ==> n.stdin == acc.stdin
            &&& k == "stdout"@ ==> bool_value(e.value) is Ok && n.stdout == Some(bool_value(e.value)->Ok_0)
            &&& k != "stdout"@ ==> n.stdout == acc.stdout
            &&& k == "stderr"@ ==> bool_value(e.value) is Ok && n.stderr == Some(bool_value(e.value)->Ok_0)
            &&& k != "stderr"@ ==> n.stderr == acc.stderr
            &&& k == "quiet"@ ==> bool_value(e.value) is Ok && n.quiet == Some(bool_value(e.value)->Ok_0)
            &&& k != "quiet"@ ==> n.quiet == acc.quiet
        }),
{
    reveal_strlit("stdin");
    reveal_strlit("stdout");
    reveal_strlit("stderr");
    reveal_strlit("quiet");
    assert("stdout"@[3] != "stdin"@[3]);
    assert("stdout"@ != "stdin"@);
    assert("stderr"@[3] != "stdin"@[3]);
    assert("stderr"@ != "stdin"@);
    assert("stderr"@[3] != "stdout"@[3]);
    assert("stderr"@ != "stdout"@);
    assert("quiet"@[0] != "stdin"@[0]);
    assert("quiet"@ != "stdin"@);
    assert("quiet"@[0] != "stdout"@[0]);
    assert("quiet"@ != "stdout"@);
    assert("quiet"@[0] != "stderr"@[0]);
    assert("quiet"@ != "stderr"@);
}

proof fn lemma_clean_step_fields(acc: CleanOptions, e: YamlEntry)
    requires
        clean_option_step(acc, e.key, e.value) is Ok,
    ensures
        ({
            let k = e.key.text@;
            let n = clean_option_step(acc, e.key, e.value)->Ok_0;
            &&& k == "force"@ ==> bool_value(e.value) is Ok && n.force == Some(bool_value(e.value)->Ok_0)
            &&& k != "force"@ ==> n.force == acc.force
            &&& k == "recursive"@ ==> bool_value(e.value) is Ok && n.recursive == Some(bool_value(e.value)->Ok_0)
            &&& k != "recursive"@ ==> n.recursive == acc.recursive
        }),
{
    reveal_strlit("force");
    reveal_strlit("recursive");
    assert("recursive"@[0] != "force"@[0]);
    assert("recursive"@ != "force"@);
}

/// In a link options mapping that parses, every option holds the value of the
/// last entry with its key (read as that option reads values: a boolean word,
/// or a string's text) and is unset when no entry has its key.
pub proof fn link_options_take_each_keys_last_value(es: Seq<YamlEntry>, o: LinkOptionsView)
    requires
        fold_entries(es, unset_link_options(), link_option_entry()) == Ok::<
            LinkOptionsView,
            ParseErrorView,
        >(o),
    ensures
        o.path == last_value(es, key_named("path"@), text_read()),
        o.create == last_value(es, key_named("create"@), bool_read()),
        o.relink == last_value(es, key_named("relink"@), bool_read()),
        o.force == last_value(es, key_named("force"@), bool_read()),
        o.relative == last_value(es, key_named("relative"@), bool_read()),
        o.glob == last_value(es, key_named("glob"@), bool_read()),
        o.ignore_missing == last_value(es, key_named("ignore-missing"@), bool_read()),
        o.backup == last_value(es, key_named("backup"@), bool_read()),
        o.link_type == last_value(es, key_named("type"@), text_read()),
        o.canonicalize == last_value(es, canonicalize_key(), bool_read()),
        o.prefix == last_value(es, key_named("prefix"@), text_read()),
{
    assert forall|acc: LinkOptionsView, e: YamlEntry| (#[trigger] link_option_entry()(acc, e)) is Ok implies if key_named("path"@)(
        e.key.text@,
    ) {
        text_read()(e.value) is Ok && link_option_entry()(acc, e)->Ok_0.path == Some(text_read()(e.value)->Ok_0)
    } else {
        link_option_entry()(acc, e)->Ok_0.path == acc.path
    } by {
        lemma_link_step_fields(acc, e);
    }
    lemma_last_value_wins(es, unset_link_options(), link_option_entry(), key_named("path"@), text_read(), |x: LinkOptionsView| x.path, o);
    assert forall|acc: LinkOptionsView, e: YamlEntry| (#[trigger] link_option_entry()(acc, e)) is Ok implies if key_named("create"@)(
        e.key.text@,
    ) {
        bool_read()(e.value) is Ok && link_option_entry()(acc, e)->Ok_0.create == Some(bool_read()(e.value)->Ok_0)
    } else {
        link_option_entry()(acc, e)->Ok_0.create == acc.create
    } by {
        lemma_link_step_fields(acc, e);
    }
    lemma_last_value_wins(es, unset_link_options(), link_option_entry(), key_named("create"@), bool_read(), |x: LinkOptionsView| x.create, o);
    assert forall|acc: LinkOptionsView, e: YamlEntry| (#[trigger] link_option_entry()(acc, e)) is Ok implies if key_named("relink"@)(
        e.key.text@,
    ) {
        bool_read()(e.value) is Ok && link_option_entry()(acc, e)->Ok_0.relink == Some(bool_read()(e.value)->Ok_0)
    } else {
        link_option_entry()(acc, e)->Ok_0.relink == acc.relink
    } by {
        lemma_link_step_fields(acc, e);
    }
    lemma_last_value_wins(es, unset_link_options(), link_option_entry(), key_named("relink"@), bool_read(), |x: LinkOptionsView| x.relink, o);
    assert forall|acc: LinkOptionsView, e: YamlEntry| (#[trigger] link_option_entry()(acc, e)) is Ok implies if key_named("force"@)(
        e.key.text@,
    ) {
        bool_read()(e.value) is Ok && link_option_entry()(acc, e)->Ok_0.force == Some(bool_read()(e.value)->Ok_0)
    } else {
        link_option_entry()(acc, e)->Ok_0.force == acc.force
    } by {
        lemma_link_step_fields(acc, e);
    }
    lemma_last_value_wins(es, unset_link_options(), link_option_entry(), key_named("force"@), bool_read(), |x: LinkOptionsView| x.force, o);
    assert forall|acc: LinkOptionsView, e: YamlEntry| (#[trigger] link_option_entry()(acc, e)) is Ok implies if key_named("relative"@)(
        e.key.text@,
    ) {
        bool_read()(e.value) is Ok && link_option_entry()(acc, e)->Ok_0.relative == Some(bool_read()(e.value)->Ok_0)
    } else {
        link_option_entry()(acc, e)->Ok_0.relative == acc.relative
    } by {
        lemma_link_step_fields(acc, e);
    }
    lemma_last_value_wins(es, unset_link_options(), link_option_entry(), key_named("relative"@), bool_read(), |x: LinkOptionsView| x.relative, o);
    assert forall|acc: LinkOptionsView, e: YamlEntry| (#[trigger] link_option_entry()(acc, e)) is Ok implies if key_named("glob"@)(
        e.key.text@,
    ) {
        bool_read()(e.value) is Ok && link_option_entry()(acc, e)->Ok_0.glob == Some(bool_read()(e.value)->Ok_0)
    } else {
        link_option_entry()(acc, e)->Ok_0.glob == acc.glob
    } by {
        lemma_link_step_fields(acc, e);
    }
    lemma_last_value_wins(es, unset_link_options(), link_option_entry(), key_named("glob"@), bool_read(), |x: LinkOptionsView| x.glob, o);
    assert forall|acc: LinkOptionsView, e: YamlEntry| (#[trigger] link_option_entry()(acc, e)) is Ok implies if key_named("ignore-missing"@)(
        e.key.text@,
    ) {
        bool_read()(e.value) is Ok && link_option_entry()(acc, e)->Ok_0.ignore_missing == Some(bool_read()(e.value)->Ok_0)
    } else {
        link_option_entry()(acc, e)->Ok_0.ignore_missing == acc.ignore_missing
    } by {
        lemma_link_step_fields(acc, e);
    }
    lemma_last_value_wins(es, unset_link_options(), link_option_entry(), key_named("ignore-missing"@), bool_read(), |x: LinkOptionsView| x.ignore_missing, o);
    assert forall|acc: LinkOptionsView, e: YamlEntry| (#[trigger] link_option_entry()(acc, e)) is Ok implies if key_named("backup"@)(
        e.key.text@,
    ) {
        bool_read()(e.value) is Ok && link_option_entry()(acc, e)->Ok_0.backup == Some(bool_read()(e.value)->Ok_0)
    } else {
        link_option_entry()(acc, e)->Ok_0.backup == acc.backup
    } by {
        lemma_link_step_fields(acc, e);
    }
    lemma_last_value_wins(es, unset_link_options(), link_option_entry(), key_named("backup"@), bool_read(), |x: LinkOptionsView| x.backup, o);
    assert forall|acc: LinkOptionsView, e: YamlEntry| (#[trigger] link_option_entry()(acc, e)) is Ok implies if key_named("type"@)(
        e.key.text@,
    ) {
        text_read()(e.value) is Ok && link_option_entry()(acc, e)->Ok_0.link_type == Some(text_read()(e.value)->Ok_0)
    } else {
        link_option_entry()(acc, e)->Ok_0.link_type == acc.link_type
    } by {
        lemma_link_step_fields(acc, e);
    }
    lemma_last_value_wins(es, unset_link_options(), link_option_entry(), key_named("type"@), text_read(), |x: LinkOptionsView| x.link_type, o);
    assert forall|acc: LinkOptionsView, e: YamlEntry| (#[trigger] link_option_entry()(acc, e)) is Ok implies if canonicalize_key()(
        e.key.text@,
    ) {
        bool_read()(e.value) is Ok && link_option_entry()(acc, e)->Ok_0.canonicalize == Some(bool_read()(e.value)->Ok_0)
    } else {
        link_option_entry()(acc, e)->Ok_0.canonicalize == acc.canonicalize
    } by {
        lemma_link_step_fields(acc, e);
    }
    lemma_last_value_wins(es, unset_link_options(), link_option_entry(), canonicalize_key(), bool_read(), |x: LinkOptionsView| x.canonicalize, o);
    assert forall|acc: LinkOptionsView, e: YamlEntry| (#[trigger] link_option_entry()(acc, e)) is Ok implies if key_named("prefix"@)(
        e.key.text@,
    ) {
        text_read()(e.value) is Ok && link_option_entry()(acc, e)->Ok_0.prefix == Some(text_read()(e.value)->Ok_0)
    } else {
        link_option_entry()(acc, e)->Ok_0.prefix == acc.prefix
    } by {
        lemma_link_step_fields(acc, e);
    }
    lemma_last_value_wins(es, unset_link_options(), link_option_entry(), key_named("prefix"@), text_read(), |x: LinkOptionsView| x.prefix, o);
}

/// In a shell options mapping that parses, every option holds the boolean
/// word of the last entry with its key and is unset when no entry has it.
pub proof fn shell_options_take_each_keys_last_value(es: Seq<YamlEntry>, o: ShellOptions)
    requires
        fold_entries(es, unset_shell_options(), shell_option_entry()) == Ok::<
            ShellOptions,
            ParseErrorView,
        >(o),
    ensures
        o.stdin == last_value(es, key_named("stdin"@), bool_read()),
        o.stdout == last_value(es, key_named("stdout"@), bool_read()),
        o.stderr == last_value(es, key_named("stderr"@), bool_read()),
        o.quiet == last_value(es, key_named("quiet"@), bool_read()),
{
    assert forall|acc: ShellOptions, e: YamlEntry| (#[trigger] shell_option_entry()(acc, e)) is Ok implies if key_named("stdin"@)(
        e.key.text@,
    ) {
        bool_read()(e.value) is Ok && shell_option_entry()(acc, e)->Ok_0.stdin == Some(bool_read()(e.value)->Ok_0)
    } else {
        shell_option_entry()(acc, e)->Ok_0.stdin == acc.stdin
    } by {
        lemma_shell_step_fields(acc, e);
    }
    lemma_last_value_wins(es, unset_shell_options(), shell_option_entry(), key_named("stdin"@), bool_read(), |x: ShellOptions| x.stdin, o);
    assert forall|acc: ShellOptions, e: YamlEntry| (#[trigger] shell_option_entry()(acc, e)) is Ok implies if key_named("stdout"@)(
        e.key.text@,
    ) {
        bool_read()(e.value) is Ok && shell_option_entry()(acc, e)->Ok_0.stdout == Some(bool_read()(e.value)->Ok_0)
    } else {
        shell_option_entry()(acc, e)->Ok_0.stdout == acc.stdout
    } by {
        lemma_shell_step_fields(acc, e);
    }
    lemma_last_value_wins(es, unset_shell_options(), shell_option_entry(), key_named("stdout"@), bool_read(), |x: ShellOptions| x.stdout, o);
    assert forall|acc: ShellOptions, e: YamlEntry| (#[trigger] shell_option_entry()(acc, e)) is Ok implies if key_named("stderr"@)(
        e.key.text@,
    ) {
        bool_read()(e.value) is Ok && shell_option_entry()(acc, e)->Ok_0.stderr == Some(bool_read()(e.value)->Ok_0)
    } else {
        shell_option_entry()(acc, e)->Ok_0.stderr == acc.stderr
    } by {
        lemma_shell_step_fields(acc, e);
    }
    lemma_last_value_wins(es, unset_shell_options(), shell_option_entry(), key_named("stderr"@), bool_read(), |x: ShellOptions| x.stderr, o);
    assert forall|acc: ShellOptions, e: YamlEntry| (#[trigger] shell_option_entry()(acc, e)) is Ok implies if key_named("quiet"@)(
        e.key.text@,
    ) {
        bool_read()(e.value) is Ok && shell_option_entry()(acc, e)->Ok_0.quiet == Some(bool_read()(e.value)->Ok_0)
    } else {
        shell_option_entry()(acc, e)->Ok_0.quiet == acc.quiet
    } by {
        lemma_shell_step_fields(acc, e);
    }
    lemma_last_value_wins(es, unset_shell_options(), shell_option_entry(), key_named("quiet"@), bool_read(), |x: ShellOptions| x.quiet, o);
}

/// In a clean options mapping that parses, every option holds the boolean
/// word of the last entry with its key and is unset when no entry has it.
pub proof fn clean_options_take_each_keys_last_value(es: Seq<YamlEntry>, o: CleanOptions)
    requires
        fold_entries(es, unset_clean_options(), clean_option_entry()) == Ok::<
            CleanOptions,
            ParseErrorView,
        >(o),
    ensures
        o.force == last_value(es, key_named("force"@), bool_read()),
        o.recursive == last_value(es, key_named("recursive"@), bool_read()),
{
    assert forall|acc: CleanOptions, e: YamlEntry| (#[trigger] clean_option_entry()(acc, e)) is Ok implies if key_named("force"@)(
        e.key.text@,
    ) {
        bool_read()(e.value) is Ok && clean_option_entry()(acc, e)->Ok_0.force == Some(bool_read()(e.value)->Ok_0)
    } else {
        clean_option_entry()(acc, e)->Ok_0.force == acc.force
    } by {
        lemma_clean_step_fields(acc, e);
    }
    lemma_last_value_wins(es, unset_clean_options(), clean_option_entry(), key_named("force"@), bool_read(), |x: CleanOptions| x.force, o);
    assert forall|acc: CleanOptions, e: YamlEntry| (#[trigger] clean_option_entry()(acc, e)) is Ok implies if key_named("recursive"@)(
        e.key.text@,
    ) {
        bool_read()(e.value) is Ok && clean_option_entry()(acc, e)->Ok_0.recursive == Some(bool_read()(e.value)->Ok_0)
    } else {
        clean_option_entry()(acc, e)->Ok_0.recursive == acc.recursive
    } by {
        lemma_clean_step_fields(acc, e);
    }
    lemma_last_value_wins(es, unset_clean_options(), clean_option_entry(), key_named("recursive"@), bool_read(), |x: CleanOptions| x.recursive, o);
}

proof fn lemma_defaults_step_fields(acc: DefaultsView, e: YamlEntry)
    requires
        defaults_step(acc, e.key, e.value) is Ok,
    ensures
        ({
            let k = e.key.text@;
            let n = defaults_step(acc, e.key, e.value)->Ok_0;
            &&& k == "link"@ ==> link_options_of(e.value) is Ok && n.link == Some(
                link_options_of(e.value)->Ok_0,
            )
            &&& k != "link"@ ==> n.link == acc.link
            &&& k == "shell"@ ==> shell_options_of(e.value) is Ok && n.shell == Some(
                shell_options_of(e.value)->Ok_0,
            )
            &&& k != "shell"@ ==> n.shell == acc.shell
            &&& k == "clean"@ ==> clean_options_of(e.value) is Ok && n.clean == Some(
                clean_options_of(e.value)->Ok_0,
            )
            &&& k != "clean"@ ==> n.clean == acc.clean
        }),
{
    reveal_strlit("link");
    reveal_strlit("shell");
    reveal_strlit("clean");
    assert("shell"@[0] != "link"@[0]);
    assert("clean"@[0] != "link"@[0]);
    assert("clean"@[0] != "shell"@[0]);
}

/// A section of a `defaults:` mapping parsed as its kind of options.
pub open spec fn link_section() -> spec_fn(YamlNode) -> Result<LinkOptionsView, ParseErrorView> {
    |v: YamlNode| link_options_of(v)
}

/// A section of a `defaults:` mapping parsed as shell options.
pub open spec fn shell_section() -> spec_fn(YamlNode) -> Result<ShellOptions, ParseErrorView> {
    |v: YamlNode| shell_options_of(v)
}

/// A section of a `defaults:` mapping parsed as clean options.
pub open spec fn clean_section() -> spec_fn(YamlNode) -> Result<CleanOptions, ParseErrorView> {
    |v: YamlNode| clean_options_of(v)
}

/// In a `defaults:` mapping that parses, each of the `link`, `shell` and
/// `clean` sections is the options of the last entry with that key, and is
/// absent when no entry has it.
pub proof fn defaults_take_each_sections_last_value(es: Seq<YamlEntry>, d: DefaultsView)
    requires
        fold_entries(es, no_defaults(), defaults_entry()) == Ok::<DefaultsView, ParseErrorView>(d),
    ensures
        d.link == last_value(es, key_named("link"@), link_section()),
        d.shell == last_value(es, key_named("shell"@), shell_section()),
        d.clean == last_value(es, key_named("clean"@), clean_section()),
{
    assert forall|acc: DefaultsView, e: YamlEntry| (#[trigger] defaults_entry()(acc, e)) is Ok
        implies if key_named("link"@)(e.key.text@) {
        link_section()(e.value) is Ok && defaults_entry()(acc, e)->Ok_0.link == Some(
            link_section()(e.value)->Ok_0,
        )
    } else {
        defaults_entry()(acc, e)->Ok_0.link == acc.link
    } by {
        lemma_defaults_step_fields(acc, e);
    }
    lemma_last_value_wins(
        es,
        no_defaults(),
        defaults_entry(),
        key_named("link"@),
        link_section(),
        |x: DefaultsView| x.link,
        d,
    );
    assert forall|acc: DefaultsView, e: YamlEntry| (#[trigger] defaults_entry()(acc, e)) is Ok
        implies if key_named("shell"@)(e.key.text@) {
        shell_section()(e.value) is Ok && defaults_entry()(acc, e)->Ok_0.shell == Some(
            shell_section()(e.value)->Ok_0,
        )
    } else {
        defaults_entry()(acc, e)->Ok_0.shell == acc.shell
    } by {
        lemma_defaults_step_fields(acc, e);
    }
    lemma_last_value_wins(
        es,
        no_defaults(),
        defaults_entry(),
        key_named("shell"@),
        shell_section(),
        |x: DefaultsView| x.shell,
        d,
    );
    assert forall|acc: DefaultsView, e: YamlEntry| (#[trigger] defaults_entry()(acc, e)) is Ok
        implies if key_named("clean"@)(e.key.text@) {
        clean_section()(e.value) is Ok && defaults_entry()(acc, e)->Ok_0.clean == Some(
            clean_section()(e.value)->Ok_0,
        )
    } else {
        defaults_entry()(acc, e)->Ok_0.clean == acc.clean
    } by {
        lemma_defaults_step_fields(acc, e);
    }
    lemma_last_value_wins(
        es,
        no_defaults(),
        defaults_entry(),
        key_named("clean"@),
        clean_section(),
        |x: DefaultsView| x.clean,
        d,
    );
}

/// A value read as a file mode.
pub open spec fn mode_read() -> spec_fn(YamlNode) -> Result<u32, ParseErrorView> {
    |v: YamlNode| mode_value(v)
}

/// In a create entry's options that parse, the mode is the value of the last
/// `mode` entry, and unset when there is none.
pub proof fn create_mode_is_the_last_mode(es: Seq<YamlEntry>, m: Option<u32>)
    requires
        fold_entries(es, None, mode_step()) == Ok::<Option<u32>, ParseErrorView>(m),
    ensures
        m == last_value(es, key_named("mode"@), mode_read()),
{
    lemma_last_value_wins(es, None, mode_step(), key_named("mode"@), mode_read(), |x: Option<u32>| x, m);
}

} // verus!
