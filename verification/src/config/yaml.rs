//! The YAML document as plain values, and the call into `marked_yaml` that
//! produces it.
//!
//! The profile parser walks this tree. It keeps what the parser reads:
//! scalars as raw text (no type coercion, so `on`/`yes`/`0700` stay strings),
//! mapping entries in declaration order, and the 1-based start position of
//! every node for error messages.

use marked_yaml::LoadError as Refusal;
use vstd::prelude::*;

verus! {

/// A 1-based source position.
#[derive(Debug, Clone, Copy, PartialEq, Eq)]
pub struct Mark {
    /// 1-based line.
    pub line: usize,
    /// Column as reported by the YAML loader.
    pub column: usize,
}

/// A scalar: its raw text and where it starts.
#[derive(Debug, Clone, PartialEq, Eq)]
pub struct YamlScalar {
    /// The raw scalar text.
    pub text: String,
    /// Start position, when known.
    pub start: Option<Mark>,
}

/// One `key: value` pair of a mapping.
#[derive(Debug)]
pub struct YamlEntry {
    /// The (scalar) key.
    pub key: YamlScalar,
    /// The value.
    pub value: YamlNode,
}

/// A YAML node.
#[derive(Debug)]
pub enum YamlNode {
    /// A scalar.
    Scalar(YamlScalar),
    /// A mapping, entries in declaration order, and its start position.
    Mapping(Vec<YamlEntry>, Option<Mark>),
    /// A sequence and its start position.
    Sequence(Vec<YamlNode>, Option<Mark>),
}

/// Why the YAML loader refused a document.
#[derive(Debug, Clone, PartialEq, Eq)]
pub enum YamlLoadError {
    /// The root is not a mapping.
    TopLevelMustBeMapping(Mark),
    /// The root is not a sequence.
    TopLevelMustBeSequence(Mark),
    /// An anchor or alias was used.
    UnexpectedAnchor(Mark),
    /// A mapping key is not a scalar.
    MappingKeyMustBeScalar(Mark),
    /// An explicit tag was used.
    UnexpectedTag(Mark),
    /// The scanner failed; the text is its message.
    Scan(Mark, String),
    /// A key occurs twice in one mapping (only when the loader is asked to
    /// refuse duplicates, which this crate never does).
    DuplicateKey,
}

/// The document that `marked_yaml` loads from `src` (with scalar coercion
/// off), as plain values.
pub uninterp spec fn yaml_document(src: Seq<char>) -> Result<YamlNode, YamlLoadError>;

#[verifier::external_type_specification]
#[verifier::external_body]
pub struct ExMarkedNode(marked_yaml::Node);

/// Loads `src` with `marked_yaml::parse_yaml_with_options` (coercion
/// prevented; top level must be a mapping; duplicate keys permitted, last
/// wins) and converts the result to plain values. Only the name of the result
/// is claimed.
#[verifier::external_body]
pub fn load_yaml(src: &str) -> (r: Result<YamlNode, YamlLoadError>)
    ensures
        r == yaml_document(src@),
{
    let opts = marked_yaml::LoaderOptions::default().prevent_coercion(true);
    match marked_yaml::parse_yaml_with_options(0, src, opts) {
        Ok(root) => Ok(tree_of(&root)),
        Err(e) => Err(match e {
            Refusal::TopLevelMustBeMapping(m) => YamlLoadError::TopLevelMustBeMapping(mark_of(m)),
            Refusal::TopLevelMustBeSequence(m) => YamlLoadError::TopLevelMustBeSequence(mark_of(m)),
            Refusal::UnexpectedAnchor(m) => YamlLoadError::UnexpectedAnchor(mark_of(m)),
            Refusal::MappingKeyMustBeScalar(m) => YamlLoadError::MappingKeyMustBeScalar(mark_of(m)),
            Refusal::UnexpectedTag(m) => YamlLoadError::UnexpectedTag(mark_of(m)),
            Refusal::ScanError(m, e) => YamlLoadError::Scan(mark_of(m), format!("{e}")),
            Refusal::DuplicateKey(_) => YamlLoadError::DuplicateKey,
        }),
    }
}

#[verifier::external_type_specification]
#[verifier::external_body]
pub struct ExMarker(marked_yaml::Marker);

#[verifier::external_type_specification]
#[verifier::external_body]
pub struct ExMarkedScalarNode(marked_yaml::types::MarkedScalarNode);

/// Converts a `marked_yaml` position (part of [`load_yaml`]'s conversion).
#[verifier::external_body]
fn mark_of(m: marked_yaml::Marker) -> Mark {
    Mark { line: m.line(), column: m.column() }
}

/// Converts a `marked_yaml` scalar: its raw text and start (part of
/// [`load_yaml`]'s conversion).
#[verifier::external_body]
fn scalar_of(s: &marked_yaml::types::MarkedScalarNode) -> YamlScalar {
    YamlScalar { text: s.as_str().to_string(), start: s.span().start().copied().map(mark_of) }
}

/// Converts a `marked_yaml` node to plain values, node for node, mapping
/// entries in their order (part of [`load_yaml`]'s conversion).
#[verifier::external_body]
fn tree_of(n: &marked_yaml::Node) -> YamlNode {
    match n {
        marked_yaml::Node::Scalar(s) => YamlNode::Scalar(scalar_of(s)),
        marked_yaml::Node::Mapping(m) => YamlNode::Mapping(
            m.iter().map(|(k, v)| YamlEntry { key: scalar_of(k), value: tree_of(v) }).collect(),
            m.span().start().copied().map(mark_of),
        ),
        marked_yaml::Node::Sequence(q) => YamlNode::Sequence(
            q.iter().map(tree_of).collect(),
            q.span().start().copied().map(mark_of),
        ),
    }
}

} // verus!
