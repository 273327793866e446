//! Error rendering, loading from read contents, and the parser over
//! hand-built documents.

use dfm::config::error::{LoadError, ParseError};
use dfm::config::parse::{config_from_yaml, load_contents, parse_str, parse_u32_radix, IntError};
use dfm::config::yaml::{Mark, YamlEntry, YamlLoadError, YamlNode, YamlScalar};
use dfm::config::DirectiveKind;
use dfm::engine::options::ApplyError;
use dfm::state::StateError;

fn scalar(text: &str, line: usize) -> YamlScalar {
    YamlScalar { text: text.to_string(), start: Some(Mark { line, column: 1 }) }
}

#[test]
fn parse_error_renders_position_when_known() {
    assert_eq!(ParseError::at(4, 5, "bad".to_string()).to_string(), "line 4:5: bad");
    assert_eq!(ParseError::msg("bad".to_string()).to_string(), "bad");
}

#[test]
fn load_errors_render_with_their_path() {
    let open = LoadError::Open { path: "/p.yaml".to_string(), reason: "denied".to_string() };
    assert_eq!(open.to_string(), "config: open /p.yaml: denied");
    let parse = LoadError::Parse {
        path: "/p.yaml".to_string(),
        source: ParseError::at(2, 3, "oops".to_string()),
    };
    assert_eq!(parse.to_string(), "config: parse /p.yaml: line 2:3: oops");
}

#[test]
fn load_contents_records_path_and_wraps_errors() {
    let cfg = load_contents("/p.yaml".to_string(), Ok("link:\n  a: b\n".to_string())).unwrap();
    assert_eq!(cfg.path, "/p.yaml");
    assert_eq!(cfg.directives.len(), 1);
    let open = load_contents("/p.yaml".to_string(), Err("No such file".to_string()));
    assert_eq!(
        open.unwrap_err(),
        LoadError::Open { path: "/p.yaml".to_string(), reason: "No such file".to_string() }
    );
    match load_contents("/p.yaml".to_string(), Ok("nope: 1\n".to_string())).unwrap_err() {
        LoadError::Parse { path, source } => {
            assert_eq!(path, "/p.yaml");
            assert!(source.msg.contains("unknown directive"));
        }
        other => panic!("unexpected {other:?}"),
    }
}

#[test]
fn directives_carry_their_key_line() {
    let root = YamlNode::Mapping(
        vec![
            YamlEntry {
                key: scalar("clean", 2),
                value: YamlNode::Sequence(vec![YamlNode::Scalar(scalar("~", 3))], None),
            },
            YamlEntry {
                key: scalar("create", 5),
                value: YamlNode::Sequence(vec![YamlNode::Scalar(scalar("~/x", 6))], None),
            },
        ],
        Some(Mark { line: 2, column: 1 }),
    );
    let cfg = config_from_yaml(Ok(root)).unwrap();
    assert_eq!(cfg.directives.len(), 2);
    assert_eq!(cfg.directives[0].line, 2);
    assert_eq!(cfg.directives[1].line, 5);
    assert_eq!(cfg.directives[0].kind.name(), "clean");
    assert!(matches!(cfg.directives[1].kind, DirectiveKind::Create(_)));
}

#[test]
fn loader_refusals_become_positioned_errors() {
    let m = Mark { line: 3, column: 7 };
    let e = config_from_yaml(Err(YamlLoadError::UnexpectedAnchor(m))).unwrap_err();
    assert_eq!((e.line, e.column), (3, 7));
    assert_eq!(e.msg, "anchors/aliases are not supported in profiles");
    let e = config_from_yaml(Err(YamlLoadError::Scan(m, "bad indent".to_string()))).unwrap_err();
    assert_eq!(e.to_string(), "line 3:7: yaml: bad indent");
    let e = config_from_yaml(Err(YamlLoadError::DuplicateKey)).unwrap_err();
    assert_eq!(e.to_string(), "duplicate key");
    let e = config_from_yaml(Err(YamlLoadError::UnexpectedTag(m))).unwrap_err();
    assert_eq!(e.msg, "explicit YAML tags are not supported");
    let e = config_from_yaml(Err(YamlLoadError::MappingKeyMustBeScalar(m))).unwrap_err();
    assert_eq!(e.msg, "mapping keys must be scalars");
    let e = config_from_yaml(Err(YamlLoadError::TopLevelMustBeSequence(m))).unwrap_err();
    assert_eq!(e.msg, "top-level must be a sequence");
}

#[test]
fn scalar_root_is_refused() {
    let e = config_from_yaml(Ok(YamlNode::Scalar(scalar("x", 1)))).unwrap_err();
    assert!(e.msg.starts_with("top-level must be a mapping"));
    assert_eq!(e.line, 1);
}

#[test]
fn radix_parsing_errors() {
    let c = |s: &str| s.chars().collect::<Vec<char>>();
    assert_eq!(parse_u32_radix(&c("755"), 8), Ok(0o755));
    assert_eq!(parse_u32_radix(&c("4294967295"), 10), Ok(u32::MAX));
    assert_eq!(parse_u32_radix(&c("4294967296"), 10), Err(IntError::PosOverflow));
    assert_eq!(parse_u32_radix(&c("8"), 8), Err(IntError::InvalidDigit));
    assert_eq!(parse_u32_radix(&c(""), 10), Err(IntError::Empty));
}

#[test]
fn mode_errors_name_the_literal() {
    let e = parse_str("create:\n  ~/d:\n    mode: 0o9\n").unwrap_err();
    assert_eq!(e.msg, "invalid mode \"0o9\": invalid digit found in string");
    let e = parse_str("create:\n  ~/d:\n    mode: 0o\n").unwrap_err();
    assert_eq!(e.msg, "invalid mode \"0o\": cannot parse integer from empty string");
    let e = parse_str("create:\n  ~/d:\n    mode: +7\n").unwrap_err();
    assert_eq!(e.msg, "invalid mode \"+7\": invalid sign");
    let e = parse_str("create:\n  ~/d:\n    mode: 99999999999\n").unwrap_err();
    assert_eq!(e.msg, "invalid mode \"99999999999\": number too large to fit in target type");
}

#[test]
fn shell_entry_needs_a_script() {
    let e = parse_str("shell:\n  - name: nothing\n").unwrap_err();
    assert_eq!(e.msg, "shell: 'script' is required");
}

#[test]
fn comment_lines_with_indentation_are_blank() {
    let cfg = parse_str("   # indented comment\n\t\n# another\n").unwrap();
    assert!(cfg.directives.is_empty());
}

#[test]
fn engine_and_state_errors_render() {
    assert_eq!(ApplyError::Cancelled.to_string(), "apply cancelled");
    let u = ApplyError::UnknownDirective { kind: "x".to_string(), line: 4 };
    assert_eq!(u.to_string(), "engine: unknown directive \"x\" at line 4");
    assert_eq!(StateError::NoHome.to_string(), "state: home dir: $HOME is not set");
    let r = StateError::Read { path: "/s".to_string(), reason: "denied".to_string() };
    assert_eq!(r.to_string(), "state: read /s: denied");
    assert_eq!(StateError::Mkdir("no".to_string()).to_string(), "state: mkdir: no");
    assert_eq!(StateError::Marshal("m".to_string()).to_string(), "state: marshal: m");
    let w = StateError::Write { path: "/s".to_string(), reason: "full".to_string() };
    assert_eq!(w.to_string(), "state: write /s: full");
    let p = StateError::Parse { path: "/s".to_string(), reason: "eof".to_string() };
    assert_eq!(p.to_string(), "state: parse /s: eof");
}
