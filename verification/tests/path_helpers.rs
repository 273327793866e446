//! Path expansion and lexical helpers.

use std::collections::HashMap;

use dfm::engine::path::{
    clean, default_source, expand, expand_env, expand_home, is_inside_any, resolve_base,
    strip_root, PathEnv,
};

struct FakeEnv {
    vars: HashMap<String, String>,
    home: Option<String>,
}

impl PathEnv for FakeEnv {
    fn var(&self, name: &str) -> String {
        self.vars.get(name).cloned().unwrap_or_default()
    }
    fn home(&self) -> Option<String> {
        self.home.clone()
    }
}

fn env(vars: &[(&str, &str)], home: Option<&str>) -> FakeEnv {
    FakeEnv {
        vars: vars
            .iter()
            .map(|(k, v)| ((*k).to_string(), (*v).to_string()))
            .collect(),
        home: home.map(str::to_string),
    }
}

#[test]
fn tilde_expands_to_home() {
    let e = env(&[], Some("/home/u"));
    assert_eq!(expand_home("~/.zshrc", &e), "/home/u/.zshrc");
    assert_eq!(expand_home("~", &e), "/home/u");
}

#[test]
fn tilde_user_falls_back_to_home() {
    let e = env(&[], Some("/home/u"));
    assert_eq!(expand_home("~bob/x", &e), "/home/u/x");
}

#[test]
fn no_tilde_unchanged() {
    let e = env(&[], Some("/home/u"));
    assert_eq!(expand_home("/etc/x", &e), "/etc/x");
    assert_eq!(expand_home("rel/path", &e), "rel/path");
}

#[test]
fn dollar_var_expands() {
    let e = env(&[("FOO", "bar")], Some("/h"));
    assert_eq!(expand_env("$FOO/x", &e), "bar/x");
    assert_eq!(expand_env("${FOO}x", &e), "barx");
}

#[test]
fn unknown_var_is_empty() {
    let e = env(&[], Some("/h"));
    assert_eq!(expand_env("$NOPE/x", &e), "/x");
}

#[test]
fn var_default_syntax_is_literal_not_shell() {
    let e = env(&[("VAR", "v")], Some("/h"));
    assert_eq!(expand_env("${VAR:-default}", &e), "");
}

#[test]
fn full_expand_combines_tilde_and_var() {
    let e = env(&[("SUB", "cfg")], Some("/home/u"));
    assert_eq!(expand("~/$SUB/file", &e), "/home/u/cfg/file");
}

#[test]
fn clean_collapses() {
    assert_eq!(clean("/a/b/../c"), "/a/c");
    assert_eq!(clean("a//b/./c"), "a/b/c");
    assert_eq!(clean("/../x"), "/x");
    assert_eq!(clean(""), ".");
}

#[test]
fn inside_any_respects_boundaries() {
    let prefixes = vec!["/foo/ba".to_string()];
    assert!(!is_inside_any("/foo/bar", &prefixes));
    assert!(is_inside_any("/foo/ba/x", &prefixes));
}

#[test]
fn default_source_strips_leading_dot() {
    assert_eq!(default_source("~/.vim"), "vim");
    assert_eq!(default_source("~/.config/nvim"), "nvim");
    assert_eq!(default_source("/x/plain"), "plain");
}

#[test]
fn strip_root_drops_leading_slash() {
    assert_eq!(strip_root("/a/b"), "a/b");
    assert_eq!(strip_root("rel"), "rel");
}

#[test]
fn resolve_base_joins_relative_keeps_absolute() {
    assert_eq!(resolve_base("/repo", "config/nvim"), "/repo/config/nvim");
    assert_eq!(resolve_base("/repo", "/abs/path"), "/abs/path");
}

#[test]
fn home_unknown_leaves_tilde() {
    let e = env(&[], None);
    assert_eq!(expand_home("~/x", &e), "~/x");
}

#[test]
fn double_dollar_is_literal_dollar() {
    let e = env(&[("b", "X")], Some("/h"));
    assert_eq!(expand_env("a$$b", &e), "a$b");
    assert_eq!(expand_env("$$", &e), "$");
    assert_eq!(expand_env("$$$b", &e), "$X");
}

#[test]
fn root_prefix_holds_every_absolute_path() {
    let prefixes = vec!["/".to_string()];
    assert!(is_inside_any("/x", &prefixes));
    assert!(is_inside_any("/", &prefixes));
    assert!(is_inside_any("//a/./b", &prefixes));
    assert!(!is_inside_any("rel", &prefixes));
}
