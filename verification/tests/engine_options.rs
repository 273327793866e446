//! Option merging, labels and the null sink.

use dfm::config::model::LinkOptions;
use dfm::engine::action::ActionKind;
use dfm::engine::options::{bool_or, merge_link_opts};
use dfm::engine::sink::{NullSink, OutputSink};

#[test]
fn labels_are_stable() {
    assert_eq!(ActionKind::LinkCreate.label(), "link");
    assert_eq!(ActionKind::LinkExists.label(), "link-ok");
    assert_eq!(ActionKind::CreateExists.label(), "mkdir-ok");
    assert_eq!(ActionKind::CleanRemove.to_string(), "clean");
}

#[test]
fn merge_overlays_only_set_fields() {
    let base = LinkOptions {
        create: Some(true),
        relink: Some(false),
        ..LinkOptions::default()
    };
    let overlay = LinkOptions {
        relink: Some(true),
        force: Some(true),
        ..LinkOptions::default()
    };
    let merged = merge_link_opts(&base, &overlay);
    assert_eq!(merged.create, Some(true), "untouched field preserved");
    assert_eq!(merged.relink, Some(true), "set field overridden");
    assert_eq!(merged.force, Some(true), "new field added");
}

#[test]
fn merge_none_does_not_clear() {
    let base = LinkOptions {
        create: Some(false),
        ..LinkOptions::default()
    };
    let merged = merge_link_opts(&base, &LinkOptions::default());
    assert_eq!(merged.create, Some(false));
}

#[test]
fn bool_or_uses_fallback_when_none() {
    assert!(bool_or(None, true));
    assert!(!bool_or(Some(false), true));
    assert!(bool_or(Some(true), false));
}

#[test]
fn exclude_replaces_only_when_nonempty() {
    let base = LinkOptions {
        exclude: vec!["a".into()],
        ..LinkOptions::default()
    };
    let merged = merge_link_opts(&base, &LinkOptions::default());
    assert_eq!(merged.exclude, vec!["a".to_string()], "empty overlay keeps base");
    let overlay = LinkOptions {
        exclude: vec!["b".into()],
        ..LinkOptions::default()
    };
    let merged = merge_link_opts(&base, &overlay);
    assert_eq!(merged.exclude, vec!["b".to_string()], "nonempty overlay replaces");
}

#[test]
fn null_sink_accepts_all_events() {
    let mut s = NullSink;
    s.linked("a", "b");
    s.relinked("a", "b");
    s.link_ok("a", "b");
    s.backed_up("a", "b");
    s.removed_dead_link("a", "b");
    s.path_exists("a");
    s.created("a");
    s.shell_cmd("desc", "cmd", true);
}
