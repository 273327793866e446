//! The library's laws checked on concrete values.

use dfm::config::model::{Defaults, LinkOptions, ShellOptions};
use dfm::engine::backup::BackupWriter;
use dfm::engine::options::{merge_link_opts, MergedDefaults};
use dfm::engine::path::clean;

#[test]
fn cleaning_twice_changes_nothing() {
    for p in ["/a/b/../c", "a//b/./c", "/../x", "", "../../x/..", "./", "a/../..", "//x//"] {
        let once = clean(p);
        assert_eq!(clean(&once), once, "path {p:?}");
    }
}

#[test]
fn merging_is_associative_and_unset_is_neutral() {
    let a = LinkOptions { create: Some(true), relink: Some(false), ..LinkOptions::default() };
    let b = LinkOptions { relink: Some(true), exclude: vec!["x".into()], ..LinkOptions::default() };
    let c = LinkOptions { path: Some("p".into()), create: Some(false), ..LinkOptions::default() };
    let left = merge_link_opts(&merge_link_opts(&a, &b), &c);
    let right = merge_link_opts(&a, &merge_link_opts(&b, &c));
    assert_eq!(left, right);
    assert_eq!(merge_link_opts(&a, &LinkOptions::default()), a);
    assert_eq!(merge_link_opts(&LinkOptions::default(), &a), a);
    assert_eq!(merge_link_opts(&a, &a), a);
}

#[test]
fn backups_mirror_their_paths_and_never_collide() {
    let mut w = BackupWriter::default();
    assert!(!w.is_initialized());
    let root = w.init_root("/home/u", "tag");
    assert_eq!(root, "/home/u/.dotfiles-backup/tag");
    assert!(w.is_initialized());
    assert_eq!(w.root(), "/home/u/.dotfiles-backup/tag");
    let a = w.destination("/etc/conf");
    let b = w.destination("/home/u/conf");
    assert_eq!(a, "/home/u/.dotfiles-backup/tag/etc/conf");
    assert_ne!(a, b);
}

#[test]
fn cleaned_paths_have_canonical_shape() {
    assert_eq!(clean("a/./b//../../..//c"), "../c");
    assert_eq!(clean("/../a/./"), "/a");
    assert_eq!(clean("./."), ".");
    assert_eq!(clean("//"), "/");
}

#[test]
fn later_defaults_override_earlier_key_by_key() {
    let first = Defaults {
        link: Some(LinkOptions { relink: Some(true), create: Some(true), ..LinkOptions::default() }),
        shell: Some(ShellOptions { quiet: Some(true), ..ShellOptions::default() }),
        clean: None,
    };
    let second = Defaults {
        link: Some(LinkOptions { relink: Some(false), ..LinkOptions::default() }),
        shell: None,
        clean: None,
    };
    let mut turn = MergedDefaults::new();
    turn.merge(&first);
    turn.merge(&second);
    let one = Defaults {
        link: Some(LinkOptions { relink: Some(false), create: Some(true), ..LinkOptions::default() }),
        shell: Some(ShellOptions { quiet: Some(true), ..ShellOptions::default() }),
        clean: None,
    };
    let mut once = MergedDefaults::new();
    once.merge(&one);
    assert_eq!(turn.link, once.link);
    assert_eq!(turn.shell, once.shell);
    assert_eq!(turn.link.relink, Some(false));
    assert_eq!(turn.link.create, Some(true));
}
