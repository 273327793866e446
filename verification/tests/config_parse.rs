//! The profile parser over real YAML documents.

use dfm::config::parse::parse_str;
use dfm::config::{Config, DirectiveKind};


    /// Helper: parse and unwrap, failing the test with the parse error.
    fn parse(src: &str) -> Config {
        parse_str(src).unwrap_or_else(|e| panic!("parse: {e:?}"))
    }

    // ── core parsing behavior ──────────────────────────────────────────────

    #[test]
    fn base_profile() {
        let src = r#"
defaults:
  link:
    relink: true
    force: false
  shell:
    stdout: true
    stderr: true
    quiet: true

clean:
  - "~"

shell:
  - name: installing submodules
    script: git submodule update --init

link:
  ~/.config/nvim: config/nvim
  ~/.zshrc: config/zsh/zshrc.zsh
"#;
        let cfg = parse(src);
        assert_eq!(cfg.directives.len(), 4);

        // 1. defaults
        let DirectiveKind::Defaults(d) = &cfg.directives[0].kind else {
            panic!("directive[0] not defaults");
        };
        let link = d.link.as_ref().expect("defaults.link");
        let shell = d.shell.as_ref().expect("defaults.shell");
        assert_eq!(link.relink, Some(true));
        assert_eq!(link.force, Some(false));
        assert_eq!(shell.quiet, Some(true));

        // 2. clean
        let DirectiveKind::Clean(c) = &cfg.directives[1].kind else {
            panic!("directive[1] not clean");
        };
        assert_eq!(c.entries.len(), 1);
        assert_eq!(c.entries[0].target, "~");

        // 3. shell — order preserved (shell before link in this fixture)
        let DirectiveKind::Shell(s) = &cfg.directives[2].kind else {
            panic!("directive[2] not shell");
        };
        assert_eq!(s.entries.len(), 1);
        assert!(s.entries[0].command.starts_with("git submodule"));
        assert_eq!(s.entries[0].description, "installing submodules");

        // 4. link
        let DirectiveKind::Link(l) = &cfg.directives[3].kind else {
            panic!("directive[3] not link");
        };
        assert_eq!(l.entries.len(), 2);
        assert_eq!(l.entries[0].target, "~/.config/nvim");
        assert_eq!(l.entries[0].options.path.as_deref(), Some("config/nvim"));
    }

    #[test]
    fn link_extended_form() {
        let src = r#"
link:
  ~/.vim:
    path: config/vim
    create: true
    relink: true
    glob: false
    type: symlink
    exclude: ["*.log"]
"#;
        let cfg = parse(src);
        let DirectiveKind::Link(l) = &cfg.directives[0].kind else {
            panic!("not link");
        };
        let e = &l.entries[0];
        assert_eq!(e.target, "~/.vim");
        assert_eq!(e.options.path.as_deref(), Some("config/vim"));
        assert_eq!(e.options.create, Some(true));
        assert_eq!(e.options.exclude, vec!["*.log".to_string()]);
    }

    #[test]
    fn shell_canonical_form() {
        let src = "
shell:
  - name: farewell
    script: echo bye
    quiet: true
";
        let cfg = parse(src);
        let DirectiveKind::Shell(s) = &cfg.directives[0].kind else {
            panic!("not shell");
        };
        assert_eq!(s.entries.len(), 1);
        assert_eq!(s.entries[0].command, "echo bye");
        assert_eq!(s.entries[0].description, "farewell");
        assert_eq!(s.entries[0].options.quiet, Some(true));
    }

    #[test]
    fn shell_rejects_legacy_forms() {
        for src in [
            "shell:\n  - echo hello\n",
            "shell:\n  - [\"echo world\", \"say world\"]\n",
            "shell:\n  - command: echo bye\n    description: farewell\n",
        ] {
            assert!(
                parse_str(src).is_err(),
                "expected error for legacy form: {src:?}"
            );
        }
    }

    #[test]
    fn shell_multiline_script() {
        let src = "shell:\n  - name: some command\n    script: |\n      ls -laR /tmp\n      du -hcs /srv\n      echo ok\n";
        let cfg = parse(src);
        let DirectiveKind::Shell(s) = &cfg.directives[0].kind else {
            panic!("not shell");
        };
        let e = &s.entries[0];
        assert_eq!(e.description, "some command");
        for line in ["ls -laR /tmp", "du -hcs /srv", "echo ok"] {
            assert!(
                e.command.contains(line),
                "script missing {line:?}; got:\n{}",
                e.command
            );
        }
        assert!(e.command.contains('\n'), "script should preserve newlines");
    }

    #[test]
    fn create_with_mode() {
        let src = r"
create:
  ~/tmp:
    mode: 0700
  ~/logs: {}
";
        let cfg = parse(src);
        let DirectiveKind::Create(c) = &cfg.directives[0].kind else {
            panic!("not create");
        };
        assert_eq!(c.entries.len(), 2);
        assert_eq!(c.entries[0].mode, Some(0o700));
        assert_eq!(c.entries[1].mode, None);
    }

    #[test]
    fn unknown_directive_rejected() {
        let err = parse_str("\nteleport:\n  src: dst\n").unwrap_err();
        assert!(
            err.to_string().contains("unknown directive"),
            "error = {err:?}, want mention of unknown directive"
        );
    }

    #[test]
    fn rejects_if_predicate() {
        let src = "
link:
  ~/.foo:
    path: foo
    if: '[ -f /etc/os-release ]'
";
        let err = parse_str(src).unwrap_err();
        assert!(
            err.to_string().contains("'if'"),
            "error = {err:?}, want mention of 'if'"
        );
    }

    #[test]
    fn order_preserved() {
        let src = "
link:
  a: 1
  b: 2
  c: 3
  d: 4
";
        let cfg = parse(src);
        let DirectiveKind::Link(l) = &cfg.directives[0].kind else {
            panic!("not link");
        };
        let got: Vec<_> = l.entries.iter().map(|e| e.target.as_str()).collect();
        assert_eq!(got, ["a", "b", "c", "d"]);
    }

    // ── behavior matrix the contract requires ──────────────────────────────

    #[test]
    fn empty_and_comment_only_documents() {
        assert!(parse_str("").unwrap().directives.is_empty());
        assert!(
            parse_str("# just a comment\n")
                .unwrap()
                .directives
                .is_empty()
        );
        assert!(parse_str("\n\n  \n").unwrap().directives.is_empty());
    }

    #[test]
    fn bool_aliases_accepted_and_only_those() {
        // every accepted truthy/falsy alias
        for (word, want) in [
            ("true", true),
            ("yes", true),
            ("on", true),
            ("false", false),
            ("no", false),
            ("off", false),
        ] {
            let cfg = parse(&format!("link:\n  ~/x:\n    path: x\n    create: {word}\n"));
            let DirectiveKind::Link(l) = &cfg.directives[0].kind else {
                panic!()
            };
            assert_eq!(l.entries[0].options.create, Some(want), "word={word}");
        }
        // anything else is an error (e.g. YAML 1.1 "y"/"1"/"True")
        for bad in ["y", "1", "True", "YES", "enable"] {
            let src = format!("link:\n  ~/x:\n    path: x\n    create: {bad}\n");
            assert!(
                parse_str(&src).is_err(),
                "expected invalid boolean for {bad:?}"
            );
        }
    }

    #[test]
    fn raw_scalars_not_coerced() {
        // `on`/`yes` as a link target must survive as the literal string,
        // not become a YAML bool. prevent_coercion guarantees this.
        let cfg = parse("link:\n  ~/on: yes\n");
        let DirectiveKind::Link(l) = &cfg.directives[0].kind else {
            panic!()
        };
        assert_eq!(l.entries[0].target, "~/on");
        assert_eq!(l.entries[0].options.path.as_deref(), Some("yes"));
    }

    #[test]
    fn mode_octal_decimal_and_sign() {
        let cases = [
            ("0o755", Some(0o755)),
            ("0755", Some(0o755)),
            ("493", Some(493)), // decimal 493 == 0o755
            ("0", Some(0)),
        ];
        for (lit, want) in cases {
            let cfg = parse(&format!("create:\n  ~/d:\n    mode: {lit}\n"));
            let DirectiveKind::Create(c) = &cfg.directives[0].kind else {
                panic!()
            };
            assert_eq!(c.entries[0].mode, want, "mode literal {lit}");
        }
        // signed modes are rejected: a file mode is unsigned
        for bad in ["+700", "-1"] {
            let src = format!("create:\n  ~/d:\n    mode: {bad}\n");
            assert!(
                parse_str(&src).is_err(),
                "expected error for signed mode {bad:?}"
            );
        }
    }

    #[test]
    fn duplicate_key_last_wins() {
        // Duplicate keys: last value wins (marked-yaml default), no error.
        let cfg = parse("link:\n  ~/x: first\n  ~/x: second\n");
        let DirectiveKind::Link(l) = &cfg.directives[0].kind else {
            panic!()
        };
        assert_eq!(l.entries.len(), 1);
        assert_eq!(l.entries[0].options.path.as_deref(), Some("second"));
    }

    #[test]
    fn top_level_sequence_rejected() {
        let err = parse_str("- one\n- two\n").unwrap_err();
        assert!(
            err.to_string().contains("top-level must be a mapping"),
            "error = {err:?}"
        );
    }

    #[test]
    fn anchors_rejected_cleanly() {
        // marked-yaml 0.8.0 rejects anchors; we must surface a clean ParseError
        // (with a line:col), never a panic. Real profiles are anchor-free.
        let src = "defaults: &base\n  link:\n    relink: true\nlink: *base\n";
        let err = parse_str(src).unwrap_err();
        assert!(err.line > 0, "anchor error should carry a line: {err:?}");
    }

    #[test]
    fn error_carries_line_and_column() {
        // unknown option on line 4 (1-based)
        let src = "link:\n  ~/x:\n    path: x\n    bogus: true\n";
        let err = parse_str(src).unwrap_err();
        assert!(err.line >= 1, "want a line number, got {err:?}");
        assert!(
            err.to_string().starts_with("line "),
            "want 'line L:C:' prefix: {err:?}"
        );
    }

    #[test]
    fn clean_map_form_with_options() {
        let cfg = parse("clean:\n  \"~\":\n    recursive: true\n");
        let DirectiveKind::Clean(c) = &cfg.directives[0].kind else {
            panic!()
        };
        assert_eq!(c.entries[0].target, "~");
        assert_eq!(c.entries[0].options.recursive, Some(true));
    }

    #[test]
    fn create_entry_unknown_key_rejected() {
        let err = parse_str("create:\n  ~/d:\n    mode: 0700\n    owner: me\n").unwrap_err();
        assert!(err.line >= 1, "error = {err:?}");
        assert!(
            err.to_string().contains("create: unknown option \"owner\""),
            "error = {err:?}"
        );
    }
