//! The engine's per-entry decisions, driven by hand-made filesystem reports.

use dfm::config::model::{
    CleanEntry, CleanOptions, CreateEntry, Defaults, Directive, DirectiveKind, Link, LinkEntry,
    LinkOptions, Shell, ShellEntry, ShellOptions,
};
use dfm::engine::action::ActionKind;
use dfm::engine::options::{ApplyError, Tally};
use dfm::engine::runner::{
    candidates, path_parent, CleanMove, CreateMove, Dispatch, Engine, EntryFacts, Existing,
    LinkMove, PathState, SourceState, MAX_FORCE_DEPTH,
};

fn entry(target: &str, options: LinkOptions) -> LinkEntry {
    LinkEntry { target: target.to_string(), options }
}

fn with_path(p: &str) -> LinkOptions {
    LinkOptions { path: Some(p.to_string()), ..LinkOptions::default() }
}

#[test]
fn new_engine_is_empty_and_builders_set_flags() {
    let eng = Engine::new("/repo").dry_run(true).skip_shell(true).with_home("/home/u");
    assert_eq!(eng.base_dir, "/repo");
    assert!(eng.dry_run);
    assert!(eng.skip_shell);
    assert!(eng.actions.is_empty());
    assert_eq!(eng.backup_home.as_deref(), Some("/home/u"));
    let mut eng = eng.with_backup_home("/other");
    eng.set_backup_tag("tag");
    assert_eq!(eng.backup_home.as_deref(), Some("/other"));
    assert_eq!(eng.backup_tag, "tag");
}

#[test]
fn dispatch_merges_defaults_and_skips_shell_when_asked() {
    let mut eng = Engine::new("/repo").skip_shell(true);
    let d = Directive {
        kind: DirectiveKind::Defaults(Defaults {
            link: Some(LinkOptions { relink: Some(true), ..LinkOptions::default() }),
            shell: None,
            clean: None,
        }),
        line: 1,
    };
    assert_eq!(eng.dispatch(&d), Dispatch::Done);
    assert_eq!(eng.defaults.link.relink, Some(true));
    let s = Directive { kind: DirectiveKind::Shell(Shell { entries: vec![] }), line: 2 };
    assert_eq!(eng.dispatch(&s), Dispatch::Done);
    let mut eng2 = Engine::new("/repo");
    assert_eq!(eng2.dispatch(&s), Dispatch::Shell);
    let l = Directive { kind: DirectiveKind::Link(Link { entries: vec![] }), line: 3 };
    assert_eq!(eng2.dispatch(&l), Dispatch::Link);
}

#[test]
fn link_plan_resolves_source_against_base() {
    let eng = Engine::new("/repo");
    let plan = eng.link_plan(&entry("~/.zshrc", with_path("config/zsh")), "/home/u/.zshrc");
    assert_eq!(plan.source, "config/zsh");
    assert_eq!(plan.source_abs, "/repo/config/zsh");
    assert_eq!(plan.desired, Ok("/repo/config/zsh".to_string()));
    assert!(plan.check_source);
    assert!(!plan.glob_refused);
    assert_eq!(plan.make_parent, None);
    assert!(!plan.replace);
}

#[test]
fn link_plan_defaults_source_to_target_name() {
    let eng = Engine::new("/repo");
    let plan = eng.link_plan(&entry("~/.vim", LinkOptions::default()), "/home/u/.vim");
    assert_eq!(plan.source, "vim");
    assert_eq!(plan.source_abs, "/repo/vim");
}

#[test]
fn link_plan_relative_uses_link_directory() {
    let eng = Engine::new("/repo");
    let opts = LinkOptions { relative: Some(true), create: Some(true), ..with_path("conf") };
    let plan = eng.link_plan(&entry("/home/u/.conf", opts), "/home/u/.conf");
    assert_eq!(plan.desired, Ok("../../repo/conf".to_string()));
    assert_eq!(plan.make_parent.as_deref(), Some("/home/u"));
}

#[test]
fn link_plan_refuses_globs_and_other_link_types() {
    let eng = Engine::new("/repo");
    let opts = LinkOptions { glob: Some(true), ..with_path("conf/*") };
    assert!(eng.link_plan(&entry("/h/.x", opts), "/h/.x").glob_refused);
    let opts = LinkOptions { link_type: Some("hardlink".to_string()), ..with_path("a") };
    let plan = eng.link_plan(&entry("/h/.x", opts), "/h/.x");
    assert_eq!(plan.desired, Err("link type \"hardlink\" not supported".to_string()));
    let opts = LinkOptions { ignore_missing: Some(true), force: Some(true), ..with_path("a") };
    let plan = eng.link_plan(&entry("/h/.x", opts), "/h/.x");
    assert!(!plan.check_source);
    assert!(plan.replace);
}

#[test]
fn dry_run_plans_never_make_parents() {
    let eng = Engine::new("/repo").dry_run(true);
    let opts = LinkOptions { create: Some(true), ..with_path("a") };
    assert_eq!(eng.link_plan(&entry("/h/d/.x", opts), "/h/d/.x").make_parent, None);
}

#[test]
fn link_decide_covers_every_existing_state() {
    let mut eng = Engine::new("/repo");
    let e = entry("~/.x", with_path("b"));
    let plan = eng.link_plan(&e, "/h/.x");
    let mut t = Tally::zero();
    assert_eq!(eng.link_decide(&e, &plan, Existing::Absent, &mut t), LinkMove::Create { write: true });
    assert_eq!(eng.link_decide(&e, &plan, Existing::NotSymlink, &mut t), LinkMove::Backup);
    assert!(eng.actions.is_empty());
    let same = Existing::Symlink("/repo/b".to_string());
    assert_eq!(eng.link_decide(&e, &plan, same, &mut t), LinkMove::Done(Ok(())));
    assert_eq!(t.links_ok, 1);
    assert_eq!(eng.actions[0].kind, ActionKind::LinkExists);
    assert_eq!(eng.actions[0].from, "/h/.x");
    let stale = Existing::Symlink("/repo/a".to_string());
    let r = eng.link_decide(&e, &plan, stale, &mut t);
    assert_eq!(
        r,
        LinkMove::Done(Err(
            "incorrect link ~/.x -> /repo/a (want /repo/b); enable relink to replace".to_string()
        ))
    );
    assert_eq!(eng.actions[1].kind, ActionKind::LinkSkip);
    let e2 = entry("~/.x", LinkOptions { relink: Some(true), ..with_path("b") });
    let plan2 = eng.link_plan(&e2, "/h/.x");
    let stale = Existing::Symlink("/repo/a".to_string());
    assert_eq!(eng.link_decide(&e2, &plan2, stale, &mut t), LinkMove::Relink { write: true });
}

#[test]
fn reports_record_actions_and_count() {
    let mut eng = Engine::new("/repo").dry_run(true);
    let e = entry("/h/.x", with_path("b"));
    let plan = eng.link_plan(&e, "/h/.x");
    let mut t = Tally::zero();
    eng.link_created(&plan, &mut t);
    eng.link_relinked(&plan, &mut t);
    let next = eng.link_backed_up("/h/.x", "/h/.dotfiles-backup/tag/h/.x", &mut t);
    assert_eq!(next, LinkMove::Create { write: false });
    assert_eq!((t.links_created, t.links_relinked, t.links_backed_up), (1, 1, 1));
    let kinds: Vec<_> = eng.actions.iter().map(|a| a.kind).collect();
    assert_eq!(kinds, [ActionKind::LinkCreate, ActionKind::LinkRelink, ActionKind::LinkBackup]);
    assert!(eng.actions.iter().all(|a| a.dry_run));
}

#[test]
fn backup_plan_sets_root_once_under_home() {
    let mut eng = Engine::new("/repo").with_home("/home/u");
    eng.set_backup_tag("20260604T000000Z");
    let st = eng.backup_plan("/home/u/.zshrc", None).unwrap();
    assert_eq!(st.make_root.as_deref(), Some("/home/u/.dotfiles-backup/20260604T000000Z"));
    assert_eq!(st.dst, "/home/u/.dotfiles-backup/20260604T000000Z/home/u/.zshrc");
    assert!(st.move_it);
    let st2 = eng.backup_plan("/etc/x", None).unwrap();
    assert_eq!(st2.make_root, None);
    assert_eq!(st2.dst, "/home/u/.dotfiles-backup/20260604T000000Z/etc/x");
}

#[test]
fn backup_plan_defaults_tag_and_needs_a_home() {
    let mut eng = Engine::new("/repo");
    assert_eq!(eng.backup_plan("/h/x", None).unwrap_err(), "home dir");
    assert_eq!(eng.backup_tag, "backup");
    let st = eng.backup_plan("/h/x", Some("/env/home".to_string())).unwrap();
    assert_eq!(st.dst, "/env/home/.dotfiles-backup/backup/h/x");
    let mut dry = Engine::new("/repo").dry_run(true).with_home("/h");
    let st = dry.backup_plan("/h/x", None).unwrap();
    assert_eq!(st.make_root, None);
    assert!(!st.move_it);
}

#[test]
fn shell_step_counts_only_real_runs() {
    let item = ShellEntry {
        command: "echo hi".to_string(),
        description: "greet".to_string(),
        options: ShellOptions { stdout: Some(true), stdin: Some(true), ..ShellOptions::default() },
    };
    let mut t = Tally::zero();
    let mut dry = Engine::new("/repo").dry_run(true);
    assert!(dry.shell_step(&item, &mut t).is_none());
    assert_eq!(t.shell_run, 0);
    assert_eq!(dry.actions[0].kind, ActionKind::ShellRun);
    assert_eq!(dry.actions[0].from, "echo hi");
    assert_eq!(dry.actions[0].to, "greet");
    let mut eng = Engine::new("/repo");
    let run = eng.shell_step(&item, &mut t).unwrap();
    assert_eq!(run.command, "echo hi");
    assert!(run.stdin && run.stdout && !run.stderr);
    assert_eq!(t.shell_run, 1);
    eng.shell_finished(false, &mut t);
    eng.shell_finished(true, &mut t);
    assert_eq!(t.shell_failed, 1);
}

#[test]
fn quiet_shell_entries_drop_output_streams() {
    let item = ShellEntry {
        command: "x".to_string(),
        description: String::new(),
        options: ShellOptions {
            quiet: Some(true),
            stdout: Some(true),
            stderr: Some(true),
            stdin: None,
        },
    };
    let mut eng = Engine::new("/repo");
    let run = eng.shell_step(&item, &mut Tally::zero()).unwrap();
    assert!(!run.stdout && !run.stderr && !run.stdin);
}

#[test]
fn candidates_add_resolved_form_only_when_different() {
    assert_eq!(candidates("/repo/", None), vec!["/repo".to_string()]);
    assert_eq!(candidates("/repo", Some("/repo".to_string())), vec!["/repo".to_string()]);
    assert_eq!(
        candidates("/var/x", Some("/private/var/x".to_string())),
        vec!["/var/x".to_string(), "/private/var/x".to_string()]
    );
}

fn clean_entry(force: bool, recursive: bool) -> CleanEntry {
    CleanEntry {
        target: "~".to_string(),
        options: CleanOptions { force: Some(force), recursive: Some(recursive) },
    }
}

#[test]
fn forced_clean_needs_a_scan_under_home() {
    let eng = Engine::new("/repo");
    let homes = vec!["/home/u".to_string()];
    assert!(eng.clean_plan(&clean_entry(true, false), "/home/u/scan", &None, &homes).force);
    assert!(!eng.clean_plan(&clean_entry(true, false), "/tmp/scan", &None, &homes).force);
    let resolved = Some("/home/u/real".to_string());
    assert!(eng.clean_plan(&clean_entry(true, false), "/tmp/link", &resolved, &homes).force);
    assert!(!eng.clean_plan(&clean_entry(false, true), "/home/u", &None, &homes).force);
    assert!(eng.clean_plan(&clean_entry(false, true), "/home/u", &None, &homes).recursive);
}

fn dead(points: &str) -> EntryFacts {
    EntryFacts { is_dir: false, is_symlink: true, resolves: false, points: Some(points.to_string()) }
}

#[test]
fn clean_decide_removes_only_dead_links_into_base() {
    let eng = Engine::new("/repo");
    let base = vec!["/repo".to_string()];
    let plan = eng.clean_plan(&clean_entry(false, false), "/scan", &None, &[]);
    assert_eq!(
        eng.clean_decide(&plan, 0, "/scan", &dead("/repo/gone"), &base),
        CleanMove::Remove { points_abs: "/repo/gone".to_string(), write: true }
    );
    assert_eq!(eng.clean_decide(&plan, 0, "/scan", &dead("/elsewhere/gone"), &base), CleanMove::Skip);
    let rel = eng.clean_decide(&plan, 0, "/repo/sub", &dead("../gone"), &base);
    assert_eq!(rel, CleanMove::Remove { points_abs: "/repo/sub/../gone".to_string(), write: true });
    let live = EntryFacts { resolves: true, ..dead("/repo/x") };
    assert_eq!(eng.clean_decide(&plan, 0, "/scan", &live, &base), CleanMove::Skip);
    let file = EntryFacts { is_dir: false, is_symlink: false, resolves: true, points: None };
    assert_eq!(eng.clean_decide(&plan, 0, "/scan", &file, &base), CleanMove::Skip);
    let unreadable = EntryFacts { points: None, ..dead("/repo/x") };
    assert_eq!(eng.clean_decide(&plan, 0, "/scan", &unreadable, &base), CleanMove::Skip);
}

#[test]
fn forced_recursion_is_depth_capped() {
    let eng = Engine::new("/repo");
    let homes = vec!["/h".to_string()];
    let dir = EntryFacts { is_dir: true, is_symlink: false, resolves: true, points: None };
    let forced = eng.clean_plan(&clean_entry(true, true), "/h/scan", &None, &homes);
    assert_eq!(eng.clean_decide(&forced, 0, "/h/scan", &dir, &[]), CleanMove::Descend);
    assert_eq!(eng.clean_decide(&forced, MAX_FORCE_DEPTH - 1, "/h/scan", &dir, &[]), CleanMove::Descend);
    assert_eq!(eng.clean_decide(&forced, MAX_FORCE_DEPTH, "/h/scan", &dir, &[]), CleanMove::Skip);
    assert_eq!(
        eng.clean_decide(&forced, 0, "/h/scan", &dead("/far/away"), &[]),
        CleanMove::Remove { points_abs: "/far/away".to_string(), write: true }
    );
    let plain = eng.clean_plan(&clean_entry(false, true), "/h/scan", &None, &homes);
    assert_eq!(eng.clean_decide(&plain, 50, "/h/scan", &dir, &[]), CleanMove::Descend);
}

#[test]
fn clean_removed_and_dry_run_removals() {
    let mut eng = Engine::new("/repo").dry_run(true);
    let plan = eng.clean_plan(&clean_entry(true, false), "/h", &None, &["/h".to_string()]);
    let mv = eng.clean_decide(&plan, 0, "/h", &dead("/x"), &[]);
    assert_eq!(mv, CleanMove::Remove { points_abs: "/x".to_string(), write: false });
    let mut t = Tally::zero();
    eng.clean_removed("/h/dead", "/x", &mut t);
    assert_eq!(t.cleaned, 1);
    assert_eq!(eng.actions[0].kind, ActionKind::CleanRemove);
    assert_eq!(eng.actions[0].to, "/x");
}

#[test]
fn create_decide_and_made() {
    let mut eng = Engine::new("/repo");
    let e = CreateEntry { path: "~/tmp".to_string(), mode: Some(0o700) };
    assert_eq!(
        eng.create_decide(&e, "/h/tmp", PathState::Absent),
        CreateMove::Make { mode: 0o700, write: true }
    );
    let d = CreateEntry { path: "~/logs".to_string(), mode: None };
    assert_eq!(
        eng.create_decide(&d, "/h/logs", PathState::Absent),
        CreateMove::Make { mode: 0o777, write: true }
    );
    assert_eq!(eng.create_decide(&d, "/h/logs", PathState::Unreadable), CreateMove::Done);
    assert!(eng.actions.is_empty());
    assert_eq!(eng.create_decide(&d, "/h/logs", PathState::Present), CreateMove::Done);
    assert_eq!(eng.actions[0].kind, ActionKind::CreateExists);
    assert_eq!(eng.actions[0].to, "");
    let mut t = Tally::zero();
    eng.create_made("/h/tmp", &mut t);
    assert_eq!(t.created, 1);
    assert_eq!(eng.actions[1].kind, ActionKind::CreateDir);
}

#[test]
fn path_parent_is_std_parent() {
    assert_eq!(path_parent("/a/b").as_deref(), Some("/a"));
    assert_eq!(path_parent("/a").as_deref(), Some("/"));
    assert_eq!(path_parent("/"), None);
}

#[test]
fn dry_run_does_not_count_shell_run() {
    let cfg = dfm::config::parse::parse_str("shell:\n  - name: noop\n    script: 'true'\n").unwrap();
    let mut eng = Engine::new("/repo").dry_run(true);
    let mut tally = Tally::zero();
    for d in &cfg.directives {
        if let (Dispatch::Shell, DirectiveKind::Shell(s)) = (eng.dispatch(d), &d.kind) {
            for item in &s.entries {
                assert!(eng.shell_step(item, &mut tally).is_none(), "a dry run runs nothing");
            }
        }
    }
    assert_eq!(tally.shell_run, 0, "dry-run must not count shell_run");
    assert!(eng.actions.iter().any(|a| a.kind == ActionKind::ShellRun));
}

#[test]
fn link_gate_ends_entries_in_order() {
    let eng = Engine::new("/repo");
    let opts = LinkOptions { glob: Some(true), ..with_path("conf/*") };
    let plan = eng.link_plan(&entry("/h/.x", opts), "/h/.x");
    assert_eq!(plan.gate(&SourceState::Missing), Err("glob: not yet supported".to_string()));
    let plan = eng.link_plan(&entry("/h/.x", with_path("a")), "/h/.x");
    assert_eq!(plan.gate(&SourceState::Present), Ok(()));
    assert_eq!(plan.gate(&SourceState::Missing), Err("nonexistent source /repo/a".to_string()));
    assert_eq!(
        plan.gate(&SourceState::Unreadable("denied".to_string())),
        Err("stat source: denied".to_string())
    );
    let opts = LinkOptions { ignore_missing: Some(true), ..with_path("a") };
    let plan = eng.link_plan(&entry("/h/.x", opts), "/h/.x");
    assert_eq!(plan.gate(&SourceState::Missing), Ok(()));
}

#[test]
fn relative_link_text_leads_back_to_source() {
    let eng = Engine::new("/repo");
    let opts = LinkOptions { relative: Some(true), ..with_path("a/b") };
    let plan = eng.link_plan(&entry("/repo/a/c/.x", opts), "/repo/a/c/.x");
    assert_eq!(plan.desired, Ok("../b".to_string()));
    let opts = LinkOptions { relative: Some(true), ..with_path("/etc/x") };
    let plan = eng.link_plan(&entry("/.x", opts), "/.x");
    assert_eq!(plan.desired, Ok("etc/x".to_string()));
}

#[test]
fn cancellation_stops_before_the_next_directive() {
    let mut eng = Engine::new("/repo");
    let d = Directive {
        kind: DirectiveKind::Defaults(Defaults {
            link: Some(LinkOptions { relink: Some(true), ..LinkOptions::default() }),
            shell: None,
            clean: None,
        }),
        line: 1,
    };
    assert_eq!(eng.next_directive(true, &d), Err(ApplyError::Cancelled));
    assert_eq!(eng.defaults.link.relink, None);
    assert_eq!(eng.next_directive(false, &d), Ok(Dispatch::Done));
    assert_eq!(eng.defaults.link.relink, Some(true));
}

#[test]
fn later_directives_see_earlier_defaults() {
    let mut eng = Engine::new("/repo");
    let link = Directive { kind: DirectiveKind::Link(Link { entries: vec![] }), line: 1 };
    let set = |relink: bool, line: usize| Directive {
        kind: DirectiveKind::Defaults(Defaults {
            link: Some(LinkOptions { relink: Some(relink), ..LinkOptions::default() }),
            shell: None,
            clean: None,
        }),
        line,
    };
    assert_eq!(eng.dispatch(&link), Dispatch::Link);
    let e = entry("/h/.x", with_path("a"));
    assert!(!eng.link_plan(&e, "/h/.x").replace);
    eng.dispatch(&set(true, 2));
    assert!(eng.link_plan(&e, "/h/.x").replace);
    eng.dispatch(&set(false, 3));
    assert!(!eng.link_plan(&e, "/h/.x").replace);
    let own = entry("/h/.x", LinkOptions { relink: Some(true), ..with_path("a") });
    assert!(eng.link_plan(&own, "/h/.x").replace);
}

#[test]
fn dry_run_decides_links_like_a_live_run() {
    let e = entry("/h/.x", with_path("b"));
    let states = || {
        vec![
            Existing::Absent,
            Existing::NotSymlink,
            Existing::Symlink("/repo/b".to_string()),
            Existing::Symlink("/repo/a".to_string()),
        ]
    };
    for (live_state, dry_state) in states().into_iter().zip(states()) {
        let mut live = Engine::new("/repo");
        let mut dry = Engine::new("/repo").dry_run(true);
        let plan = live.link_plan(&e, "/h/.x");
        let (mut tl, mut td) = (Tally::zero(), Tally::zero());
        let ml = live.link_decide(&e, &plan, live_state, &mut tl);
        let md = dry.link_decide(&e, &plan, dry_state, &mut td);
        assert_eq!(tl, td);
        let expected = match ml {
            LinkMove::Create { .. } => LinkMove::Create { write: false },
            LinkMove::Relink { .. } => LinkMove::Relink { write: false },
            other => other,
        };
        assert_eq!(md, expected);
        assert_eq!(live.actions.len(), dry.actions.len());
        for (a, b) in live.actions.iter().zip(&dry.actions) {
            assert_eq!((a.kind, &a.from, &a.to), (b.kind, &b.from, &b.to));
            assert!(!a.dry_run && b.dry_run);
        }
    }
}

#[test]
fn second_run_leaves_a_written_link_alone() {
    let mut eng = Engine::new("/repo");
    let e = entry("/h/.x", with_path("b"));
    let plan = eng.link_plan(&e, "/h/.x");
    let mut t = Tally::zero();
    assert_eq!(eng.link_decide(&e, &plan, Existing::Absent, &mut t), LinkMove::Create { write: true });
    let written = plan.desired.clone().unwrap();
    let mut again = Engine::new("/repo");
    let plan2 = again.link_plan(&e, "/h/.x");
    let mut t2 = Tally::zero();
    let m = again.link_decide(&e, &plan2, Existing::Symlink(written.clone()), &mut t2);
    assert_eq!(m, LinkMove::Done(Ok(())));
    assert_eq!(t2, Tally { links_ok: 1, ..Tally::zero() });
    assert_eq!(again.actions.len(), 1);
    assert_eq!(again.actions[0].kind, ActionKind::LinkExists);
    assert_eq!(again.actions[0].to, written);
}

#[test]
fn dry_run_goes_through_a_run_of_links_alike() {
    let mut live = Engine::new("/repo");
    let mut dry = Engine::new("/repo").dry_run(true);
    let (mut tl, mut td) = (Tally::zero(), Tally::zero());
    let entries = [entry("/h/.a", with_path("a")), entry("/h/.b", with_path("b"))];
    let found = || {
        vec![
            Existing::Symlink("/repo/a".to_string()),
            Existing::Symlink("/elsewhere".to_string()),
        ]
    };
    for ((e, fl), fd) in entries.iter().zip(found()).zip(found()) {
        let target = e.target.clone();
        let pl = live.link_plan(e, &target);
        let pd = dry.link_plan(e, &target);
        let ml = live.link_decide(e, &pl, fl, &mut tl);
        let md = dry.link_decide(e, &pd, fd, &mut td);
        assert_eq!(ml, md, "no move here writes anything");
    }
    assert_eq!(tl, td);
    assert_eq!(live.actions.len(), 2);
    for (a, b) in live.actions.iter().zip(&dry.actions) {
        assert_eq!((a.kind, &a.from, &a.to, true), (b.kind, &b.from, &b.to, b.dry_run));
        assert!(!a.dry_run);
    }
}
