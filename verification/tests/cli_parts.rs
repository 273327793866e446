//! What the subcommands compute: diff listings, profile paths, completion,
//! listing, status and doctor reports.

use std::io::{self, Write};
use std::sync::{Arc, Mutex};

use dfm::cli::apply::{add, apply_result, collect_links};
use dfm::cli::args::{exit_code, flags_conflict, RunEnd};
use dfm::cli::completion::{self, BASH, FISH, ZSH};
use dfm::cli::diff::{format_action, header_for, print_diff};
use dfm::cli::doctor::{check_links, link_problem, report_doctor, LinkRead};
use dfm::cli::list::{profile_names, ListedEntry};
use dfm::cli::profiles::{profile_path, resolve_profile_paths};
use dfm::cli::status::{human_since, join_spaced, print_status};
use dfm::cli::{ColorChoice, CompletionArgs, Ctx, GlobalArgs};
use dfm::engine::action::{Action, ActionKind};
use dfm::engine::options::Tally;
use dfm::iostreams::{ColorPolicy, IoStreams};
use dfm::state::Link;
use dfm::version::{long_description, REVISION};

#[derive(Clone)]
struct SharedBuf(Arc<Mutex<Vec<u8>>>);

impl SharedBuf {
    fn new() -> Self {
        Self(Arc::new(Mutex::new(Vec::new())))
    }
    fn contents(&self) -> String {
        String::from_utf8(self.0.lock().unwrap().clone()).unwrap()
    }
}

impl Write for SharedBuf {
    fn write(&mut self, buf: &[u8]) -> io::Result<usize> {
        self.0.lock().unwrap().extend_from_slice(buf);
        Ok(buf.len())
    }
    fn flush(&mut self) -> io::Result<()> {
        Ok(())
    }
}

fn action(kind: ActionKind, from: &str, to: &str) -> Action {
    Action { kind, from: from.to_string(), to: to.to_string(), dry_run: true }
}

fn ctx(out: &SharedBuf, err: &SharedBuf) -> Ctx {
    Ctx {
        globals: GlobalArgs {
            base_dir: ".".to_string(),
            config_path: None,
            verbose: false,
            quiet: false,
            color: ColorChoice::Auto,
        },
        io: IoStreams::with_writers(out.clone(), err.clone(), false, false),
    }
}

#[test]
fn diff_groups_in_fixed_order() {
    let out = SharedBuf::new();
    let err = SharedBuf::new();
    let mut io = IoStreams::with_writers(out.clone(), err.clone(), false, false);
    let actions = vec![
        action(ActionKind::ShellRun, "echo hi", "greet"),
        action(ActionKind::LinkCreate, "/h/.a", "/r/a"),
        action(ActionKind::CreateDir, "/h/d", ""),
        action(ActionKind::LinkCreate, "/h/.b", "/r/b"),
    ];
    print_diff(&mut io, &actions);
    assert_eq!(
        out.contents(),
        "+ Links to create (2)\n  /h/.a -> /r/a\n  /h/.b -> /r/b\n+ Directories to create (1)\n  /h/d\n$ Shell commands to run (1)\n  greet  [echo hi]\n"
    );
    assert!(err.contents().is_empty());
}

#[test]
fn empty_diff_says_no_changes() {
    let out = SharedBuf::new();
    let mut io = IoStreams::with_writers(out.clone(), SharedBuf::new(), false, false);
    print_diff(&mut io, &[]);
    assert_eq!(out.contents(), "No changes\n");
}

#[test]
fn action_formats_and_headers() {
    assert_eq!(format_action(&action(ActionKind::ShellRun, "cmd", "")), "cmd");
    assert_eq!(format_action(&action(ActionKind::CreateExists, "/d", "x")), "/d");
    assert_eq!(format_action(&action(ActionKind::CleanRemove, "/h/dead", "")), "/h/dead");
    assert_eq!(header_for(ActionKind::LinkSkip), "? Links blocked by conflict (need relink/force)");
    assert_eq!(header_for(ActionKind::CleanRemove), "- Dead links to remove");
}

#[test]
fn collect_links_keeps_created_relinked_and_correct() {
    let actions = vec![
        action(ActionKind::LinkCreate, "/h/.a", "/r/a"),
        action(ActionKind::LinkSkip, "/h/.s", "/r/s"),
        action(ActionKind::LinkBackup, "/h/.b", "/bk"),
        action(ActionKind::LinkRelink, "/h/.c", "/r/c"),
        action(ActionKind::LinkExists, "/h/.d", "/r/d"),
        action(ActionKind::ShellRun, "x", "y"),
    ];
    let links = collect_links(&actions);
    let targets: Vec<_> = links.iter().map(|l| l.target.as_str()).collect();
    assert_eq!(targets, ["/h/.a", "/h/.c", "/h/.d"]);
    assert_eq!(links[1].source, "/r/c");
}

#[test]
fn tallies_add_and_summarize() {
    let a = Tally { links_ok: 1, links_created: 2, shell_run: 3, created: 4, ..Tally::zero() };
    let b = Tally { links_ok: 10, shell_failed: 1, cleaned: 5, ..Tally::zero() };
    let s = add(a, b);
    assert_eq!((s.links_ok, s.links_created, s.shell_run, s.shell_failed), (11, 2, 3, 1));
    let r = apply_result(s);
    assert_eq!((r.links_ok, r.created, r.dirs, r.cleaned), (11, 2, 4, 5));
}

#[test]
fn profile_paths_resolve_in_order() {
    assert_eq!(profile_path("/base", "macos"), "/base/profiles/macos.conf.yaml");
    let names = vec!["base".to_string(), "macos".to_string()];
    let ok = resolve_profile_paths("/b", None, &names, &[true, true]).unwrap();
    assert_eq!(ok, vec!["/b/profiles/base.conf.yaml", "/b/profiles/macos.conf.yaml"]);
    let err = resolve_profile_paths("/b", None, &names, &[true, false]).unwrap_err();
    assert_eq!(err, "profile \"macos\" not found at /b/profiles/macos.conf.yaml");
    let none = resolve_profile_paths("/b", None, &[], &[]).unwrap_err();
    assert_eq!(none, "at least one profile is required");
    let cfg = resolve_profile_paths("/b", Some("/etc/p.yaml"), &names, &[false, false]).unwrap();
    assert_eq!(cfg, vec!["/etc/p.yaml"]);
}

#[test]
fn completion_writes_the_requested_script() {
    let out = SharedBuf::new();
    let err = SharedBuf::new();
    let mut c = ctx(&out, &err);
    completion::run(&CompletionArgs { shell: "Bash".to_string() }, &mut c).unwrap();
    assert_eq!(out.contents(), BASH);
    completion::run(&CompletionArgs { shell: "zsh".to_string() }, &mut c).unwrap();
    completion::run(&CompletionArgs { shell: "FISH".to_string() }, &mut c).unwrap();
    assert_eq!(out.contents(), format!("{BASH}{ZSH}{FISH}"));
    let e = completion::run(&CompletionArgs { shell: "Tcsh".to_string() }, &mut c).unwrap_err();
    assert_eq!(e, "unknown shell \"tcsh\" \u{2014} supported: bash, zsh, fish");
    assert!(err.contents().is_empty());
}

#[test]
fn profile_names_are_sorted_stems_of_profile_files() {
    let e = |n: &str, d: bool| ListedEntry { name: n.to_string(), is_dir: d };
    let names = profile_names(&[
        e("macos.conf.yaml", false),
        e("README.md", false),
        e("base.conf.yaml", false),
        e("dir.conf.yaml", true),
        e("Zed.conf.yaml", false),
        e(".conf.yaml", false),
    ]);
    assert_eq!(names, vec!["", "Zed", "base", "macos"]);
}

#[test]
fn status_age_and_lines() {
    assert_eq!(human_since(-5), "just now");
    assert_eq!(human_since(59), "just now");
    assert_eq!(human_since(60), "1m");
    assert_eq!(human_since(3599), "59m");
    assert_eq!(human_since(7200), "2h");
    assert_eq!(human_since(86400 * 3 + 5), "3d");
    assert_eq!(join_spaced(&["base".to_string(), "macos".to_string()]), "base macos");
    assert_eq!(join_spaced(&[]), "");
    let out = SharedBuf::new();
    let mut io = IoStreams::with_writers(out.clone(), SharedBuf::new(), false, false);
    print_status(&mut io, "/s/state.json", &["base".to_string()], "2026-06-04T12:00:00+00:00", "3h", 2);
    assert_eq!(
        out.contents(),
        "State file:   /s/state.json\nLast applied: base\nApplied at:   2026-06-04T12:00:00+00:00 (3h ago)\nLinks:        2\n"
    );
}

#[test]
fn doctor_judges_each_link() {
    let l = Link { target: "/h/.a".to_string(), source: "/r/a".to_string() };
    assert_eq!(link_problem(&l, &LinkRead::Points("/r/a".to_string())), None);
    assert_eq!(
        link_problem(&l, &LinkRead::Points("/r/b".to_string())).unwrap(),
        "drifted: /h/.a \u{2192} /r/b (want /r/a)"
    );
    assert_eq!(link_problem(&l, &LinkRead::Missing).unwrap(), "missing: /h/.a");
    assert_eq!(
        link_problem(&l, &LinkRead::Unreadable("Invalid argument".to_string())).unwrap(),
        "not a symlink: /h/.a (Invalid argument)"
    );
    let report = check_links(
        &[l.clone(), l.clone()],
        &[LinkRead::Points("/r/a".to_string()), LinkRead::Missing],
    );
    assert_eq!(report.ok, 1);
    assert_eq!(report.problems, vec!["missing: /h/.a".to_string()]);
    let err = SharedBuf::new();
    let mut io = IoStreams::with_writers(SharedBuf::new(), err.clone(), false, false);
    assert_eq!(report_doctor(&mut io, &report).unwrap_err(), "1 link(s) need attention");
    assert_eq!(err.contents(), "Doctor: 1 ok, 1 problems\n  missing: /h/.a\n");
    let fine = check_links(&[l], &[LinkRead::Points("/r/a".to_string())]);
    assert!(report_doctor(&mut io, &fine).is_ok());
}

#[test]
fn color_choice_maps_to_policy() {
    assert_eq!(ColorPolicy::from(ColorChoice::Always), ColorPolicy::Always);
    assert_eq!(ColorPolicy::from(ColorChoice::Never), ColorPolicy::Never);
    assert_eq!(ColorPolicy::from(ColorChoice::Auto), ColorPolicy::Auto);
}

#[test]
fn base_dir_is_made_absolute() {
    let c = ctx(&SharedBuf::new(), &SharedBuf::new());
    let abs = c.base_abs().unwrap();
    assert!(abs.starts_with('/'));
}

#[test]
fn description_carries_the_revision() {
    assert_eq!(long_description(), format!("dotfiles manager ({REVISION})"));
    assert_eq!(REVISION, "dev");
}

#[test]
fn explicit_config_is_made_absolute_keeping_its_segments() {
    let names = vec!["base".to_string()];
    let cfg = resolve_profile_paths("/b", Some("/etc//./p.yaml"), &names, &[true]).unwrap();
    assert_eq!(cfg, vec!["/etc/p.yaml"]);
    let rel = resolve_profile_paths("/b", Some("conf/p.yaml"), &names, &[true]).unwrap();
    assert_eq!(rel.len(), 1);
    assert!(rel[0].starts_with('/'));
    assert!(rel[0].ends_with("/conf/p.yaml"));
}

#[test]
fn exit_codes_follow_how_the_run_ended() {
    assert_eq!(exit_code(RunEnd::InfoRequest), 0);
    assert_eq!(exit_code(RunEnd::UsageError), 1);
    assert_eq!(exit_code(RunEnd::FlagConflict), 1);
    assert_eq!(exit_code(RunEnd::Finished { succeeded: true }), 0);
    assert_eq!(exit_code(RunEnd::Finished { succeeded: false }), 1);
    let mut c = ctx(&SharedBuf::new(), &SharedBuf::new());
    assert!(!flags_conflict(&c.globals));
    c.globals.verbose = true;
    assert!(!flags_conflict(&c.globals));
    c.globals.quiet = true;
    assert!(flags_conflict(&c.globals));
}
