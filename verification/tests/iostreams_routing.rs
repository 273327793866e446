//! Stream routing (data to `out`, progress and diagnostics to `err_out`) and
//! quiet gating, over shared buffers that can be inspected afterwards.

use std::io::{self, Write};
use std::sync::{Arc, Mutex};

use dfm::engine::options::Tally;
use dfm::engine::runner::{CreateMove, Engine, PathState};
use dfm::engine::IoStreamsSink;
use dfm::iostreams::{ApplyResult, IoStreams};
use dfm::config::model::CreateEntry;

/// A cloneable writer backed by a shared `Vec<u8>`.
#[derive(Clone)]
struct SharedBuf(Arc<Mutex<Vec<u8>>>);

impl SharedBuf {
    fn new() -> Self {
        Self(Arc::new(Mutex::new(Vec::new())))
    }
    fn contents(&self) -> String {
        String::from_utf8(self.0.lock().unwrap().clone()).unwrap()
    }
}

impl Write for SharedBuf {
    fn write(&mut self, buf: &[u8]) -> io::Result<usize> {
        self.0.lock().unwrap().extend_from_slice(buf);
        Ok(buf.len())
    }
    fn flush(&mut self) -> io::Result<()> {
        Ok(())
    }
}

/// Build an `IoStreams` over two inspectable buffers (color off).
fn streams() -> (IoStreams, SharedBuf, SharedBuf) {
    let out = SharedBuf::new();
    let err = SharedBuf::new();
    let ios = IoStreams::with_writers(out.clone(), err.clone(), false, false);
    (ios, out, err)
}

#[test]
fn progress_goes_to_err_out() {
    let (mut ios, out, err) = streams();
    ios.linked("~/.zshrc", "/repo/zshrc");
    assert!(err.contents().contains("Linked"));
    assert!(out.contents().is_empty(), "progress must not touch stdout");
}

#[test]
fn data_goes_to_out() {
    let (mut ios, out, err) = streams();
    ios.profile_list(&["base".to_string(), "macos".to_string()]);
    assert!(out.contents().contains("Profiles:"));
    assert!(out.contents().contains("base"));
    assert!(err.contents().is_empty(), "data must not touch stderr");
}

#[test]
fn diagnostics_go_to_err_out() {
    let (mut ios, out, err) = streams();
    ios.doctor_done(3, 1);
    assert!(err.contents().contains("Doctor:"));
    assert!(out.contents().is_empty());
}

#[test]
fn quiet_suppresses_progress_only() {
    let (mut ios, _out, err) = streams();
    ios.set_quiet(true);
    ios.linked("a", "b"); // progress — suppressed
    ios.done(false, ApplyResult::default()); // progress — suppressed
    assert!(
        err.contents().is_empty(),
        "progress should be silenced when quiet"
    );

    ios.doctor_fail("no state"); // diagnostic — still visible
    assert!(
        err.contents().contains("no state"),
        "diagnostics survive quiet"
    );
}

#[test]
fn quiet_does_not_affect_data() {
    let (mut ios, out, _err) = streams();
    ios.set_quiet(true);
    ios.status_line("State file:", "/x/state.json");
    assert!(
        out.contents().contains("/x/state.json"),
        "data output flows even when quiet"
    );
}

#[test]
fn done_line_has_all_counts() {
    let (mut ios, _out, err) = streams();
    ios.done(
        false,
        ApplyResult {
            links_ok: 2,
            created: 1,
            relinked: 0,
            backed_up: 0,
            shell_run: 3,
            shell_failed: 1,
            cleaned: 0,
            dirs: 4,
        },
    );
    let line = err.contents();
    assert!(line.contains("Done:"));
    for token in [
        "ok",
        "created",
        "relinked",
        "backed up",
        "shell",
        "cleaned",
        "dirs",
    ] {
        assert!(line.contains(token), "summary missing {token:?}: {line}");
    }
    assert!(line.contains("(1 failed)"), "shell failure suffix: {line}");
}

#[test]
fn color_off_emits_no_ansi() {
    let (mut ios, _out, err) = streams();
    ios.linked("a", "b");
    assert!(
        !err.contents().contains('\u{1b}'),
        "no ESC when color disabled"
    );
}

#[test]
fn color_on_emits_ansi() {
    let out = SharedBuf::new();
    let err = SharedBuf::new();
    let mut ios = IoStreams::with_writers(out.clone(), err.clone(), false, true);
    ios.linked("a", "b");
    assert!(
        err.contents().contains('\u{1b}'),
        "ESC present when err color on"
    );
}

#[test]
fn discard_drops_everything() {
    let mut ios = IoStreams::discard();
    // Should not panic and should write nowhere observable.
    ios.linked("a", "b");
    ios.profile_list(&["x".to_string()]);
    ios.doctor_fail("y");
}

#[test]
fn progress_lines_read_exactly() {
    let (mut ios, _out, err) = streams();
    ios.linked("a", "b");
    ios.relinked("c", "d");
    ios.link_ok("e", "f");
    ios.backed_up("g", "h");
    ios.removed_dead_link("i", "j");
    ios.path_exists("/p");
    ios.created("/q");
    ios.applying("/r");
    ios.would_apply("/s");
    assert_eq!(
        err.contents(),
        "Linked a \u{2192} b\nRelinked c \u{2192} d\nLink exists e \u{2192} f\nbacked up g \u{2192} h\nRemoved i \u{2192} j\nPath exists /p\nCreated /q\nApplying /r\nWould apply /s\n"
    );
}

#[test]
fn shell_lines_follow_description_and_quiet() {
    let (mut ios, _out, err) = streams();
    ios.shell_cmd("install", "make", false);
    ios.shell_cmd("install", "make", true);
    ios.shell_cmd("", "make", true);
    assert_eq!(err.contents(), "install [make]\ninstall\nmake\n");
}

#[test]
fn done_line_exact_and_dry_run_verb() {
    let (mut ios, _out, err) = streams();
    ios.done(true, ApplyResult::default());
    assert_eq!(
        err.contents(),
        "dry-run 0 ok, 0 created, 0 relinked, 0 backed up, 0 shell, 0 cleaned, 0 dirs\n"
    );
}

#[test]
fn data_lines_read_exactly() {
    let (mut ios, out, _err) = streams();
    ios.profile_list(&[]);
    ios.profile_list(&["a".to_string(), "b".to_string(), "c".to_string()]);
    ios.status_empty("nothing");
    ios.diff_header("+ Links to create", 12);
    ios.diff_action("x");
    ios.diff_empty();
    ios.write_out("raw");
    assert_eq!(
        out.contents(),
        "No profiles found\nProfiles: a, b, c\nnothing\n+ Links to create (12)\n  x\nNo changes\nraw"
    );
}

#[test]
fn flags_are_reported() {
    let (mut ios, _out, _err) = streams();
    assert!(!ios.is_quiet());
    ios.set_quiet(true);
    assert!(ios.is_quiet());
    assert!(!ios.err_color_enabled());
    assert!(!ios.out_color_enabled());
    let colored = IoStreams::with_writers(io::sink(), io::sink(), true, false);
    assert!(colored.out_color_enabled());
    assert!(!colored.err_color_enabled());
}

#[test]
fn colored_failure_count_is_red() {
    let out = SharedBuf::new();
    let err = SharedBuf::new();
    let mut ios = IoStreams::with_writers(out.clone(), err.clone(), false, true);
    ios.doctor_done(0, 2);
    assert!(err.contents().contains("\u{1b}[91m2\u{1b}[0m"));
}

#[test]
fn engine_events_reach_the_streams() {
    let (mut ios, out, err) = streams();
    {
        let mut eng = Engine::new("/repo").with_sink(IoStreamsSink::new(&mut ios));
        let mut tally = Tally::zero();
        let e = CreateEntry { path: "/d".to_string(), mode: None };
        assert!(matches!(eng.create_decide(&e, "/d", PathState::Absent), CreateMove::Make { .. }));
        eng.create_made("/d", &mut tally);
        assert_eq!(eng.create_decide(&e, "/e", PathState::Present), CreateMove::Done);
    }
    let text = err.contents();
    assert!(text.contains("Created"), "{text}");
    assert!(text.contains("/d"), "{text}");
    assert!(text.contains("Path exists"), "{text}");
    assert!(text.contains("/e"), "{text}");
    assert!(out.contents().is_empty());
}

#[test]
fn quiet_streams_hear_no_engine_events() {
    let (mut ios, _out, err) = streams();
    ios.set_quiet(true);
    {
        let mut eng = Engine::new("/repo").with_sink(IoStreamsSink::new(&mut ios));
        let mut tally = Tally::zero();
        eng.create_made("/d", &mut tally);
    }
    assert!(err.contents().is_empty());
}
