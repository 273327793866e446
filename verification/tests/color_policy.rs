//! Color-policy resolution and styling.

use std::collections::HashMap;

use dfm::iostreams::color::{color_for, compute_color, resolve, ColorEnv, ColorPolicy};
use dfm::iostreams::style::{arrow, paint, Tone};

struct FakeEnv(HashMap<String, String>);

impl ColorEnv for FakeEnv {
    fn has(&self, key: &str) -> bool {
        self.0.contains_key(key)
    }
    fn get(&self, key: &str) -> Option<String> {
        self.0.get(key).cloned()
    }
}

fn env(pairs: &[(&str, &str)]) -> FakeEnv {
    FakeEnv(
        pairs
            .iter()
            .map(|(k, v)| ((*k).to_string(), (*v).to_string()))
            .collect(),
    )
}

#[test]
fn no_color_disables_even_on_tty() {
    assert!(!compute_color(&env(&[("NO_COLOR", "")]), true));
    assert!(!compute_color(&env(&[("NO_COLOR", "1")]), true));
}

#[test]
fn term_dumb_disables() {
    assert!(!compute_color(&env(&[("TERM", "dumb")]), true));
}

#[test]
fn clicolor_force_enables_off_tty() {
    assert!(compute_color(&env(&[("CLICOLOR_FORCE", "1")]), false));
}

#[test]
fn clicolor_force_non_one_does_not_force() {
    assert!(!compute_color(&env(&[("CLICOLOR_FORCE", "yes")]), false));
}

#[test]
fn falls_back_to_tty() {
    assert!(compute_color(&env(&[]), true));
    assert!(!compute_color(&env(&[]), false));
}

#[test]
fn no_color_beats_clicolor_force() {
    assert!(!compute_color(
        &env(&[("NO_COLOR", "1"), ("CLICOLOR_FORCE", "1")]),
        false
    ));
}

#[test]
fn policy_parse() {
    assert_eq!(ColorPolicy::parse("always"), ColorPolicy::Always);
    assert_eq!(ColorPolicy::parse("never"), ColorPolicy::Never);
    assert_eq!(ColorPolicy::parse("auto"), ColorPolicy::Auto);
    assert_eq!(ColorPolicy::parse("bogus"), ColorPolicy::Auto);
}

#[test]
fn explicit_policies_override_the_environment() {
    let e = env(&[("NO_COLOR", "1")]);
    assert!(resolve(ColorPolicy::Always, &e, false));
    assert!(!resolve(ColorPolicy::Never, &env(&[("CLICOLOR_FORCE", "1")]), true));
    assert!(!resolve(ColorPolicy::Auto, &e, true));
}

#[test]
fn paint_disabled_is_plain() {
    assert_eq!(paint(Tone::BoldGreen, "Linked", false), "Linked");
}

#[test]
fn paint_enabled_wraps_with_sgr_and_reset() {
    let s = paint(Tone::BoldGreen, "Linked", true);
    assert!(s.starts_with('\u{1b}'), "should start with ESC: {s:?}");
    assert!(s.contains("Linked"));
    assert!(s.ends_with("\u{1b}[0m"), "should end with reset: {s:?}");
}

#[test]
fn paint_enabled_exact_sequences() {
    assert_eq!(paint(Tone::BoldGreen, "x", true), "\u{1b}[1m\u{1b}[32mx\u{1b}[0m");
    assert_eq!(paint(Tone::Dim, "y", true), "\u{1b}[90my\u{1b}[0m");
    assert_eq!(paint(Tone::Bold, "z", true), "\u{1b}[1mz\u{1b}[0m");
}

#[test]
fn arrow_is_u2192() {
    assert_eq!(arrow(), "\u{2192}");
}

#[test]
fn color_decision_from_reported_values() {
    assert!(!color_for(true, &None, &Some("1".to_string()), true));
    assert!(!color_for(false, &Some("dumb".to_string()), &Some("1".to_string()), true));
    assert!(color_for(false, &Some("xterm".to_string()), &Some("1".to_string()), false));
    assert!(!color_for(false, &None, &Some("0".to_string()), false));
    assert!(color_for(false, &None, &None, true));
}

#[test]
fn every_tone_renders_its_codes() {
    assert_eq!(paint(Tone::BoldWhite, "a", true), "\u{1b}[1m\u{1b}[97ma\u{1b}[0m");
    assert_eq!(paint(Tone::BoldCyan, "a", true), "\u{1b}[1m\u{1b}[36ma\u{1b}[0m");
    assert_eq!(paint(Tone::Yellow, "a", true), "\u{1b}[33ma\u{1b}[0m");
    assert_eq!(paint(Tone::White, "a", true), "\u{1b}[97ma\u{1b}[0m");
    assert_eq!(paint(Tone::HiRed, "a", true), "\u{1b}[91ma\u{1b}[0m");
}
