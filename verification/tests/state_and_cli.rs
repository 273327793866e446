//! State location, logging level, and the command layer's computations.

use std::collections::HashMap;

use dfm::logging::level_from_flags;
use dfm::state::{Env, StateError, Store};
use log::LevelFilter;

struct FakeEnv {
    vars: HashMap<String, String>,
    home: Option<String>,
}

impl Env for FakeEnv {
    fn var(&self, key: &str) -> Option<String> {
        self.vars.get(key).cloned()
    }
    fn home_dir(&self) -> Option<String> {
        self.home.clone()
    }
}

fn store_with(vars: &[(&str, &str)], home: Option<&str>) -> Store<FakeEnv> {
    Store::with_env(FakeEnv {
        vars: vars
            .iter()
            .map(|(k, v)| ((*k).to_string(), (*v).to_string()))
            .collect(),
        home: home.map(str::to_string),
    })
}

#[test]
fn path_uses_xdg_state_home_when_set() {
    let s = store_with(&[("XDG_STATE_HOME", "/xdg")], Some("/home/u"));
    assert_eq!(s.path().unwrap(), "/xdg/dfm/state.json");
}

#[test]
fn path_falls_back_to_home_when_xdg_unset() {
    let s = store_with(&[], Some("/home/u"));
    assert_eq!(s.path().unwrap(), "/home/u/.local/state/dfm/state.json");
}

#[test]
fn path_empty_xdg_falls_through_to_home() {
    let s = store_with(&[("XDG_STATE_HOME", "")], Some("/home/u"));
    assert_eq!(s.path().unwrap(), "/home/u/.local/state/dfm/state.json");
}

#[test]
fn path_no_home_errors() {
    let s = store_with(&[], None);
    assert!(matches!(s.path(), Err(StateError::NoHome)));
}

#[test]
fn level_mapping() {
    assert_eq!(level_from_flags(true, false), LevelFilter::Debug);
    assert_eq!(level_from_flags(false, true), LevelFilter::Warn);
    assert_eq!(level_from_flags(false, false), LevelFilter::Info);
    assert_eq!(level_from_flags(true, true), LevelFilter::Debug);
}
