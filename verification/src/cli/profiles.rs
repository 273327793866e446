//! Which profile files `apply` and `diff` operate on.

use vstd::prelude::*;

use super::args::absolute_path;
use crate::engine::backup::{join_path, joined_path};
use crate::engine::path::made_absolute;
use crate::text::{chars_of, debug_quoted, debug_quoted_text, push_str, string_of};

verus! {

/// Where the profile `name` lives: `<base>/profiles/<name>.conf.yaml`.
pub open spec fn profile_file(base_abs: Seq<char>, name: Seq<char>) -> Seq<char> {
    joined_path(joined_path(base_abs, "profiles"@), name + ".conf.yaml"@)
}

/// Where the profile `name` lives under `base_abs`.
pub fn profile_path(base_abs: &str, name: &str) -> (r: String)
    ensures
        r@ == profile_file(base_abs@, name@),
{
    let dir = join_path(base_abs, "profiles");
    let mut file = chars_of(name);
    push_str(&mut file, ".conf.yaml");
    join_path(dir.as_str(), string_of(file.as_slice()).as_str())
}

/// The file of each named profile, in order.
pub fn profile_candidates(base_abs: &str, profiles: &[String]) -> (r: Vec<String>)
    ensures
        r@.len() == profiles@.len(),
        forall|i: int| 0 <= i < r@.len() ==> #[trigger] r@[i]@ == profile_file(base_abs@, profiles@[i]@),
{
    let mut out: Vec<String> = Vec::new();
    let mut i: usize = 0;
    while i < profiles.len()
        invariant
            i <= profiles@.len(),
            out@.len() == i,
            forall|k: int| 0 <= k < i ==> #[trigger] out@[k]@ == profile_file(base_abs@, profiles@[k]@),
        decreases profiles.len() - i,
    {
        out.push(profile_path(base_abs, profiles[i].as_str()));
        i = i + 1;
    }
    out
}

/// The refusal for a profile whose file is missing.
pub open spec fn missing_profile_text(name: Seq<char>, file: Seq<char>) -> Seq<char> {
    "profile "@ + debug_quoted_text(name) + " not found at "@ + file
}

/// The first profile whose file is absent, if any.
pub open spec fn first_absent(present: Seq<bool>, n: int) -> Option<int>
    decreases n,
{
    if n <= 0 {
        None
    } else {
        match first_absent(present, n - 1) {
            Some(i) => Some(i),
            None => if !present[n - 1] {
                Some(n - 1)
            } else {
                None
            },
        }
    }
}

/// Resolve which profile files to operate on. An explicit `config_path` wins
/// unconditionally (the names are ignored) and is made absolute. Otherwise
/// at least one name is required, and each name maps to
/// `<base>/profiles/<name>.conf.yaml`, which must exist (`present[i]` says
/// whether the `i`-th does).
pub fn resolve_profile_paths(
    base_abs: &str,
    config_path: Option<&str>,
    profiles: &[String],
    present: &[bool],
) -> (r: Result<Vec<String>, String>)
    requires
        present@.len() == profiles@.len(),
    ensures
        match config_path {
            Some(cfg) => match r {
                Ok(v) => v@.len() == 1 && made_absolute(cfg@, v@[0]@),
                Err(_) => true,
            },
            None => if profiles@.len() == 0 {
                r matches Err(m) && m@ == "at least one profile is required"@
            } else {
                match first_absent(present@, profiles@.len() as int) {
                    Some(i) => r matches Err(m) && m@ == missing_profile_text(
                        profiles@[i]@,
                        profile_file(base_abs@, profiles@[i]@),
                    ),
                    None => r matches Ok(v) && v@.len() == profiles@.len() && forall|k: int|
                        0 <= k < v@.len() ==> #[trigger] v@[k]@ == profile_file(
                            base_abs@,
                            profiles@[k]@,
                        ),
                }
            },
        },
{
    if let Some(cfg) = config_path {
        return match absolute_path(cfg) {
            Ok(p) => {
                let mut v: Vec<String> = Vec::new();
                v.push(p);
                Ok(v)
            },
            Err(e) => Err(e),
        };
    }
    if profiles.len() == 0 {
        let v = chars_of("at least one profile is required");
        return Err(string_of(v.as_slice()));
    }
    let mut out: Vec<String> = Vec::new();
    let mut i: usize = 0;
    while i < profiles.len()
        invariant
            i <= profiles@.len(),
            present@.len() == profiles@.len(),
            out@.len() == i,
            first_absent(present@, i as int) is None,
            forall|k: int| 0 <= k < i ==> #[trigger] out@[k]@ == profile_file(base_abs@, profiles@[k]@),
        decreases profiles.len() - i,
    {
        let p = profile_path(base_abs, profiles[i].as_str());
        if !present[i] {
            proof {
                lemma_first_absent_stays(present@, i as int + 1, profiles@.len() as int);
            }
            let mut m = chars_of("profile ");
            push_str(&mut m, debug_quoted(profiles[i].as_str()).as_str());
            push_str(&mut m, " not found at ");
            push_str(&mut m, p.as_str());
            return Err(string_of(m.as_slice()));
        }
        out.push(p);
        i = i + 1;
    }
    Ok(out)
}

proof fn lemma_first_absent_stays(present: Seq<bool>, i: int, n: int)
    requires
        0 < i <= n,
        first_absent(present, i) is Some,
    ensures
        first_absent(present, n) == first_absent(present, i),
    decreases n - i,
{
    if i < n {
        lemma_first_absent_stays(present, i, n - 1);
    }
}

} // verus!
