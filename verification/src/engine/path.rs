//! Path expansion and lexical helpers.
//!
//! Tilde and `$VAR` expansion plus the lexical path operations used across the
//! engine. `$VAR` expansion is hand-rolled so `${VAR:-default}` is one literal
//! variable name, never shell default-substitution. Nothing here touches the
//! filesystem.

use vstd::prelude::*;

use crate::config::model::opt_text;
use crate::text::{
    chars_of, find_char, first_index_of, lemma_first_index_of, push_chars, push_str, slice_chars,
    string_of,
};

verus! {

/// An environment and home-directory source, injectable so expansion can be
/// exercised without the real process environment. Each answer an
/// implementation gives satisfies one of two relations, which an
/// implementation may describe; one that does not is taken to give any
/// answer, so nothing is assumed of it.
pub trait PathEnv: Sized {
    /// Whether `env` may report `value` for the variable `name`.
    closed spec fn reports_var(env: Self, name: Seq<char>, value: Seq<char>) -> bool {
        true
    }

    /// Whether `env` may report `home` as the home directory.
    closed spec fn reports_home(env: Self, home: Option<Seq<char>>) -> bool {
        true
    }

    /// Look up an environment variable; an unset name gives the empty string.
    fn var(&self, name: &str) -> (r: String)
        ensures
            Self::reports_var(*self, name@, r@),
    ;

    /// The current user's home directory, if known.
    fn home(&self) -> (r: Option<String>)
        ensures
            Self::reports_home(*self, opt_text(r)),
    ;
}

/// Whether `p` starts with `~`, the paths whose expansion reads the home
/// directory.
pub open spec fn starts_with_tilde(p: Seq<char>) -> bool {
    p.len() > 0 && p[0] == '~'
}

/// Whether `env` reports `vals` as the values of `names`, one for one.
pub open spec fn vars_reported<E: PathEnv>(env: E, names: Seq<Seq<char>>, vals: Seq<Seq<char>>) -> bool {
    &&& names.len() == vals.len()
    &&& forall|i: int| 0 <= i < vals.len() ==> E::reports_var(env, names[i], #[trigger] vals[i])
}

/// Whether `env` reports what expanding `path` reads: the home directory `h`
/// when `path` starts with `~`, then the values `vals` of the variables the
/// tilde-expanded path refers to, in order.
pub open spec fn expansion_reported<E: PathEnv>(
    env: E,
    path: Seq<char>,
    h: Option<Seq<char>>,
    vals: Seq<Seq<char>>,
) -> bool {
    &&& starts_with_tilde(path) ==> E::reports_home(env, h)
    &&& vars_reported(env, var_refs(tilde_expanded(path, h)), vals)
}

// ── tilde expansion ────────────────────────────────────────────────────────

/// `p` with a leading `~` replaced by `home`. `~user` falls back to the current
/// user's home: everything before the first `/` is replaced by it.
pub open spec fn tilde_expanded(p: Seq<char>, home: Option<Seq<char>>) -> Seq<char> {
    if p.len() == 0 || p[0] != '~' {
        p
    } else if p.len() > 1 && p[1] != '/' {
        let h = match home {
            Some(h) => h,
            None => Seq::<char>::empty(),
        };
        match first_index_of(p, '/') {
            Some(i) => h + p.subrange(i, p.len() as int),
            None => h,
        }
    } else {
        match home {
            Some(h) => if h.len() > 0 {
                h + p.drop_first()
            } else {
                p
            },
            None => p,
        }
    }
}

/// Replace a leading `~` with `home`. `~user` syntax is not supported; it
/// falls back to `home`.
pub fn expand_home_with(path: &str, home: Option<String>) -> (r: String)
    ensures
        r@ == tilde_expanded(path@, opt_text(home)),
{
    let p = chars_of(path);
    if p.len() == 0 || p[0] != '~' {
        return string_of(p.as_slice());
    }
    if p.len() > 1 && p[1] != '/' {
        let home = match home {
            Some(h) => h,
            None => string_of(&[]),
        };
        let mut out = chars_of(home.as_str());
        match find_char(p.as_slice(), '/') {
            Some(slash) => {
                let rest = slice_chars(p.as_slice(), slash, p.len());
                push_chars(&mut out, rest.as_slice());
            },
            None => {},
        }
        return string_of(out.as_slice());
    }
    match home {
        Some(home) => {
            let h = chars_of(home.as_str());
            if h.len() > 0 {
                let mut out = h;
                let rest = slice_chars(p.as_slice(), 1, p.len());
                push_chars(&mut out, rest.as_slice());
                proof {
                    assert(rest@ == p@.drop_first());
                }
                string_of(out.as_slice())
            } else {
                string_of(p.as_slice())
            }
        },
        None => string_of(p.as_slice()),
    }
}

/// Replace a leading `~` with the home directory `env` reports. `~user`
/// syntax is not supported; it falls back to the current user's home. The
/// environment is consulted only for a path that starts with `~`.
pub fn expand_home<E: PathEnv>(path: &str, env: &E) -> (r: String)
    ensures
        exists|h: Option<Seq<char>>|
            (starts_with_tilde(path@) ==> E::reports_home(*env, h)) && r@ == #[trigger] tilde_expanded(
                path@,
                h,
            ),
        path@.len() == 0 || path@[0] != '~' ==> r@ == path@,
{
    let p = chars_of(path);
    let home = if p.len() > 0 && p[0] == '~' {
        env.home()
    } else {
        None
    };
    let ghost h = opt_text(home);
    let r = expand_home_with(path, home);
    assert((starts_with_tilde(path@) ==> E::reports_home(*env, h)) && r@ == tilde_expanded(path@, h));
    r
}

// ── $VAR expansion ─────────────────────────────────────────────────────────

/// Characters allowed in a bare `$NAME`: ASCII letters, digits and `_`.
pub open spec fn is_name_char(c: char) -> bool {
    ('a' <= c && c <= 'z') || ('A' <= c && c <= 'Z') || ('0' <= c && c <= '9') || c == '_'
}

/// The length of the run of name characters at the start of `s`.
pub open spec fn name_run(s: Seq<char>) -> nat
    decreases s.len(),
{
    if s.len() > 0 && is_name_char(s[0]) {
        1 + name_run(s.drop_first())
    } else {
        0
    }
}

/// The variable reference just after a `$`: the name is `rest[lo..hi]` and
/// `width` characters of `rest` are consumed. `${...}` takes everything up to
/// the first `}` (the rest of the text when unterminated); otherwise the name
/// is the run of `[A-Za-z0-9_]`.
pub open spec fn var_span(rest: Seq<char>) -> (int, int, int) {
    if rest.len() == 0 {
        (0, 0, 0)
    } else if rest[0] == '{' {
        match first_index_of(rest, '}') {
            Some(c) => (1, c, c + 1),
            None => (1, rest.len() as int, rest.len() as int),
        }
    } else {
        (0, name_run(rest) as int, name_run(rest) as int)
    }
}

pub proof fn lemma_name_run(s: Seq<char>)
    ensures
        name_run(s) <= s.len(),
        forall|j: int| 0 <= j < name_run(s) ==> is_name_char(s[j]),
        name_run(s) < s.len() ==> !is_name_char(s[name_run(s) as int]),
    decreases s.len(),
{
    if s.len() > 0 && is_name_char(s[0]) {
        lemma_name_run(s.drop_first());
        assert forall|j: int| 0 <= j < name_run(s) implies is_name_char(s[j]) by {
            if j > 0 {
                assert(s[j] == s.drop_first()[j - 1]);
            }
        }
        if name_run(s) < s.len() {
            assert(s[name_run(s) as int] == s.drop_first()[name_run(s.drop_first()) as int]);
        }
    }
}

pub proof fn lemma_var_span(rest: Seq<char>)
    ensures
        0 <= var_span(rest).0 <= var_span(rest).1 <= rest.len(),
        var_span(rest).1 <= var_span(rest).2 <= rest.len(),
        var_span(rest).0 < var_span(rest).1 ==> var_span(rest).2 > 0,
{
    lemma_first_index_of(rest, '}');
    lemma_name_run(rest);
}

/// The names of the variable references in `s`, in order: every `$NAME`,
/// `${NAME}`. `$$` is a literal `$`, and a `$` that names nothing (including a
/// trailing `$`) is no reference.
pub open spec fn var_refs(s: Seq<char>) -> Seq<Seq<char>>
    decreases s.len(),
{
    if s.len() == 0 {
        Seq::empty()
    } else if s[0] == '$' && s.len() > 1 && s[1] == '$' {
        var_refs(s.subrange(2, s.len() as int))
    } else if s[0] == '$' && s.len() > 1 {
        let rest = s.drop_first();
        let (lo, hi, width): (int, int, int) = var_span(rest);
        if lo >= hi {
            var_refs(rest)
        } else {
            proof {
                lemma_var_span(rest);
            }
            seq![rest.subrange(lo, hi)] + var_refs(s.subrange(1 + width, s.len() as int))
        }
    } else {
        var_refs(s.drop_first())
    }
}

/// `s` with its variable references replaced, in order, by `vals` (a
/// reference with no value left expands to nothing).
pub open spec fn substituted(s: Seq<char>, vals: Seq<Seq<char>>) -> Seq<char>
    decreases s.len(),
{
    if s.len() == 0 {
        Seq::<char>::empty()
    } else if s[0] == '$' && s.len() > 1 && s[1] == '$' {
        seq!['$'] + substituted(s.subrange(2, s.len() as int), vals)
    } else if s[0] == '$' && s.len() > 1 {
        let rest = s.drop_first();
        let (lo, hi, width): (int, int, int) = var_span(rest);
        if lo >= hi {
            seq!['$'] + substituted(rest, vals)
        } else {
            proof {
                lemma_var_span(rest);
            }
            if vals.len() > 0 {
                vals[0] + substituted(s.subrange(1 + width, s.len() as int), vals.drop_first())
            } else {
                substituted(s.subrange(1 + width, s.len() as int), vals)
            }
        }
    } else {
        seq![s[0]] + substituted(s.drop_first(), vals)
    }
}

/// Locates the variable reference that starts at `s[from..]` (just after a `$`).
fn var_span_at(s: &[char], from: usize) -> (r: (usize, usize, usize))
    requires
        from <= s@.len(),
    ensures
        r.0 as int == var_span(s@.subrange(from as int, s@.len() as int)).0,
        r.1 as int == var_span(s@.subrange(from as int, s@.len() as int)).1,
        r.2 as int == var_span(s@.subrange(from as int, s@.len() as int)).2,
{
    let ghost rest = s@.subrange(from as int, s@.len() as int);
    if from == s.len() {
        return (0, 0, 0);
    }
    if s[from] == '{' {
        let tail = slice_chars(s, from, s.len());
        match find_char(tail.as_slice(), '}') {
            Some(c) => (1, c, c + 1),
            None => (1, s.len() - from, s.len() - from),
        }
    } else {
        let mut n: usize = 0;
        proof {
            lemma_name_run(rest);
        }
        while from + n < s.len() && is_name_char_exec(s[from + n])
            invariant
                from <= s@.len(),
                rest == s@.subrange(from as int, s@.len() as int),
                n <= name_run(rest),
                name_run(rest) <= rest.len(),
                forall|j: int| 0 <= j < name_run(rest) ==> is_name_char(rest[j]),
                name_run(rest) < rest.len() ==> !is_name_char(rest[name_run(rest) as int]),
            decreases s.len() - (from + n),
        {
            assert(rest[n as int] == s@[from + n]);
            assert(n < name_run(rest));
            n = n + 1;
        }
        proof {
            if n < name_run(rest) {
                assert(rest[n as int] == s@[from + n]);
            }
        }
        (0, n, n)
    }
}

fn is_name_char_exec(c: char) -> (r: bool)
    ensures
        r == is_name_char(c),
{
    ('a' <= c && c <= 'z') || ('A' <= c && c <= 'Z') || ('0' <= c && c <= '9') || c == '_'
}

/// The names of the variables `text` refers to, in order (see [`var_refs`]).
pub fn var_names(text: &str) -> (r: Vec<String>)
    ensures
        string_views(r@) == var_refs(text@),
{
    let s = chars_of(text);
    let mut out: Vec<String> = Vec::new();
    let mut i: usize = 0;
    assert(s@.subrange(0, s@.len() as int) =~= s@);
    assert(string_views(out@) =~= Seq::<Seq<char>>::empty());
    while i < s.len()
        invariant
            i <= s@.len(),
            s@ == text@,
            string_views(out@) + var_refs(s@.subrange(i as int, s@.len() as int)) == var_refs(s@),
        decreases s.len() - i,
    {
        let ghost t = s@.subrange(i as int, s@.len() as int);
        assert(t.drop_first() =~= s@.subrange(i + 1, s@.len() as int));
        if s[i] == '$' && i + 1 < s.len() && s[i + 1] == '$' {
            assert(t.subrange(2, t.len() as int) =~= s@.subrange(i + 2, s@.len() as int));
            i = i + 2;
        } else if s[i] == '$' && i + 1 < s.len() {
            let (lo, hi, width): (usize, usize, usize) = var_span_at(s.as_slice(), i + 1);
            proof {
                lemma_var_span(t.drop_first());
            }
            if lo >= hi {
                i = i + 1;
            } else {
                let name_chars = slice_chars(s.as_slice(), i + 1 + lo, i + 1 + hi);
                assert(name_chars@ =~= t.drop_first().subrange(lo as int, hi as int));
                let name = string_of(name_chars.as_slice());
                let ghost before = out@;
                out.push(name);
                assert(string_views(out@) =~= string_views(before).push(name@));
                assert(t.subrange(1 + width, t.len() as int) =~= s@.subrange(
                    i + 1 + width,
                    s@.len() as int,
                ));
                assert(string_views(out@) + var_refs(s@.subrange(i + 1 + width, s@.len() as int))
                    =~= string_views(before) + var_refs(t));
                i = i + 1 + width;
            }
        } else {
            i = i + 1;
        }
    }
    assert(s@.subrange(s@.len() as int, s@.len() as int) =~= Seq::<char>::empty());
    assert(string_views(out@) =~= var_refs(s@));
    out
}

/// Replace the variable references of `text`, in order, by `values`: the
/// `k`-th reference becomes `values[k]`.
pub fn expand_env_with(text: &str, values: &[String]) -> (r: String)
    ensures
        r@ == substituted(text@, string_views(values@)),
{
    let s = chars_of(text);
    let ghost vals = string_views(values@);
    let mut out: Vec<char> = Vec::new();
    let mut i: usize = 0;
    let mut k: usize = 0;
    assert(s@.subrange(0, s@.len() as int) =~= s@);
    assert(vals.skip(0) =~= vals);
    while i < s.len()
        invariant
            i <= s@.len(),
            k <= vals.len(),
            s@ == text@,
            vals == string_views(values@),
            out@ + substituted(s@.subrange(i as int, s@.len() as int), vals.skip(k as int))
                == substituted(s@, vals),
        decreases s.len() - i,
    {
        let ghost t = s@.subrange(i as int, s@.len() as int);
        assert(t.drop_first() =~= s@.subrange(i + 1, s@.len() as int));
        if s[i] == '$' && i + 1 < s.len() && s[i + 1] == '$' {
            assert(t.subrange(2, t.len() as int) =~= s@.subrange(i + 2, s@.len() as int));
            out.push('$');
            i = i + 2;
        } else if s[i] == '$' && i + 1 < s.len() {
            let (lo, hi, width): (usize, usize, usize) = var_span_at(s.as_slice(), i + 1);
            proof {
                lemma_var_span(t.drop_first());
            }
            if lo >= hi {
                out.push('$');
                i = i + 1;
            } else {
                if k < values.len() {
                    push_str(&mut out, values[k].as_str());
                    assert(vals.skip(k as int)[0] == values@[k as int]@);
                    assert(vals.skip(k as int).drop_first() =~= vals.skip(k + 1));
                    k = k + 1;
                } else {
                    assert(vals.skip(k as int).len() == 0);
                }
                assert(t.subrange(1 + width, t.len() as int) =~= s@.subrange(
                    i + 1 + width,
                    s@.len() as int,
                ));
                i = i + 1 + width;
            }
        } else {
            out.push(s[i]);
            i = i + 1;
        }
    }
    assert(s@.subrange(s@.len() as int, s@.len() as int) =~= Seq::<char>::empty());
    string_of(out.as_slice())
}

/// Expand `$VAR` and `${VAR}` references with the values `env` reports,
/// asked once per reference, in order. `$$` is a literal `$`.
/// `${VAR:-default}` is not special: the whole `VAR:-default` is one name.
pub fn expand_env<E: PathEnv>(text: &str, env: &E) -> (r: String)
    ensures
        exists|vals: Seq<Seq<char>>|
            #[trigger] vars_reported(*env, var_refs(text@), vals) && r@ == substituted(text@, vals),
{
    let names = var_names(text);
    let mut values: Vec<String> = Vec::new();
    let mut i: usize = 0;
    while i < names.len()
        invariant
            i <= names@.len(),
            values@.len() == i,
            string_views(names@) == var_refs(text@),
            forall|k: int|
                0 <= k < i ==> E::reports_var(*env, names@[k]@, #[trigger] values@[k]@),
        decreases names.len() - i,
    {
        let v = env.var(names[i].as_str());
        values.push(v);
        i = i + 1;
    }
    let r = expand_env_with(text, values.as_slice());
    let ghost vals = string_views(values@);
    assert forall|k: int| 0 <= k < vals.len() implies E::reports_var(
        *env,
        var_refs(text@)[k],
        #[trigger] vals[k],
    ) by {
        assert(vals[k] == values@[k]@);
        assert(var_refs(text@)[k] == names@[k]@);
    }
    assert(vars_reported(*env, var_refs(text@), vals));
    r
}

/// Tilde expansion followed by `$VAR` expansion.
pub fn expand<E: PathEnv>(path: &str, env: &E) -> (r: String)
    ensures
        exists|h: Option<Seq<char>>, vals: Seq<Seq<char>>|
            #[trigger] expansion_reported(*env, path@, h, vals) && r@ == substituted(
                tilde_expanded(path@, h),
                vals,
            ),
{
    let h = expand_home(path, env);
    let r = expand_env(h.as_str(), env);
    let ghost hv = choose|hv: Option<Seq<char>>|
        (starts_with_tilde(path@) ==> E::reports_home(*env, hv)) && h@ == #[trigger] tilde_expanded(
            path@,
            hv,
        );
    let ghost vals = choose|vals: Seq<Seq<char>>|
        #[trigger] vars_reported(*env, var_refs(h@), vals) && r@ == substituted(h@, vals);
    assert(expansion_reported(*env, path@, hv, vals) && r@ == substituted(
        tilde_expanded(path@, hv),
        vals,
    ));
    r
}

proof fn lemma_no_dollar_unchanged(s: Seq<char>, vals: Seq<Seq<char>>)
    requires
        forall|i: int| 0 <= i < s.len() ==> s[i] != '$',
    ensures
        substituted(s, vals) == s,
        var_refs(s).len() == 0,
    decreases s.len(),
{
    if s.len() > 0 {
        lemma_no_dollar_unchanged(s.drop_first(), vals);
        assert(s =~= seq![s[0]] + s.drop_first());
    }
}

/// Whether `c` is an ASCII letter, an ASCII digit or `_`.
pub open spec fn ascii_word_char(c: char) -> bool {
    ('a' <= c && c <= 'z') || ('A' <= c && c <= 'Z') || ('0' <= c && c <= '9') || c == '_'
}

proof fn lemma_name_run_of_word(n: Seq<char>, t: Seq<char>)
    requires
        forall|i: int| 0 <= i < n.len() ==> ascii_word_char(#[trigger] n[i]),
        t.len() == 0 || !ascii_word_char(t[0]),
    ensures
        name_run(n + t) == n.len(),
    decreases n.len(),
{
    if n.len() == 0 {
        assert(n + t =~= t);
    } else {
        assert(ascii_word_char(n[0]));
        assert((n + t).drop_first() =~= n.drop_first() + t);
        lemma_name_run_of_word(n.drop_first(), t);
    }
}

/// A bare `$NAME` reference names the whole run of ASCII letters, digits and
/// `_` that follows the `$`, up to the first other character: in `$NAME`
/// followed by `t`, `NAME` is the first variable referred to, and the rest
/// are those of `t`.
pub proof fn bare_reference_takes_whole_word(name: Seq<char>, t: Seq<char>)
    requires
        name.len() > 0,
        forall|i: int| 0 <= i < name.len() ==> ascii_word_char(#[trigger] name[i]),
        t.len() == 0 || !ascii_word_char(t[0]),
    ensures
        var_refs(seq!['$'] + name + t) == seq![name] + var_refs(t),
{
    let s = seq!['$'] + name + t;
    let rest = s.drop_first();
    assert(rest =~= name + t);
    lemma_name_run_of_word(name, t);
    assert(s[1] == name[0]);
    assert(ascii_word_char(name[0]));
    assert(rest[0] == name[0]);
    assert(rest.subrange(0, name.len() as int) =~= name);
    assert(s.subrange(1 + name.len() as int, s.len() as int) =~= t);
}

/// A path with no `$` that does not start with `~` expands to itself,
/// whatever the environment holds.
pub proof fn plain_paths_expand_to_themselves(
    p: Seq<char>,
    home: Option<Seq<char>>,
    vals: Seq<Seq<char>>,
)
    requires
        forall|i: int| 0 <= i < p.len() ==> p[i] != '$',
        p.len() == 0 || p[0] != '~',
    ensures
        substituted(tilde_expanded(p, home), vals) == p,
        var_refs(tilde_expanded(p, home)).len() == 0,
{
    lemma_no_dollar_unchanged(p, vals);
}

// ── lexical cleaning ───────────────────────────────────────────────────────

/// `s` split at every `d`, as `str::split` does: `k` separators give `k + 1`
/// pieces, empty ones included.
pub open spec fn split_on(s: Seq<char>, d: char) -> Seq<Seq<char>>
    decreases s.len(),
{
    if s.len() == 0 {
        seq![Seq::<char>::empty()]
    } else {
        let prev = split_on(s.drop_last(), d);
        if s.last() == d {
            prev.push(Seq::<char>::empty())
        } else {
            prev.update(prev.len() - 1, prev.last().push(s.last()))
        }
    }
}

pub proof fn lemma_split_on_len(s: Seq<char>, d: char)
    ensures
        split_on(s, d).len() >= 1,
    decreases s.len(),
{
    if s.len() > 0 {
        lemma_split_on_len(s.drop_last(), d);
    }
}

/// The piece `..`.
pub open spec fn dot_dot() -> Seq<char> {
    seq!['.', '.']
}

/// One step of cleaning: `""` and `.` vanish, `..` drops the last kept
/// segment (or stays, at the start of a relative path; or vanishes at the
/// root of an absolute one), anything else is kept.
pub open spec fn clean_step(stack: Seq<Seq<char>>, seg: Seq<char>, abs: bool) -> Seq<Seq<char>> {
    if seg.len() == 0 || seg == seq!['.'] {
        stack
    } else if seg == dot_dot() {
        if stack.len() > 0 && stack.last() != dot_dot() {
            stack.drop_last()
        } else if abs {
            stack
        } else {
            stack.push(seg)
        }
    } else {
        stack.push(seg)
    }
}

/// The segments kept after cleaning `segs` in order.
pub open spec fn clean_stack(segs: Seq<Seq<char>>, abs: bool) -> Seq<Seq<char>>
    decreases segs.len(),
{
    if segs.len() == 0 {
        Seq::<Seq<char>>::empty()
    } else {
        clean_step(clean_stack(segs.drop_last(), abs), segs.last(), abs)
    }
}

/// The parts joined with `d` between them.
pub open spec fn join_with(parts: Seq<Seq<char>>, d: char) -> Seq<char>
    decreases parts.len(),
{
    if parts.len() == 0 {
        Seq::<char>::empty()
    } else if parts.len() == 1 {
        parts[0]
    } else {
        join_with(parts.drop_last(), d) + seq![d] + parts.last()
    }
}

/// The lexically cleaned path: `.` segments and repeated separators removed,
/// `..` collapsed against the previous segment, `.` for an empty result.
pub open spec fn cleaned(p: Seq<char>) -> Seq<char> {
    if p.len() == 0 {
        seq!['.']
    } else {
        let abs = p[0] == '/';
        let j = join_with(clean_stack(split_on(p, '/'), abs), '/');
        if abs {
            seq!['/'] + j
        } else if j.len() == 0 {
            seq!['.']
        } else {
            j
        }
    }
}

/// The character sequences held by a vector of character vectors.
pub open spec fn views(v: Seq<Vec<char>>) -> Seq<Seq<char>> {
    v.map_values(|x: Vec<char>| x@)
}

fn is_dot(seg: &Vec<char>) -> (r: bool)
    ensures
        r == (seg@ == seq!['.']),
{
    if seg.len() == 1 && seg[0] == '.' {
        assert(seg@ =~= seq!['.']);
        true
    } else {
        false
    }
}

fn is_dot_dot(seg: &Vec<char>) -> (r: bool)
    ensures
        r == (seg@ == dot_dot()),
{
    if seg.len() == 2 && seg[0] == '.' && seg[1] == '.' {
        assert(seg@ =~= dot_dot());
        true
    } else {
        false
    }
}

/// Applies one cleaning step to the stack of kept segments.
fn clean_push(stack: &mut Vec<Vec<char>>, seg: Vec<char>, abs: bool)
    ensures
        views(final(stack)@) == clean_step(views(old(stack)@), seg@, abs),
{
    let ghost before = views(stack@);
    let ghost sv = seg@;
    if seg.len() == 0 || is_dot(&seg) {
        return;
    }
    if is_dot_dot(&seg) {
        let n: usize = stack.len();
        if n > 0 && !is_dot_dot(&stack[n - 1]) {
            stack.pop();
            assert(views(stack@) =~= before.drop_last());
        } else if !abs {
            stack.push(seg);
            assert(views(stack@) =~= before.push(sv));
        }
    } else {
        stack.push(seg);
        assert(views(stack@) =~= before.push(sv));
    }
}

/// Joins the parts with `d` between them.
fn join_parts(parts: &Vec<Vec<char>>, d: char) -> (r: Vec<char>)
    ensures
        r@ == join_with(views(parts@), d),
{
    let mut out: Vec<char> = Vec::new();
    let mut k: usize = 0;
    while k < parts.len()
        invariant
            k <= parts@.len(),
            out@ == join_with(views(parts@).take(k as int), d),
        decreases parts.len() - k,
    {
        let ghost pv = views(parts@);
        assert(pv.take(k + 1).drop_last() =~= pv.take(k as int));
        if k > 0 {
            out.push(d);
        }
        push_chars(&mut out, parts[k].as_slice());
        k = k + 1;
        proof {
            if k == 1 {
                assert(pv.take(1) =~= seq![pv[0]]);
            }
        }
    }
    assert(views(parts@).take(parts@.len() as int) =~= views(parts@));
    out
}

/// Splits `s` at `/` and cleans the segments in order.
fn clean_segments(s: &Vec<char>, abs: bool) -> (r: Vec<Vec<char>>)
    ensures
        views(r@) == clean_stack(split_on(s@, '/'), abs),
{
    let mut stack: Vec<Vec<char>> = Vec::new();
    let mut cur: Vec<char> = Vec::new();
    let mut i: usize = 0;
    assert(s@.take(0) =~= Seq::<char>::empty());
    assert(split_on(Seq::<char>::empty(), '/').drop_last() =~= Seq::<Seq<char>>::empty());
    while i < s.len()
        invariant
            i <= s@.len(),
            split_on(s@.take(i as int), '/').len() >= 1,
            views(stack@) == clean_stack(split_on(s@.take(i as int), '/').drop_last(), abs),
            cur@ == split_on(s@.take(i as int), '/').last(),
        decreases s.len() - i,
    {
        let ghost sp = split_on(s@.take(i as int), '/');
        let ghost t = s@.take(i + 1);
        assert(t.drop_last() =~= s@.take(i as int));
        assert(t.last() == s@[i as int]);
        proof {
            lemma_split_on_len(t, '/');
        }
        if s[i] == '/' {
            let seg = cur;
            cur = Vec::new();
            clean_push(&mut stack, seg, abs);
            proof {
                let sp2 = split_on(t, '/');
                assert(sp2 == sp.push(Seq::<char>::empty()));
                assert(sp2.drop_last() =~= sp);
                assert(sp.drop_last() =~= sp.drop_last());
                assert(clean_stack(sp, abs) == clean_step(clean_stack(sp.drop_last(), abs), sp.last(), abs));
            }
        } else {
            cur.push(s[i]);
            proof {
                let sp2 = split_on(t, '/');
                assert(sp2 == sp.update(sp.len() - 1, sp.last().push(s@[i as int])));
                assert(sp2.drop_last() =~= sp.drop_last());
            }
        }
        i = i + 1;
    }
    assert(s@.take(s@.len() as int) =~= s@);
    let ghost sp = split_on(s@, '/');
    clean_push(&mut stack, cur, abs);
    assert(sp.drop_last() =~= sp.drop_last());
    stack
}

/// Lexically clean a path: collapse `.`/`..` and remove duplicate separators.
/// Does not touch the filesystem.
pub fn clean(path: &str) -> (r: String)
    ensures
        r@ == cleaned(path@),
{
    let p = chars_of(path);
    if p.len() == 0 {
        let mut dot: Vec<char> = Vec::new();
        dot.push('.');
        assert(dot@ =~= seq!['.']);
        return string_of(dot.as_slice());
    }
    let abs = p[0] == '/';
    let stack = clean_segments(&p, abs);
    let joined = join_parts(&stack, '/');
    if abs {
        let mut out: Vec<char> = Vec::new();
        out.push('/');
        push_chars(&mut out, joined.as_slice());
        assert(out@ =~= seq!['/'] + joined@);
        string_of(out.as_slice())
    } else if joined.len() == 0 {
        let mut dot: Vec<char> = Vec::new();
        dot.push('.');
        assert(dot@ =~= seq!['.']);
        string_of(dot.as_slice())
    } else {
        string_of(joined.as_slice())
    }
}


// ── prefix tests, joins, names ─────────────────────────────────────────────

/// `p` with a trailing `/`, the form used for prefix comparison. The root
/// `/` already ends in one and is kept as it is.
pub open spec fn with_slash(p: Seq<char>) -> Seq<char> {
    if p == seq!['/'] {
        p
    } else {
        p + seq!['/']
    }
}

/// The characters of `p` in the form [`with_slash`] gives.
fn slashed(p: &str) -> (r: Vec<char>)
    ensures
        r@ == with_slash(p@),
{
    let mut v = chars_of(p);
    if v.len() == 1 && v[0] == '/' {
        assert(v@ =~= seq!['/']);
        v
    } else {
        let ghost before = v@;
        v.push('/');
        assert(before != seq!['/']) by {
            if before == seq!['/'] {
                assert(before.len() == 1 && before[0] == '/');
            }
        }
        v
    }
}

/// Whether the cleaned `path` lies inside (or is) one of the cleaned prefixes.
/// Comparing with a trailing separator keeps `/foo/bar` outside `/foo/ba`;
/// every absolute path lies inside the root `/`.
pub open spec fn inside_any(path: Seq<char>, prefixes: Seq<Seq<char>>) -> bool {
    exists|i: int|
        0 <= i < prefixes.len() && #[trigger] with_slash(cleaned(prefixes[i])).is_prefix_of(
            with_slash(cleaned(path)),
        )
}

/// The views of a sequence of strings.
pub open spec fn string_views(v: Seq<String>) -> Seq<Seq<char>> {
    v.map_values(|s: String| s@)
}

fn starts_with_chars(s: &[char], pre: &[char]) -> (r: bool)
    ensures
        r == pre@.is_prefix_of(s@),
{
    if pre.len() > s.len() {
        return false;
    }
    let mut i: usize = 0;
    while i < pre.len()
        invariant
            i <= pre@.len() <= s@.len(),
            forall|j: int| 0 <= j < i ==> pre@[j] == s@[j],
        decreases pre.len() - i,
    {
        if pre[i] != s[i] {
            return false;
        }
        i = i + 1;
    }
    true
}

/// Whether `path` sits inside any of the candidate prefixes. Each prefix is
/// compared against the cleaned path with a trailing separator so `/foo/bar`
/// isn't treated as inside `/foo/ba`.
pub fn is_inside_any(path: &str, prefixes: &[String]) -> (r: bool)
    ensures
        r == inside_any(path@, string_views(prefixes@)),
{
    let cp = clean(path);
    let p = slashed(cp.as_str());
    let ghost pv = string_views(prefixes@);
    let mut i: usize = 0;
    while i < prefixes.len()
        invariant
            i <= prefixes@.len(),
            pv == string_views(prefixes@),
            p@ == with_slash(cleaned(path@)),
            forall|j: int| 0 <= j < i ==> !#[trigger] with_slash(cleaned(pv[j])).is_prefix_of(
                with_slash(cleaned(path@)),
            ),
        decreases prefixes.len() - i,
    {
        let cq = clean(prefixes[i].as_str());
        let q = slashed(cq.as_str());
        assert(pv[i as int] == prefixes@[i as int]@);
        if starts_with_chars(p.as_slice(), q.as_slice()) {
            assert(with_slash(cleaned(pv[i as int])).is_prefix_of(with_slash(cleaned(path@))));
            return true;
        }
        i = i + 1;
    }
    false
}

/// `rel` appended to `base` as `Path::join` does for a relative `rel`: a
/// separator is inserted unless `base` is empty or already ends with one.
pub open spec fn path_joined(base: Seq<char>, rel: Seq<char>) -> Seq<char> {
    if base.len() == 0 {
        rel
    } else if base.last() == '/' {
        base + rel
    } else {
        base + seq!['/'] + rel
    }
}

/// Absolute sources are kept verbatim; relative ones are joined onto the base
/// directory and cleaned.
pub open spec fn based(base_dir: Seq<char>, source: Seq<char>) -> Seq<char> {
    if source.len() > 0 && source[0] == '/' {
        source
    } else {
        cleaned(path_joined(base_dir, source))
    }
}

/// Join a base directory with a relative source. Absolute sources are returned
/// verbatim.
pub fn resolve_base(base_dir: &str, source: &str) -> (r: String)
    ensures
        r@ == based(base_dir@, source@),
{
    let src = chars_of(source);
    if src.len() > 0 && src[0] == '/' {
        return string_of(src.as_slice());
    }
    let mut joined = chars_of(base_dir);
    let n: usize = joined.len();
    if n > 0 && joined[n - 1] != '/' {
        joined.push('/');
        assert(joined@ =~= base_dir@ + seq!['/']);
    }
    push_chars(&mut joined, src.as_slice());
    proof {
        if n == 0 {
            assert(joined@ =~= src@);
        }
    }
    assert(joined@ == path_joined(base_dir@, source@));
    let j = string_of(joined.as_slice());
    clean(j.as_str())
}

/// The last segment that is neither empty nor `.`.
pub open spec fn last_named(segs: Seq<Seq<char>>) -> Option<Seq<char>>
    decreases segs.len(),
{
    if segs.len() == 0 {
        None
    } else if segs.last().len() > 0 && segs.last() != seq!['.'] {
        Some(segs.last())
    } else {
        last_named(segs.drop_last())
    }
}

/// The final component of a path when it is a normal name (`Path::file_name`):
/// trailing separators and `.` segments are ignored, `..` has no name.
pub open spec fn file_name_of(p: Seq<char>) -> Option<Seq<char>> {
    match last_named(split_on(p, '/')) {
        Some(s) => if s == dot_dot() {
            None
        } else {
            Some(s)
        },
        None => None,
    }
}

/// The default source for a link target: its file name with one leading `.`
/// removed (`~/.vim` gives `vim`); empty when there is no file name.
pub open spec fn source_for(target: Seq<char>) -> Seq<char> {
    let base = match file_name_of(target) {
        Some(n) => n,
        None => Seq::<char>::empty(),
    };
    if base.len() > 1 && base[0] == '.' {
        base.drop_first()
    } else {
        base
    }
}

fn last_named_segment(s: &Vec<char>) -> (r: Option<Vec<char>>)
    ensures
        match r {
            Some(v) => last_named(split_on(s@, '/')) == Some(v@),
            None => last_named(split_on(s@, '/')) is None,
        },
{
    let mut last: Option<Vec<char>> = None;
    let mut cur: Vec<char> = Vec::new();
    let mut i: usize = 0;
    assert(s@.take(0) =~= Seq::<char>::empty());
    assert(split_on(Seq::<char>::empty(), '/').drop_last() =~= Seq::<Seq<char>>::empty());
    while i < s.len()
        invariant
            i <= s@.len(),
            split_on(s@.take(i as int), '/').len() >= 1,
            match last {
                Some(v) => last_named(split_on(s@.take(i as int), '/').drop_last()) == Some(v@),
                None => last_named(split_on(s@.take(i as int), '/').drop_last()) is None,
            },
            cur@ == split_on(s@.take(i as int), '/').last(),
        decreases s.len() - i,
    {
        let ghost sp = split_on(s@.take(i as int), '/');
        let ghost t = s@.take(i + 1);
        assert(t.drop_last() =~= s@.take(i as int));
        proof {
            lemma_split_on_len(t, '/');
        }
        if s[i] == '/' {
            let seg = cur;
            cur = Vec::new();
            if seg.len() > 0 && !is_dot(&seg) {
                last = Some(seg);
            }
            proof {
                let sp2 = split_on(t, '/');
                assert(sp2.drop_last() =~= sp);
            }
        } else {
            cur.push(s[i]);
            proof {
                let sp2 = split_on(t, '/');
                assert(sp2.drop_last() =~= sp.drop_last());
            }
        }
        i = i + 1;
    }
    assert(s@.take(s@.len() as int) =~= s@);
    if cur.len() > 0 && !is_dot(&cur) {
        last = Some(cur);
    }
    last
}

/// Strip a single leading `.` from a path's file name: `~/.vim` gives `vim`.
pub fn default_source(target: &str) -> (r: String)
    ensures
        r@ == source_for(target@),
{
    let t = chars_of(target);
    let base: Vec<char> = match last_named_segment(&t) {
        Some(v) => if is_dot_dot(&v) {
            Vec::new()
        } else {
            v
        },
        None => Vec::new(),
    };
    if base.len() > 1 && base[0] == '.' {
        let rest = slice_chars(base.as_slice(), 1, base.len());
        assert(rest@ =~= base@.drop_first());
        string_of(rest.as_slice())
    } else {
        string_of(base.as_slice())
    }
}

/// A glob metacharacter: `*`, `?` or `[`.
pub open spec fn is_glob_char(c: char) -> bool {
    c == '*' || c == '?' || c == '['
}

/// Whether a string contains glob metacharacters (`*`, `?`, `[`).
pub fn has_glob_chars(s: &str) -> (r: bool)
    ensures
        r == exists|i: int| 0 <= i < s@.len() && #[trigger] is_glob_char(s@[i]),
{
    let cs = chars_of(s);
    let mut i: usize = 0;
    while i < cs.len()
        invariant
            i <= cs@.len(),
            cs@ == s@,
            forall|j: int| 0 <= j < i ==> !#[trigger] is_glob_char(cs@[j]),
        decreases cs.len() - i,
    {
        let c = cs[i];
        if c == '*' || c == '?' || c == '[' {
            assert(is_glob_char(s@[i as int]));
            return true;
        }
        i = i + 1;
    }
    false
}

/// `p` without one leading `/`.
pub open spec fn root_stripped(p: Seq<char>) -> Seq<char> {
    if p.len() > 0 && p[0] == '/' {
        p.drop_first()
    } else {
        p
    }
}

/// Drop a leading `/` so an absolute path can be re-rooted under a backup dir.
pub fn strip_root(path: &str) -> (r: String)
    ensures
        r@ == root_stripped(path@),
{
    let p = chars_of(path);
    if p.len() > 0 && p[0] == '/' {
        let rest = slice_chars(p.as_slice(), 1, p.len());
        assert(rest@ =~= p@.drop_first());
        string_of(rest.as_slice())
    } else {
        string_of(p.as_slice())
    }
}

/// Whether a path is absolute (begins with `/`).
pub open spec fn is_absolute(p: Seq<char>) -> bool {
    p.len() > 0 && p[0] == '/'
}

/// The pieces of a path that name something: what lies between separators,
/// with empty pieces and `.` left out (`..` is kept).
pub open spec fn named_segments(p: Seq<char>) -> Seq<Seq<char>> {
    split_on(p, '/').filter(names_something())
}

/// Whether a piece of a path names something: it is neither empty nor `.`.
pub open spec fn names_something() -> spec_fn(Seq<char>) -> bool {
    |x: Seq<char>| x.len() > 0 && x != seq!['.']
}

/// The root has no named segments, so none of them is `..`.
pub proof fn lemma_root_names_no_parent()
    ensures
        !named_segments(seq!['/']).contains(dot_dot()),
{
    let s = seq!['/'];
    assert(s.drop_last() =~= Seq::<char>::empty());
    assert(s.last() == '/');
    assert(split_on(Seq::<char>::empty(), '/') == seq![Seq::<char>::empty()]);
    assert(split_on(s, '/') == split_on(Seq::<char>::empty(), '/').push(Seq::<char>::empty()));
    let sp = split_on(s, '/');
    assert(sp =~= seq![Seq::<char>::empty(), Seq::<char>::empty()]);
    if named_segments(s).contains(dot_dot()) {
        sp.lemma_filter_contains_rev(names_something(), dot_dot());
        let i = choose|i: int| 0 <= i < sp.len() && sp[i] == dot_dot();
        assert(sp[i].len() == 0);
    }
}

/// Whether `q` is `p` made absolute without touching the filesystem: `q` is
/// absolute and ends with the named segments of `p`, and an absolute `p`
/// keeps exactly its own.
pub open spec fn made_absolute(p: Seq<char>, q: Seq<char>) -> bool {
    &&& is_absolute(q)
    &&& named_segments(p).is_suffix_of(named_segments(q))
    &&& is_absolute(p) ==> named_segments(q) == named_segments(p)
}

/// Whether the relative text `t`, read from the directory `dir`, names
/// `target`: joined onto `dir` it cleans to what `target` cleans to.
pub open spec fn leads_back(dir: Seq<char>, t: Seq<char>, target: Seq<char>) -> bool {
    !is_absolute(t) && cleaned(path_joined(dir, t)) == cleaned(target)
}

/// What `pathdiff::diff_paths(target, base)` returns, as text.
pub uninterp spec fn relative_path(target: Seq<char>, base: Seq<char>) -> Option<Seq<char>>;

/// Compute a relative path from `base` to `target` with
/// `pathdiff::diff_paths`. Returns `None` when no relative path exists. The
/// claims beyond the name are the two that the crate's first branch shows (an
/// absolute target under a relative base is returned as it is, and a relative
/// target under an absolute base has no relative path), and what its walk over
/// the components of two absolute paths gives when the base holds no `..`: a
/// relative text that leads from the base back to the target.
#[verifier::external_body]
pub fn rel(base: &str, target: &str) -> (r: Option<String>)
    ensures
        r is Some <==> relative_path(target@, base@) is Some,
        r matches Some(p) ==> relative_path(target@, base@) == Some(p@),
        is_absolute(target@) && !is_absolute(base@) ==> r is Some && r.unwrap()@ == target@,
        !is_absolute(target@) && is_absolute(base@) ==> r is None,
        is_absolute(target@) && is_absolute(base@) && !named_segments(base@).contains(dot_dot())
            ==> r is Some && leads_back(base@, r.unwrap()@, target@),
{
    match pathdiff::diff_paths(target, base) {
        Some(p) => Some(p.to_string_lossy().into_owned()),
        None => None,
    }
}


// ── laws ───────────────────────────────────────────────────────────────────

/// No `/` in `s`.
pub open spec fn no_sep(s: Seq<char>) -> bool {
    forall|i: int| 0 <= i < s.len() ==> s[i] != '/'
}

/// The shape of what cleaning keeps: non-empty names without separators,
/// no `.`, no `..` under the root, and `..` only as a leading run.
pub open spec fn canonical(st: Seq<Seq<char>>, abs: bool) -> bool {
    &&& forall|i: int|
        0 <= i < st.len() ==> {
            &&& (#[trigger] st[i]).len() > 0
            &&& st[i] != seq!['.']
            &&& no_sep(st[i])
            &&& abs ==> st[i] != dot_dot()
        }
    &&& forall|i: int, j: int|
        0 <= i < j < st.len() && #[trigger] st[j] == dot_dot() ==> #[trigger] st[i] == dot_dot()
}

proof fn lemma_split_on_no_sep(s: Seq<char>)
    ensures
        forall|k: int| 0 <= k < split_on(s, '/').len() ==> no_sep(#[trigger] split_on(s, '/')[k]),
    decreases s.len(),
{
    if s.len() > 0 {
        lemma_split_on_no_sep(s.drop_last());
        lemma_split_on_len(s.drop_last(), '/');
    }
}

proof fn lemma_split_push_plain(x: Seq<char>, b: Seq<char>)
    requires
        no_sep(b),
    ensures
        split_on(x + b, '/') == split_on(x, '/').update(
            split_on(x, '/').len() - 1,
            split_on(x, '/').last() + b,
        ),
    decreases b.len(),
{
    lemma_split_on_len(x, '/');
    let sx = split_on(x, '/');
    if b.len() == 0 {
        assert(x + b =~= x);
        assert(sx.update(sx.len() - 1, sx.last() + b) =~= sx);
    } else {
        let b0 = b.drop_last();
        lemma_split_push_plain(x, b0);
        assert((x + b).drop_last() =~= x + b0);
        assert((x + b).last() == b.last());
        let prev = split_on(x + b0, '/');
        assert(prev == sx.update(sx.len() - 1, sx.last() + b0));
        assert(split_on(x + b, '/') == prev.update(prev.len() - 1, prev.last().push(b.last())));
        assert(prev.len() == sx.len());
        assert(prev.last() == sx.last() + b0);
        assert((sx.last() + b0).push(b.last()) =~= sx.last() + b);
        assert(split_on(x + b, '/') =~= sx.update(sx.len() - 1, sx.last() + b));
    }
}

proof fn lemma_split_join(st: Seq<Seq<char>>)
    requires
        st.len() >= 1,
        forall|i: int| 0 <= i < st.len() ==> no_sep(#[trigger] st[i]),
    ensures
        split_on(join_with(st, '/'), '/') == st,
    decreases st.len(),
{
    if st.len() == 1 {
        lemma_split_push_plain(Seq::<char>::empty(), st[0]);
        assert(Seq::<char>::empty() + st[0] =~= st[0]);
        assert(split_on(Seq::<char>::empty(), '/') =~= seq![Seq::<char>::empty()]);
        assert(split_on(st[0], '/') =~= st);
    } else {
        let a = join_with(st.drop_last(), '/');
        assert(no_sep(st.last()));
        lemma_split_join(st.drop_last());
        let a2 = a.push('/');
        assert(a2.drop_last() =~= a);
        assert(split_on(a2, '/') == split_on(a, '/').push(Seq::<char>::empty()));
        lemma_split_push_plain(a2, st.last());
        assert(join_with(st, '/') =~= a2 + st.last());
        let sa2 = split_on(a2, '/');
        assert(sa2.last() + st.last() =~= st.last());
        assert(sa2.update(sa2.len() - 1, sa2.last() + st.last()) =~= st);
    }
}

proof fn lemma_clean_step_canonical(stack: Seq<Seq<char>>, seg: Seq<char>, abs: bool)
    requires
        canonical(stack, abs),
        no_sep(seg),
    ensures
        canonical(clean_step(stack, seg, abs), abs),
{
    let r = clean_step(stack, seg, abs);
    if seg.len() == 0 || seg == seq!['.'] {
    } else if seg == dot_dot() {
        if stack.len() > 0 && stack.last() != dot_dot() {
            assert forall|i: int, j: int|
                0 <= i < j < r.len() && #[trigger] r[j] == dot_dot() implies #[trigger] r[i]
                == dot_dot() by {
                assert(r[j] == stack[j] && r[i] == stack[i]);
            }
        } else if abs {
        } else {
            assert forall|i: int, j: int|
                0 <= i < j < r.len() && #[trigger] r[j] == dot_dot() implies #[trigger] r[i]
                == dot_dot() by {
                assert(r[i] == stack[i]);
                if j < stack.len() {
                    assert(r[j] == stack[j]);
                } else {
                    assert(stack[stack.len() - 1] == dot_dot());
                    if i < stack.len() - 1 {
                        assert(stack[i] == dot_dot());
                    }
                }
            }
        }
    } else {
        assert forall|i: int, j: int|
            0 <= i < j < r.len() && #[trigger] r[j] == dot_dot() implies #[trigger] r[i]
            == dot_dot() by {
            assert(r[i] == stack[i]);
            assert(j < stack.len());
            assert(r[j] == stack[j]);
        }
    }
}

proof fn lemma_clean_stack_canonical(segs: Seq<Seq<char>>, abs: bool)
    requires
        forall|i: int| 0 <= i < segs.len() ==> no_sep(#[trigger] segs[i]),
    ensures
        canonical(clean_stack(segs, abs), abs),
    decreases segs.len(),
{
    if segs.len() > 0 {
        assert forall|i: int| 0 <= i < segs.drop_last().len() implies no_sep(
            #[trigger] segs.drop_last()[i],
        ) by {
            assert(segs.drop_last()[i] == segs[i]);
        }
        lemma_clean_stack_canonical(segs.drop_last(), abs);
        assert(no_sep(segs[segs.len() - 1]));
        lemma_clean_step_canonical(clean_stack(segs.drop_last(), abs), segs.last(), abs);
    }
}

proof fn lemma_clean_stack_fixed(st: Seq<Seq<char>>, abs: bool)
    requires
        canonical(st, abs),
    ensures
        clean_stack(st, abs) == st,
    decreases st.len(),
{
    if st.len() > 0 {
        let d = st.drop_last();
        assert(canonical(d, abs)) by {
            assert forall|i: int, j: int|
                0 <= i < j < d.len() && #[trigger] d[j] == dot_dot() implies #[trigger] d[i]
                == dot_dot() by {
                assert(d[j] == st[j] && d[i] == st[i]);
            }
            assert forall|i: int| 0 <= i < d.len() implies {
                &&& (#[trigger] d[i]).len() > 0
                &&& d[i] != seq!['.']
                &&& no_sep(d[i])
                &&& abs ==> d[i] != dot_dot()
            } by {
                assert(d[i] == st[i]);
            }
        }
        lemma_clean_stack_fixed(d, abs);
        let last = st[st.len() - 1];
        assert(last.len() > 0 && last != seq!['.']);
        if last == dot_dot() {
            if d.len() > 0 {
                assert(st[d.len() - 1] == dot_dot());
            }
        }
        assert(d.push(last) =~= st);
    }
}

proof fn lemma_clean_stack_skip_empty_head(st: Seq<Seq<char>>, abs: bool)
    ensures
        clean_stack(seq![Seq::<char>::empty()] + st, abs) == clean_stack(st, abs),
    decreases st.len(),
{
    let e = seq![Seq::<char>::empty()];
    if st.len() == 0 {
        assert(e + st =~= e);
        assert(e.drop_last() =~= Seq::<Seq<char>>::empty());
        assert(e.last() == Seq::<char>::empty());
        assert(clean_stack(e, abs) == clean_step(
            clean_stack(e.drop_last(), abs),
            e.last(),
            abs,
        ));
    } else {
        lemma_clean_stack_skip_empty_head(st.drop_last(), abs);
        assert((e + st).drop_last() =~= e + st.drop_last());
        assert((e + st).last() == st.last());
        assert(clean_stack(e + st, abs) == clean_step(
            clean_stack((e + st).drop_last(), abs),
            (e + st).last(),
            abs,
        ));
    }
}

proof fn lemma_join_head(st: Seq<Seq<char>>)
    requires
        st.len() >= 1,
        st[0].len() > 0,
    ensures
        join_with(st, '/').len() > 0,
        join_with(st, '/')[0] == st[0][0],
    decreases st.len(),
{
    if st.len() > 1 {
        lemma_join_head(st.drop_last());
    }
}

proof fn lemma_join_empty_head(st: Seq<Seq<char>>)
    requires
        st.len() >= 1,
    ensures
        join_with(seq![Seq::<char>::empty()] + st, '/') == seq!['/'] + join_with(st, '/'),
    decreases st.len(),
{
    let e = seq![Seq::<char>::empty()];
    if st.len() == 1 {
        assert((e + st).drop_last() =~= e);
        assert(join_with(e, '/') == Seq::<char>::empty());
        assert(Seq::<char>::empty() + seq!['/'] + st[0] =~= seq!['/'] + st[0]);
    } else {
        lemma_join_empty_head(st.drop_last());
        assert((e + st).drop_last() =~= e + st.drop_last());
        assert((e + st).last() == st.last());
        assert(seq!['/'] + join_with(st.drop_last(), '/') + seq!['/'] + st.last() =~= seq!['/']
            + (join_with(st.drop_last(), '/') + seq!['/'] + st.last()));
    }
}

proof fn lemma_join_nonempty(st: Seq<Seq<char>>)
    requires
        st.len() >= 1,
        forall|i: int| 0 <= i < st.len() ==> (#[trigger] st[i]).len() > 0,
    ensures
        join_with(st, '/').len() > 0,
    decreases st.len(),
{
    if st.len() > 1 {
        lemma_join_nonempty(st.drop_last());
    }
}

proof fn lemma_cleaned_dot()
    ensures
        cleaned(seq!['.']) == seq!['.'],
{
    let d = seq!['.'];
    assert(d.drop_last() =~= Seq::<char>::empty());
    assert(split_on(Seq::<char>::empty(), '/') =~= seq![Seq::<char>::empty()]);
    assert(split_on(d, '/') =~= seq![d]);
    assert(seq![d].drop_last() =~= Seq::<Seq<char>>::empty());
    assert(seq![d].last() == d);
    assert(clean_stack(seq![d], false) == clean_step(
        clean_stack(seq![d].drop_last(), false),
        d,
        false,
    ));
    assert(clean_stack(seq![d], false) =~= Seq::<Seq<char>>::empty());
}

/// A cleaned path written from its kept names: the root and the names joined
/// by `/` for an absolute path; the names joined by `/`, or `.` when there are
/// none, for a relative one.
pub open spec fn clean_form(st: Seq<Seq<char>>, abs: bool) -> Seq<char> {
    if abs {
        seq!['/'] + join_with(st, '/')
    } else if st.len() == 0 {
        seq!['.']
    } else {
        join_with(st, '/')
    }
}

/// Cleaning gives a path of canonical shape, absolute exactly when the input
/// is: its names are non-empty, hold no separator and are never `.`; an
/// absolute path holds no `..`, and in a relative one `..` comes only as a
/// leading run.
pub proof fn clean_gives_canonical_shape(p: Seq<char>)
    ensures
        exists|st: Seq<Seq<char>>|
            canonical(st, is_absolute(p)) && cleaned(p) == #[trigger] clean_form(st, is_absolute(p)),
{
    if p.len() == 0 {
        let st = Seq::<Seq<char>>::empty();
        assert(canonical(st, is_absolute(p)) && cleaned(p) == clean_form(st, is_absolute(p)));
    } else {
        let abs = p[0] == '/';
        lemma_split_on_no_sep(p);
        lemma_clean_stack_canonical(split_on(p, '/'), abs);
        let st = clean_stack(split_on(p, '/'), abs);
        assert(abs == is_absolute(p));
        assert(canonical(st, is_absolute(p)) && cleaned(p) == clean_form(st, is_absolute(p)));
    }
}

/// Cleaning is idempotent: a cleaned path is already clean.
pub proof fn clean_is_idempotent(p: Seq<char>)
    ensures
        cleaned(cleaned(p)) == cleaned(p),
{
    lemma_cleaned_dot();
    if p.len() > 0 {
        let abs = p[0] == '/';
        let segs = split_on(p, '/');
        lemma_split_on_no_sep(p);
        lemma_clean_stack_canonical(segs, abs);
        let st = clean_stack(segs, abs);
        let j = join_with(st, '/');
        if st.len() > 0 {
            lemma_join_nonempty(st);
            lemma_split_join(st);
            lemma_clean_stack_fixed(st, abs);
        }
        if abs {
            let r = seq!['/'] + j;
            if st.len() == 0 {
                let sl = seq!['/'];
                assert(sl.drop_last() =~= Seq::<char>::empty());
                assert(split_on(Seq::<char>::empty(), '/') =~= seq![Seq::<char>::empty()]);
                assert(split_on(sl, '/') =~= seq![Seq::<char>::empty(), Seq::<char>::empty()]);
                assert(r =~= sl);
                reveal_with_fuel(clean_stack, 3);
                assert(clean_stack(seq![Seq::<char>::empty(), Seq::<char>::empty()], true)
                    =~= Seq::<Seq<char>>::empty());
            } else {
                let e = seq![Seq::<char>::empty()];
                lemma_join_empty_head(st);
                assert forall|i: int| 0 <= i < (e + st).len() implies no_sep(#[trigger] (e
                    + st)[i]) by {
                    if i > 0 {
                        assert((e + st)[i] == st[i - 1]);
                    }
                }
                lemma_split_join(e + st);
                lemma_clean_stack_skip_empty_head(st, true);
            }
        } else if j.len() > 0 {
            lemma_join_head(st);
            assert(no_sep(st[0]));
        }
    }
}

} // verus!
