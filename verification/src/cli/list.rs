//! `dfm list` — the profile names found under `<base>/profiles/`.
//!
//! Reading the directory is the caller's part; the names are computed here:
//! each non-directory entry named `<name>.conf.yaml` gives `<name>`, and the
//! names come out sorted.

use vstd::prelude::*;

use crate::engine::path::string_views;
use crate::text::{chars_of, slice_chars, string_of};

verus! {

/// One entry of the profiles directory.
#[derive(Debug, Clone, PartialEq, Eq)]
pub struct ListedEntry {
    /// The file name.
    pub name: String,
    /// Whether it is a directory.
    pub is_dir: bool,
}

/// The suffix of a profile file.
pub open spec fn profile_suffix() -> Seq<char> {
    ".conf.yaml"@
}

/// The profile name of a file name ending in `.conf.yaml`.
pub open spec fn stem_of(name: Seq<char>) -> Option<Seq<char>> {
    let n = profile_suffix().len();
    if name.len() >= n && name.subrange(name.len() - n, name.len() as int) == profile_suffix() {
        Some(name.subrange(0, name.len() - n))
    } else {
        None
    }
}

/// The profile names the entries give, in directory order.
pub open spec fn stems(entries: Seq<ListedEntry>) -> Seq<Seq<char>>
    decreases entries.len(),
{
    if entries.len() == 0 {
        Seq::empty()
    } else {
        let e = entries.last();
        match stem_of(e.name@) {
            Some(s) if !e.is_dir => stems(entries.drop_last()).push(s),
            _ => stems(entries.drop_last()),
        }
    }
}

/// Strict lexicographic order on texts, character by character (the order of
/// `str`'s `<`: UTF-8 byte order is code point order).
pub open spec fn text_lt(a: Seq<char>, b: Seq<char>) -> bool
    decreases a.len(),
{
    if a.len() == 0 {
        b.len() > 0
    } else if b.len() == 0 {
        false
    } else if a[0] != b[0] {
        a[0] < b[0]
    } else {
        text_lt(a.drop_first(), b.drop_first())
    }
}

/// Whether `s` is in ascending order.
pub open spec fn ascending(s: Seq<Seq<char>>) -> bool {
    forall|i: int, j: int| 0 <= i < j < s.len() ==> !text_lt(#[trigger] s[j], #[trigger] s[i])
}

proof fn lemma_text_lt_trans(a: Seq<char>, b: Seq<char>, c: Seq<char>)
    requires
        text_lt(a, b),
        text_lt(b, c),
    ensures
        text_lt(a, c),
    decreases a.len(),
{
    if a.len() > 0 && b.len() > 0 && c.len() > 0 && a[0] == b[0] && b[0] == c[0] {
        lemma_text_lt_trans(a.drop_first(), b.drop_first(), c.drop_first());
    }
}

proof fn lemma_text_lt_total(a: Seq<char>, b: Seq<char>)
    ensures
        text_lt(a, b) || text_lt(b, a) || a == b,
    decreases a.len(),
{
    if a.len() > 0 && b.len() > 0 && a[0] == b[0] {
        lemma_text_lt_total(a.drop_first(), b.drop_first());
        if a.drop_first() == b.drop_first() {
            assert(a =~= seq![a[0]] + a.drop_first());
            assert(b =~= seq![b[0]] + b.drop_first());
        }
    } else if a.len() == 0 && b.len() == 0 {
        assert(a =~= b);
    }
}

proof fn lemma_text_lt_irreflexive(a: Seq<char>)
    ensures
        !text_lt(a, a),
    decreases a.len(),
{
    if a.len() > 0 {
        lemma_text_lt_irreflexive(a.drop_first());
    }
}

fn text_less(a: &[char], b: &[char]) -> (r: bool)
    ensures
        r == text_lt(a@, b@),
{
    let mut i: usize = 0;
    assert(a@.skip(0) =~= a@);
    assert(b@.skip(0) =~= b@);
    while i < a.len() && i < b.len() && a[i] == b[i]
        invariant
            i <= a@.len(),
            i <= b@.len(),
            text_lt(a@.skip(i as int), b@.skip(i as int)) == text_lt(a@, b@),
        decreases a.len() - i,
    {
        assert(a@.skip(i as int).drop_first() =~= a@.skip(i + 1));
        assert(b@.skip(i as int).drop_first() =~= b@.skip(i + 1));
        i = i + 1;
    }
    if i == a.len() {
        i < b.len()
    } else if i == b.len() {
        false
    } else {
        a[i] < b[i]
    }
}

/// Insert `x` into the ascending `v`, after every element not greater than
/// it.
fn insert_sorted(v: &mut Vec<String>, x: String)
    requires
        ascending(string_views(old(v)@)),
    ensures
        ascending(string_views(final(v)@)),
        string_views(final(v)@).to_multiset() == string_views(old(v)@).to_multiset().insert(x@),
{
    let xs = chars_of(x.as_str());
    let mut p: usize = 0;
    let ghost sv = string_views(v@);
    while p < v.len()
        invariant
            p <= v@.len(),
            sv == string_views(v@),
            xs@ == x@,
            forall|k: int| 0 <= k < p ==> !text_lt(x@, #[trigger] sv[k]),
        ensures
            p <= v@.len(),
            sv == string_views(v@),
            forall|k: int| 0 <= k < p ==> !text_lt(x@, #[trigger] sv[k]),
            p < v@.len() ==> text_lt(x@, sv[p as int]),
        decreases v.len() - p,
    {
        let cur = chars_of(v[p].as_str());
        assert(sv[p as int] == v@[p as int]@);
        if text_less(xs.as_slice(), cur.as_slice()) {
            break;
        }
        p = p + 1;
    }
    let ghost before = v@;
    v.insert(p, x);
    proof {
        let nv = string_views(v@);
        assert(nv =~= sv.insert(p as int, x@));
        vstd::seq_lib::to_multiset_insert(sv, p as int, x@);
        assert forall|i: int, j: int| 0 <= i < j < nv.len() implies !text_lt(#[trigger] nv[j], #[trigger] nv[i]) by {
            if j < p {
                assert(nv[i] == sv[i] && nv[j] == sv[j]);
            } else if j == p {
                assert(nv[i] == sv[i]);
                assert(!text_lt(x@, sv[i]));
            } else if i > p {
                assert(nv[i] == sv[i - 1] && nv[j] == sv[j - 1]);
            } else if i == p {
                // x before sv[j - 1], where x < sv[p] <= sv[j - 1]
                assert(nv[j] == sv[j - 1]);
                if text_lt(sv[j - 1], x@) {
                    assert(p < sv.len());
                    assert(text_lt(x@, sv[p as int]));
                    lemma_text_lt_trans(sv[j - 1], x@, sv[p as int]);
                    if j - 1 > p {
                        assert(!text_lt(sv[j - 1], sv[p as int]));
                    } else {
                        lemma_text_lt_irreflexive(sv[p as int]);
                    }
                }
            } else {
                assert(nv[i] == sv[i] && nv[j] == sv[j - 1]);
            }
        }
    }
}

/// The profile names: each non-directory entry named `<name>.conf.yaml`
/// gives `<name>`; the names come out in ascending order.
pub fn profile_names(entries: &[ListedEntry]) -> (r: Vec<String>)
    ensures
        ascending(string_views(r@)),
        string_views(r@).to_multiset() == stems(entries@).to_multiset(),
{
    let mut out: Vec<String> = Vec::new();
    let mut i: usize = 0;
    proof {
        assert(string_views(out@) =~= Seq::<Seq<char>>::empty());
        assert(entries@.take(0) =~= Seq::<ListedEntry>::empty());
    }
    while i < entries.len()
        invariant
            i <= entries@.len(),
            ascending(string_views(out@)),
            string_views(out@).to_multiset() == stems(entries@.take(i as int)).to_multiset(),
        decreases entries.len() - i,
    {
        let ghost t = entries@.take(i + 1);
        proof {
            assert(t.drop_last() =~= entries@.take(i as int));
            assert(t.last() == entries@[i as int]);
        }
        let e = &entries[i];
        let name = chars_of(e.name.as_str());
        let n: usize = name.len();
        let suffix = chars_of(".conf.yaml");
        let mut stem: Option<String> = None;
        if n >= suffix.len() {
            let tail = slice_chars(name.as_slice(), n - suffix.len(), n);
            if crate::text::chars_eq(tail.as_slice(), suffix.as_slice()) {
                let head = slice_chars(name.as_slice(), 0, n - suffix.len());
                stem = Some(string_of(head.as_slice()));
            }
        }
        proof {
            reveal_strlit(".conf.yaml");
            assert(suffix@ == profile_suffix());
        }
        match stem {
            Some(s) if !e.is_dir => {
                let ghost sv = s@;
                assert(stem_of(e.name@) == Some(sv));
                insert_sorted(&mut out, s);
                proof {
                    vstd::seq_lib::to_multiset_build(stems(entries@.take(i as int)), sv);
                }
            },
            _ => {
                assert(stems(t) == stems(entries@.take(i as int)));
            },
        }
        i = i + 1;
    }
    assert(entries@.take(entries@.len() as int) =~= entries@);
    out
}

} // verus!
