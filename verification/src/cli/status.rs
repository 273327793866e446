//! `dfm status` — what the state file says about the last apply.
//!
//! Loading the state and reading the clock are the caller's part.

use vstd::prelude::*;

use crate::engine::path::string_views;
use crate::iostreams::style::{painted, Tone};
use crate::iostreams::{pair_line, IoStreams, IoStreamsView};
use crate::text::{chars_of, decimal, decimal_string, push_str, string_of};

verus! {

/// A coarse age: `just now` under a minute, then whole minutes, hours or
/// days (a negative age counts as zero).
pub open spec fn age_text(secs: int) -> Seq<char> {
    let s = if secs < 0 {
        0
    } else {
        secs
    };
    if s < 60 {
        "just now"@
    } else if s < 3600 {
        decimal((s / 60) as nat) + "m"@
    } else if s < 86400 {
        decimal((s / 3600) as nat) + "h"@
    } else {
        decimal((s / 86400) as nat) + "d"@
    }
}

/// A coarse human-readable age like "3h" or "2d" for `secs` seconds.
pub fn human_since(secs: i64) -> (r: String)
    ensures
        r@ == age_text(secs as int),
{
    let s: u64 = if secs < 0 {
        0
    } else {
        secs as u64
    };
    if s < 60 {
        let v = chars_of("just now");
        return string_of(v.as_slice());
    }
    let (n, unit): (u64, &str) = if s < 3600 {
        (s / 60, "m")
    } else if s < 86400 {
        (s / 3600, "h")
    } else {
        (s / 86400, "d")
    };
    let mut v = crate::text::decimal_chars(n);
    push_str(&mut v, unit);
    string_of(v.as_slice())
}

/// The words joined by single spaces.
pub open spec fn spaced(words: Seq<Seq<char>>) -> Seq<char>
    decreases words.len(),
{
    if words.len() == 0 {
        Seq::empty()
    } else if words.len() == 1 {
        words[0]
    } else {
        spaced(words.drop_last()) + " "@ + words.last()
    }
}

/// The words joined by single spaces.
pub fn join_spaced(words: &[String]) -> (r: String)
    ensures
        r@ == spaced(string_views(words@)),
{
    let ghost ws = string_views(words@);
    let mut v: Vec<char> = Vec::new();
    let mut i: usize = 0;
    assert(ws.take(0) =~= Seq::<Seq<char>>::empty());
    while i < words.len()
        invariant
            i <= words@.len(),
            ws == string_views(words@),
            v@ == spaced(ws.take(i as int)),
        decreases words.len() - i,
    {
        let ghost before = v@;
        if i > 0 {
            v.push(' ');
        }
        push_str(&mut v, words[i].as_str());
        proof {
            reveal_strlit(" ");
            let t = ws.take(i + 1);
            assert(t.drop_last() =~= ws.take(i as int));
            assert(t.last() == words@[i as int]@);
            if i == 0 {
                assert(ws.take(0) =~= Seq::<Seq<char>>::empty());
                assert(v@ =~= spaced(t));
            } else {
                assert(v@ =~= spaced(t));
            }
        }
        i = i + 1;
    }
    assert(ws.take(words@.len() as int) =~= ws);
    string_of(v.as_slice())
}

/// What `dfm status` prints for a state file at `state_path` that records
/// the profiles `last_applied`, applied at `applied_at` (already rendered)
/// `since` ago, with `links` links.
pub fn print_status(
    io: &mut IoStreams,
    state_path: &str,
    last_applied: &[String],
    applied_at: &str,
    since: &str,
    links: usize,
)
    ensures
        ({
            let on = old(io)@.out_color;
            final(io)@ == (IoStreamsView {
                out: old(io)@.out + pair_line(Tone::Bold, "State file:  "@, Tone::Dim, state_path@, on)
                    + pair_line(Tone::Bold, "Last applied:"@, Tone::Dim, spaced(string_views(last_applied@)), on)
                    + painted(Tone::Bold, "Applied at:  "@, on) + " "@ + painted(Tone::Dim, applied_at@, on)
                    + " "@ + painted(Tone::White, "("@ + since@ + " ago)"@, on) + "\n"@ + pair_line(
                    Tone::Bold,
                    "Links:       "@,
                    Tone::Dim,
                    decimal(links as nat),
                    on,
                ),
                ..old(io)@
            })
        }),
{
    io.status_line("State file:  ", state_path);
    let joined = join_spaced(last_applied);
    io.status_line("Last applied:", joined.as_str());
    let mut meta = chars_of("(");
    push_str(&mut meta, since);
    push_str(&mut meta, " ago)");
    let meta = string_of(meta.as_slice());
    io.status_line_with_meta("Applied at:  ", applied_at, meta.as_str());
    let count = decimal_string(links as u64);
    io.status_line("Links:       ", count.as_str());
    let ghost on = old(io)@.out_color;
    assert(io@.out =~= old(io)@.out + pair_line(Tone::Bold, "State file:  "@, Tone::Dim, state_path@, on)
        + pair_line(Tone::Bold, "Last applied:"@, Tone::Dim, spaced(string_views(last_applied@)), on)
        + painted(Tone::Bold, "Applied at:  "@, on) + " "@ + painted(Tone::Dim, applied_at@, on)
        + " "@ + painted(Tone::White, "("@ + since@ + " ago)"@, on) + "\n"@ + pair_line(
        Tone::Bold,
        "Links:       "@,
        Tone::Dim,
        decimal(links as nat),
        on,
    ));
}

} // verus!
