//! `dfm doctor` — whether the links the last apply left still hold.
//!
//! Loading the state and reading each link are the caller's part; judging
//! what was read, and reporting it, happen here.

use vstd::prelude::*;

use crate::engine::options::{bump, bumped};
use crate::engine::path::string_views;
use crate::iostreams::style::{painted, Tone};
use crate::iostreams::{doctor_line, IoStreams, IoStreamsView};
use crate::state::schema::Link;
use crate::text::{chars_of, decimal, push_str, str_eq, string_of};

verus! {

/// What reading a remembered link gave.
#[derive(Debug, Clone, PartialEq, Eq)]
pub enum LinkRead {
    /// It is a symlink holding this text.
    Points(String),
    /// Nothing is there.
    Missing,
    /// It could not be read as a symlink; the reason is given.
    Unreadable(String),
}

/// The problem a link has, if any: drifted to another destination, missing,
/// or not a symlink.
pub open spec fn problem_of(target: Seq<char>, source: Seq<char>, read: LinkRead) -> Option<Seq<char>> {
    match read {
        LinkRead::Points(dest) => if dest@ == source {
            None
        } else {
            Some("drifted: "@ + target + " \u{2192} "@ + dest@ + " (want "@ + source + ")"@)
        },
        LinkRead::Missing => Some("missing: "@ + target),
        LinkRead::Unreadable(why) => Some("not a symlink: "@ + target + " ("@ + why@ + ")"@),
    }
}

/// The problem a remembered link has, if any.
pub fn link_problem(l: &Link, read: &LinkRead) -> (r: Option<String>)
    ensures
        match problem_of(l.target@, l.source@, *read) {
            Some(p) => r matches Some(q) && q@ == p,
            None => r is None,
        },
{
    match read {
        LinkRead::Points(dest) => if str_eq(dest.as_str(), l.source.as_str()) {
            None
        } else {
            let mut v = chars_of("drifted: ");
            push_str(&mut v, l.target.as_str());
            push_str(&mut v, " \u{2192} ");
            push_str(&mut v, dest.as_str());
            push_str(&mut v, " (want ");
            push_str(&mut v, l.source.as_str());
            push_str(&mut v, ")");
            Some(string_of(v.as_slice()))
        },
        LinkRead::Missing => {
            let mut v = chars_of("missing: ");
            push_str(&mut v, l.target.as_str());
            Some(string_of(v.as_slice()))
        },
        LinkRead::Unreadable(why) => {
            let mut v = chars_of("not a symlink: ");
            push_str(&mut v, l.target.as_str());
            push_str(&mut v, " (");
            push_str(&mut v, why.as_str());
            push_str(&mut v, ")");
            Some(string_of(v.as_slice()))
        },
    }
}

/// The outcome of checking the remembered links.
#[derive(Debug, Clone, PartialEq, Eq)]
pub struct DoctorReport {
    /// Links that still hold (saturating).
    pub ok: u32,
    /// One line per link with a problem, in order.
    pub problems: Vec<String>,
}

/// The problems of the first `n` links, in order.
pub open spec fn problems_of(links: Seq<Link>, reads: Seq<LinkRead>, n: nat) -> Seq<Seq<char>>
    decreases n,
{
    if n == 0 {
        Seq::empty()
    } else {
        match problem_of(links[n - 1].target@, links[n - 1].source@, reads[n - 1]) {
            Some(p) => problems_of(links, reads, (n - 1) as nat).push(p),
            None => problems_of(links, reads, (n - 1) as nat),
        }
    }
}

/// How many of the first `n` links hold, saturating at `u32::MAX`.
pub open spec fn holding(links: Seq<Link>, reads: Seq<LinkRead>, n: nat) -> u32
    decreases n,
{
    if n == 0 {
        0
    } else {
        match problem_of(links[n - 1].target@, links[n - 1].source@, reads[n - 1]) {
            Some(_) => holding(links, reads, (n - 1) as nat),
            None => bumped(holding(links, reads, (n - 1) as nat)),
        }
    }
}

/// Judge each remembered link by what reading it gave (`reads[i]` for
/// `links[i]`).
pub fn check_links(links: &[Link], reads: &[LinkRead]) -> (r: DoctorReport)
    requires
        reads@.len() == links@.len(),
    ensures
        r.ok == holding(links@, reads@, links@.len()),
        string_views(r.problems@) == problems_of(links@, reads@, links@.len()),
        links@.len() <= u32::MAX ==> r.ok == pointing_home(links@, reads@, links@.len()),
        links@.len() <= u32::MAX ==> r.ok + r.problems@.len() == links@.len(),
{
    let mut ok: u32 = 0;
    let mut problems: Vec<String> = Vec::new();
    let mut i: usize = 0;
    assert(string_views(problems@) =~= Seq::<Seq<char>>::empty());
    while i < links.len()
        invariant
            i <= links@.len(),
            reads@.len() == links@.len(),
            ok == holding(links@, reads@, i as nat),
            string_views(problems@) == problems_of(links@, reads@, i as nat),
        decreases links.len() - i,
    {
        match link_problem(&links[i], &reads[i]) {
            Some(p) => {
                let ghost before = problems@;
                problems.push(p);
                assert(string_views(problems@) =~= string_views(before).push(p@));
            },
            None => {
                ok = bump(ok);
            },
        }
        i = i + 1;
    }
    proof {
        if links@.len() <= u32::MAX {
            each_link_holds_or_is_a_problem(links@, reads@, links@.len());
        }
    }
    DoctorReport { ok, problems }
}

/// How many of the first `n` links were read pointing at their own source.
pub open spec fn pointing_home(links: Seq<Link>, reads: Seq<LinkRead>, n: nat) -> nat
    decreases n,
{
    if n == 0 {
        0
    } else {
        pointing_home(links, reads, (n - 1) as nat) + match reads[n - 1] {
            LinkRead::Points(d) => if d@ == links[n - 1].source@ {
                1nat
            } else {
                0nat
            },
            _ => 0nat,
        }
    }
}

/// Every checked link is either counted as holding or reported as a problem,
/// never both: up to the counter's limit, the holding count and the problem
/// lines add up to the number of links, and the holding count is exactly the
/// number of links read pointing at their own source.
pub proof fn each_link_holds_or_is_a_problem(links: Seq<Link>, reads: Seq<LinkRead>, n: nat)
    requires
        n <= links.len(),
        n <= reads.len(),
        n <= u32::MAX,
    ensures
        holding(links, reads, n) == pointing_home(links, reads, n),
        holding(links, reads, n) + problems_of(links, reads, n).len() == n,
    decreases n,
{
    if n > 0 {
        let m = (n - 1) as nat;
        each_link_holds_or_is_a_problem(links, reads, m);
        match reads[m as int] {
            LinkRead::Points(d) => {
                if d@ == links[m as int].source@ {
                } else {
                }
            },
            _ => {},
        }
    }
}

/// The failure `dfm doctor` ends with when links need attention.
pub open spec fn attention_text(n: nat) -> Seq<char> {
    decimal(n) + " link(s) need attention"@
}

/// Print the doctor summary (the problem count saturating at `u32::MAX`)
/// and one line per problem, then succeed only when there is no problem.
pub fn report_doctor(io: &mut IoStreams, report: &DoctorReport) -> (r: Result<(), String>)
    ensures
        ({
            let n = report.problems@.len();
            let shown: u32 = if n > u32::MAX {
                u32::MAX
            } else {
                n as u32
            };
            &&& final(io)@ == (IoStreamsView {
                err: old(io)@.err + doctor_line(report.ok, shown, old(io)@.err_color) + problem_lines(
                    string_views(report.problems@),
                    old(io)@.err_color,
                ),
                ..old(io)@
            })
            &&& if n == 0 {
                r is Ok
            } else {
                r matches Err(m) && m@ == attention_text(n)
            }
        }),
{
    let n: usize = report.problems.len();
    let shown: u32 = if n > u32::MAX as usize {
        u32::MAX
    } else {
        n as u32
    };
    io.doctor_done(report.ok, shown);
    let ghost on = old(io)@.err_color;
    let ghost mid = io@.err;
    let ghost ps = string_views(report.problems@);
    let mut i: usize = 0;
    assert(ps.take(0) =~= Seq::<Seq<char>>::empty());
    while i < report.problems.len()
        invariant
            i <= report.problems@.len(),
            ps == string_views(report.problems@),
            on == old(io)@.err_color,
            io@ == (IoStreamsView { err: mid + problem_lines(ps.take(i as int), on), ..old(io)@ }),
        decreases report.problems.len() - i,
    {
        io.doctor_item(report.problems[i].as_str());
        proof {
            let t = ps.take(i + 1);
            assert(t.drop_last() =~= ps.take(i as int));
            assert(t.last() == report.problems@[i as int]@);
            assert(io@.err =~= mid + problem_lines(t, on));
        }
        i = i + 1;
    }
    assert(ps.take(ps.len() as int) =~= ps);
    if n == 0 {
        Ok(())
    } else {
        let mut v = crate::text::decimal_chars(n as u64);
        push_str(&mut v, " link(s) need attention");
        Err(string_of(v.as_slice()))
    }
}

/// One indented dim line per problem.
pub open spec fn problem_lines(ps: Seq<Seq<char>>, on: bool) -> Seq<char>
    decreases ps.len(),
{
    if ps.len() == 0 {
        Seq::empty()
    } else {
        problem_lines(ps.drop_last(), on) + "  "@ + painted(Tone::Dim, ps.last(), on) + "\n"@
    }
}

} // verus!
