//! `dfm diff` — show the planned filesystem changes without writing.
//!
//! The plan is a dry run's recorded actions, grouped by kind in a fixed order
//! and printed to the data stream.

use vstd::prelude::*;

use crate::engine::action::{Action, ActionKind, ActionView};
use crate::engine::runner::recorded;
use crate::iostreams::style::{painted, Tone};
use crate::iostreams::{IoStreams, IoStreamsView};
use crate::text::{chars_of, decimal, push_str, string_of};

verus! {

/// Arguments for `dfm diff`.
#[derive(Debug, Clone, PartialEq, Eq)]
pub struct DiffArgs {
    /// Profile name(s) to diff.
    pub profiles: Vec<String>,
}

/// The order in which groups are printed.
pub open spec fn diff_order() -> Seq<ActionKind> {
    seq![
        ActionKind::LinkCreate,
        ActionKind::LinkRelink,
        ActionKind::LinkBackup,
        ActionKind::LinkSkip,
        ActionKind::LinkExists,
        ActionKind::CreateDir,
        ActionKind::CreateExists,
        ActionKind::CleanRemove,
        ActionKind::ShellRun,
    ]
}

/// The header of each group.
pub open spec fn header_text(kind: ActionKind) -> Seq<char> {
    match kind {
        ActionKind::LinkCreate => "+ Links to create"@,
        ActionKind::LinkRelink => "~ Links to relink"@,
        ActionKind::LinkBackup => "! Non-symlink targets to back up"@,
        ActionKind::LinkSkip => "? Links blocked by conflict (need relink/force)"@,
        ActionKind::LinkExists => "= Links already correct"@,
        ActionKind::CreateDir => "+ Directories to create"@,
        ActionKind::CreateExists => "= Directories already present"@,
        ActionKind::CleanRemove => "- Dead links to remove"@,
        ActionKind::ShellRun => "$ Shell commands to run"@,
    }
}

/// The header of a group.
pub fn header_for(kind: ActionKind) -> (r: &'static str)
    ensures
        r@ == header_text(kind),
{
    match kind {
        ActionKind::LinkCreate => "+ Links to create",
        ActionKind::LinkRelink => "~ Links to relink",
        ActionKind::LinkBackup => "! Non-symlink targets to back up",
        ActionKind::LinkSkip => "? Links blocked by conflict (need relink/force)",
        ActionKind::LinkExists => "= Links already correct",
        ActionKind::CreateDir => "+ Directories to create",
        ActionKind::CreateExists => "= Directories already present",
        ActionKind::CleanRemove => "- Dead links to remove",
        ActionKind::ShellRun => "$ Shell commands to run",
    }
}

/// How one action reads in the diff: a shell command as `name  [script]`, a
/// directory as its path, anything else as `from -> to` (just `from` when
/// there is no `to`).
pub open spec fn action_text(a: ActionView) -> Seq<char> {
    match a.kind {
        ActionKind::ShellRun => if a.to.len() == 0 {
            a.from
        } else {
            a.to + "  ["@ + a.from + "]"@
        },
        ActionKind::CreateDir | ActionKind::CreateExists => a.from,
        _ => if a.to.len() == 0 {
            a.from
        } else {
            a.from + " -> "@ + a.to
        },
    }
}

/// How one action reads in the diff.
pub fn format_action(a: &Action) -> (r: String)
    ensures
        r@ == action_text(a@),
{
    let v = match a.kind {
        ActionKind::ShellRun => if a.to.as_str().is_empty() {
            chars_of(a.from.as_str())
        } else {
            let mut v = chars_of(a.to.as_str());
            push_str(&mut v, "  [");
            push_str(&mut v, a.from.as_str());
            push_str(&mut v, "]");
            v
        },
        ActionKind::CreateDir | ActionKind::CreateExists => chars_of(a.from.as_str()),
        _ => if a.to.as_str().is_empty() {
            chars_of(a.from.as_str())
        } else {
            let mut v = chars_of(a.from.as_str());
            push_str(&mut v, " -> ");
            push_str(&mut v, a.to.as_str());
            v
        },
    };
    string_of(v.as_slice())
}

/// The actions of one kind, in recorded order.
pub open spec fn of_kind(acts: Seq<ActionView>, kind: ActionKind) -> Seq<ActionView>
    decreases acts.len(),
{
    if acts.len() == 0 {
        Seq::empty()
    } else if acts.last().kind == kind {
        of_kind(acts.drop_last(), kind).push(acts.last())
    } else {
        of_kind(acts.drop_last(), kind)
    }
}

/// One indented line per action.
pub open spec fn action_lines(acts: Seq<ActionView>, on: bool) -> Seq<char>
    decreases acts.len(),
{
    if acts.len() == 0 {
        Seq::empty()
    } else {
        action_lines(acts.drop_last(), on) + "  "@ + painted(Tone::White, action_text(acts.last()), on)
            + "\n"@
    }
}

/// A group: its header with the count, then its lines; nothing when empty.
pub open spec fn section_text(acts: Seq<ActionView>, kind: ActionKind, on: bool) -> Seq<char> {
    let g = of_kind(acts, kind);
    if g.len() == 0 {
        Seq::empty()
    } else {
        painted(Tone::BoldWhite, header_text(kind), on) + " "@ + painted(
            Tone::Dim,
            "("@ + decimal(g.len()) + ")"@,
            on,
        ) + "\n"@ + action_lines(g, on)
    }
}

/// The groups of the first `n` kinds of the order.
pub open spec fn sections(acts: Seq<ActionView>, n: nat, on: bool) -> Seq<char>
    decreases n,
{
    if n == 0 {
        Seq::empty()
    } else {
        sections(acts, (n - 1) as nat, on) + section_text(acts, diff_order()[n - 1], on)
    }
}

/// The whole diff: every non-empty group in order, or `No changes`.
pub open spec fn diff_text(acts: Seq<ActionView>, on: bool) -> Seq<char> {
    if acts.len() == 0 {
        painted(Tone::Dim, "No changes"@, on) + "\n"@
    } else {
        sections(acts, 9, on)
    }
}

proof fn lemma_of_kind_len(acts: Seq<ActionView>, kind: ActionKind)
    ensures
        of_kind(acts, kind).len() <= acts.len(),
    decreases acts.len(),
{
    if acts.len() > 0 {
        lemma_of_kind_len(acts.drop_last(), kind);
    }
}

/// Every action falls in one of the groups, so some group is non-empty when
/// there are actions.
proof fn lemma_some_group(acts: Seq<ActionView>)
    requires
        acts.len() > 0,
    ensures
        exists|i: int| 0 <= i < 9 && #[trigger] of_kind(acts, diff_order()[i]).len() > 0,
{
    let k = acts.last().kind;
    let i: int = match k {
        ActionKind::LinkCreate => 0,
        ActionKind::LinkRelink => 1,
        ActionKind::LinkBackup => 2,
        ActionKind::LinkSkip => 3,
        ActionKind::LinkExists => 4,
        ActionKind::CreateDir => 5,
        ActionKind::CreateExists => 6,
        ActionKind::CleanRemove => 7,
        ActionKind::ShellRun => 8,
    };
    assert(diff_order()[i] == k);
    assert(of_kind(acts, diff_order()[i]).len() > 0);
}

fn kind_at(i: usize) -> (k: ActionKind)
    requires
        i < 9,
    ensures
        k == diff_order()[i as int],
{
    match i {
        0 => ActionKind::LinkCreate,
        1 => ActionKind::LinkRelink,
        2 => ActionKind::LinkBackup,
        3 => ActionKind::LinkSkip,
        4 => ActionKind::LinkExists,
        5 => ActionKind::CreateDir,
        6 => ActionKind::CreateExists,
        7 => ActionKind::CleanRemove,
        _ => ActionKind::ShellRun,
    }
}

fn same_kind(a: ActionKind, b: ActionKind) -> (r: bool)
    ensures
        r == (a == b),
{
    a == b
}

/// `idx` lists, in order, the positions in `acts` of the actions in `g`.
pub open spec fn indexes(idx: Seq<usize>, acts: Seq<ActionView>, g: Seq<ActionView>) -> bool {
    &&& idx.len() == g.len()
    &&& forall|j: int|
        #![trigger idx[j]]
        0 <= j < idx.len() ==> idx[j] < acts.len() && acts[idx[j] as int] == g[j]
}

/// The indices of the actions of one kind, in order.
fn group_of(actions: &[Action], kind: ActionKind) -> (r: Vec<usize>)
    ensures
        indexes(r@, recorded(actions@), of_kind(recorded(actions@), kind)),
{
    let ghost acts = recorded(actions@);
    let mut out: Vec<usize> = Vec::new();
    let mut i: usize = 0;
    while i < actions.len()
        invariant
            i <= actions@.len(),
            acts == recorded(actions@),
            indexes(out@, acts, of_kind(acts.take(i as int), kind)),
        decreases actions.len() - i,
    {
        let ghost t = acts.take(i + 1);
        let ghost prev = of_kind(acts.take(i as int), kind);
        assert(t.drop_last() =~= acts.take(i as int));
        assert(t.last() == acts[i as int]);
        assert(acts[i as int] == actions@[i as int]@);
        if same_kind(actions[i].kind, kind) {
            let ghost before = out@;
            out.push(i);
            assert(of_kind(t, kind) == prev.push(acts[i as int]));
            assert forall|j: int| 0 <= j < out@.len() implies #[trigger] out@[j] < acts.len() && acts[out@[j] as int]
                == of_kind(t, kind)[j] by {
                if j < before.len() {
                    assert(out@[j] == before[j]);
                }
            }
        } else {
            assert(of_kind(t, kind) == prev);
        }
        i = i + 1;
    }
    assert(acts.take(actions@.len() as int) =~= acts);
    out
}

/// Print one group: its header and lines, or nothing when it is empty.
/// Returns whether it was non-empty.
fn print_group(io: &mut IoStreams, actions: &[Action], kind: ActionKind) -> (r: bool)
    ensures
        r == (of_kind(recorded(actions@), kind).len() > 0),
        final(io)@ == (IoStreamsView {
            out: old(io)@.out + section_text(recorded(actions@), kind, old(io)@.out_color),
            ..old(io)@
        }),
{
    let ghost acts = recorded(actions@);
    let ghost on = io@.out_color;
    let ghost start = io@;
    let group = group_of(actions, kind);
    let ghost g = of_kind(acts, kind);
    if group.len() == 0 {
        assert(section_text(acts, kind, on) =~= Seq::<char>::empty());
        assert(io@.out =~= start.out + section_text(acts, kind, on));
        return false;
    }
    io.diff_header(header_for(kind), group.len());
    let ghost mid = io@.out;
    let mut j: usize = 0;
    assert(g.take(0) =~= Seq::<ActionView>::empty());
    while j < group.len()
        invariant
            j <= group@.len(),
            acts == recorded(actions@),
            g == of_kind(acts, kind),
            indexes(group@, acts, g),
            on == start.out_color,
            io@ == (IoStreamsView { out: mid + action_lines(g.take(j as int), on), ..start }),
        decreases group.len() - j,
    {
        let a = &actions[group[j]];
        assert(acts[group@[j as int] as int] == actions@[group@[j as int] as int]@);
        let text = format_action(a);
        io.diff_action(text.as_str());
        proof {
            let t = g.take(j + 1);
            assert(t.drop_last() =~= g.take(j as int));
            assert(t.last() == g[j as int]);
            assert(io@.out =~= mid + action_lines(t, on));
        }
        j = j + 1;
    }
    assert(g.take(g.len() as int) =~= g);
    assert(io@.out =~= start.out + section_text(acts, kind, on));
    true
}

/// Print the plan: each non-empty group of `actions` under its header, in
/// the fixed order, or `No changes`.
pub fn print_diff(io: &mut IoStreams, actions: &[Action])
    ensures
        final(io)@ == (IoStreamsView {
            out: old(io)@.out + diff_text(recorded(actions@), old(io)@.out_color),
            ..old(io)@
        }),
{
    let ghost acts = recorded(actions@);
    let ghost on = io@.out_color;
    let ghost start = io@;
    let mut empty = true;
    let mut idx: usize = 0;
    while idx < 9
        invariant
            idx <= 9,
            acts == recorded(actions@),
            on == start.out_color,
            io@ == (IoStreamsView { out: start.out + sections(acts, idx as nat, on), ..start }),
            empty == (forall|i: int| 0 <= i < idx ==> #[trigger] of_kind(acts, diff_order()[i]).len() == 0),
        decreases 9 - idx,
    {
        let kind = kind_at(idx);
        let printed = print_group(io, actions, kind);
        if printed {
            empty = false;
        }
        proof {
            assert(sections(acts, (idx + 1) as nat, on) == sections(acts, idx as nat, on) + section_text(
                acts,
                kind,
                on,
            ));
            assert(io@.out =~= start.out + sections(acts, (idx + 1) as nat, on));
        }
        idx = idx + 1;
    }
    if empty {
        proof {
            if acts.len() > 0 {
                lemma_some_group(acts);
            }
            reveal_with_fuel(sections, 10);
            assert(sections(acts, 9, on) =~= Seq::<char>::empty());
        }
        io.diff_empty();
        assert(io@.out =~= start.out + diff_text(acts, on));
    } else {
        proof {
            let i = choose|i: int| 0 <= i < 9 && #[trigger] of_kind(acts, diff_order()[i]).len() != 0;
            lemma_of_kind_len(acts, diff_order()[i]);
        }
    }
}

/// The sizes of the groups of the first `n` kinds of the order, summed.
pub open spec fn group_total(acts: Seq<ActionView>, n: nat) -> nat
    decreases n,
{
    if n == 0 {
        0
    } else {
        group_total(acts, (n - 1) as nat) + of_kind(acts, diff_order()[n - 1]).len()
    }
}

/// Every recorded action is shown exactly once in the diff: the groups of
/// the nine kinds partition the actions.
pub proof fn diff_shows_every_action(acts: Seq<ActionView>)
    ensures
        group_total(acts, 9) == acts.len(),
    decreases acts.len(),
{
    reveal_with_fuel(group_total, 10);
    if acts.len() > 0 {
        let prev = acts.drop_last();
        diff_shows_every_action(prev);
        assert(group_total(prev, 9) == prev.len());
    }
}

} // verus!
