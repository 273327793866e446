//! What `dfm apply` computes from a run: the links to remember, the totals
//! across profiles, and the summary figures.

use vstd::prelude::*;

use crate::engine::action::{Action, ActionKind};
use crate::engine::options::Tally;
use crate::engine::runner::recorded;
use crate::iostreams::ApplyResult;
use crate::state::schema::Link;

verus! {

/// Whether an action leaves a symlink worth remembering: one created,
/// replaced, or found already correct.
pub open spec fn remembered(k: ActionKind) -> bool {
    k == ActionKind::LinkCreate || k == ActionKind::LinkRelink || k == ActionKind::LinkExists
}

/// The links the actions leave, in order, as (target, source) texts.
pub open spec fn links_left(acts: Seq<crate::engine::action::ActionView>) -> Seq<(Seq<char>, Seq<char>)>
    decreases acts.len(),
{
    if acts.len() == 0 {
        Seq::empty()
    } else if remembered(acts.last().kind) {
        links_left(acts.drop_last()).push((acts.last().from, acts.last().to))
    } else {
        links_left(acts.drop_last())
    }
}

/// The views of state links as (target, source) texts.
pub open spec fn link_pairs(v: Seq<Link>) -> Seq<(Seq<char>, Seq<char>)> {
    v.map_values(|l: Link| (l.target@, l.source@))
}

/// Pick out the symlinks the engine created or confirmed, so `dfm doctor` can
/// later verify them. Skipped and backed-up actions are not kept.
pub fn collect_links(actions: &[Action]) -> (r: Vec<Link>)
    ensures
        link_pairs(r@) == links_left(recorded(actions@)),
{
    let ghost acts = recorded(actions@);
    let mut out: Vec<Link> = Vec::new();
    let mut i: usize = 0;
    assert(link_pairs(out@) =~= Seq::<(Seq<char>, Seq<char>)>::empty());
    while i < actions.len()
        invariant
            i <= actions@.len(),
            acts == recorded(actions@),
            link_pairs(out@) == links_left(acts.take(i as int)),
        decreases actions.len() - i,
    {
        let ghost t = acts.take(i + 1);
        assert(t.drop_last() =~= acts.take(i as int));
        assert(t.last() == actions@[i as int]@);
        let a = &actions[i];
        let keep = match a.kind {
            ActionKind::LinkCreate | ActionKind::LinkRelink | ActionKind::LinkExists => true,
            _ => false,
        };
        if keep {
            let ghost before = out@;
            out.push(Link { target: a.from.clone(), source: a.to.clone() });
            assert(link_pairs(out@) =~= link_pairs(before).push((a.from@, a.to@)));
        }
        i = i + 1;
    }
    assert(acts.take(actions@.len() as int) =~= acts);
    out
}

/// Whether two tallies can be summed without overflow.
pub open spec fn summable(a: Tally, b: Tally) -> bool {
    &&& a.links_ok + b.links_ok <= u32::MAX
    &&& a.links_created + b.links_created <= u32::MAX
    &&& a.links_relinked + b.links_relinked <= u32::MAX
    &&& a.links_backed_up + b.links_backed_up <= u32::MAX
    &&& a.shell_run + b.shell_run <= u32::MAX
    &&& a.shell_failed + b.shell_failed <= u32::MAX
    &&& a.cleaned + b.cleaned <= u32::MAX
    &&& a.created + b.created <= u32::MAX
}

/// Whether two tallies can be summed without overflow.
pub fn summable_check(a: &Tally, b: &Tally) -> (r: bool)
    ensures
        r == summable(*a, *b),
{
    let m: u64 = u32::MAX as u64;
    (a.links_ok as u64) + (b.links_ok as u64) <= m && (a.links_created as u64) + (
    b.links_created as u64) <= m && (a.links_relinked as u64) + (b.links_relinked as u64) <= m
        && (a.links_backed_up as u64) + (b.links_backed_up as u64) <= m && (a.shell_run as u64) + (
    b.shell_run as u64) <= m && (a.shell_failed as u64) + (b.shell_failed as u64) <= m && (
    a.cleaned as u64) + (b.cleaned as u64) <= m && (a.created as u64) + (b.created as u64) <= m
}

/// Sum two tallies field by field so totals can span profiles.
pub fn add(a: Tally, b: Tally) -> (r: Tally)
    requires
        summable(a, b),
    ensures
        r.links_ok == a.links_ok + b.links_ok,
        r.links_created == a.links_created + b.links_created,
        r.links_relinked == a.links_relinked + b.links_relinked,
        r.links_backed_up == a.links_backed_up + b.links_backed_up,
        r.shell_run == a.shell_run + b.shell_run,
        r.shell_failed == a.shell_failed + b.shell_failed,
        r.cleaned == a.cleaned + b.cleaned,
        r.created == a.created + b.created,
{
    Tally {
        links_ok: a.links_ok + b.links_ok,
        links_created: a.links_created + b.links_created,
        links_relinked: a.links_relinked + b.links_relinked,
        links_backed_up: a.links_backed_up + b.links_backed_up,
        shell_run: a.shell_run + b.shell_run,
        shell_failed: a.shell_failed + b.shell_failed,
        cleaned: a.cleaned + b.cleaned,
        created: a.created + b.created,
    }
}

/// The summary figures of a run's totals.
pub fn apply_result(t: Tally) -> (r: ApplyResult)
    ensures
        r == (ApplyResult {
            links_ok: t.links_ok,
            created: t.links_created,
            relinked: t.links_relinked,
            backed_up: t.links_backed_up,
            shell_run: t.shell_run,
            shell_failed: t.shell_failed,
            cleaned: t.cleaned,
            dirs: t.created,
        }),
{
    ApplyResult {
        links_ok: t.links_ok,
        created: t.links_created,
        relinked: t.links_relinked,
        backed_up: t.links_backed_up,
        shell_run: t.shell_run,
        shell_failed: t.shell_failed,
        cleaned: t.cleaned,
        dirs: t.created,
    }
}

} // verus!
