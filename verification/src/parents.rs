//! Parent links between processes, and how cycles among them are broken.
use std::collections::HashMap;
use vstd::prelude::*;

verus! {

broadcast use vstd::std_specs::hash::group_hash_axioms;

/// Parent links: a process that is known, and its parent where it has one.
pub type Links = Map<u32, Option<u32>>;

/// The parent that the links give a process.
pub open spec fn parent_in(links: Links, pid: u32) -> Option<u32> {
    if links.contains_key(pid) {
        links[pid]
    } else {
        None
    }
}

/// The ancestor `steps` generations above a process, where there is one.
pub open spec fn ancestor(links: Links, pid: u32, steps: nat) -> Option<u32>
    decreases steps,
{
    if steps == 0 {
        Some(pid)
    } else {
        match ancestor(links, pid, (steps - 1) as nat) {
            Some(p) => parent_in(links, p),
            None => None,
        }
    }
}

/// A process that is its own ancestor.
pub open spec fn on_cycle(links: Links, pid: u32) -> bool {
    exists|steps: nat| steps > 0 && #[trigger] ancestor(links, pid, steps) == Some(pid)
}

/// The process at which a cycle is cut: the one with the greatest number.
pub open spec fn cuts_cycle(links: Links, pid: u32) -> bool {
    &&& on_cycle(links, pid)
    &&& forall|steps: nat| (#[trigger] ancestor(links, pid, steps)) matches Some(p) ==> p <= pid
}

/// The links after each cycle has lost the parent of its greatest process.
pub open spec fn without_cycles(links: Links) -> Links {
    Map::new(
        |pid: u32| links.contains_key(pid),
        |pid: u32|
            if cuts_cycle(links, pid) {
                None
            } else {
                links[pid]
            },
    )
}

/// Climbing in two stages is climbing once.
pub proof fn lemma_ancestor_add(links: Links, pid: u32, a: nat, b: nat)
    ensures
        ancestor(links, pid, a + b) == (match ancestor(links, pid, a) {
            Some(p) => ancestor(links, p, b),
            None => None,
        }),
    decreases b,
{
    if b > 0 {
        lemma_ancestor_add(links, pid, a, (b - 1) as nat);
        assert((a + b - 1) as nat == a + (b - 1) as nat);
    }
}

/// A process on a cycle meets itself again after any number of steps.
proof fn lemma_returns(links: Links, pid: u32, least: nat) -> (steps: nat)
    requires
        on_cycle(links, pid),
    ensures
        steps > 0,
        steps >= least,
        ancestor(links, pid, steps) == Some(pid),
    decreases least,
{
    let period = choose|k: nat| k > 0 && #[trigger] ancestor(links, pid, k) == Some(pid);
    if least <= period {
        period
    } else {
        let before = lemma_returns(links, pid, (least - 1) as nat);
        lemma_ancestor_add(links, pid, before, period);
        before + period
    }
}

/// What a process on a cycle reaches, reaches it back.
proof fn lemma_reaches_back(links: Links, pid: u32, steps: nat, other: u32) -> (back: nat)
    requires
        on_cycle(links, pid),
        ancestor(links, pid, steps) == Some(other),
    ensures
        ancestor(links, other, back) == Some(pid),
{
    let round = lemma_returns(links, pid, steps);
    lemma_ancestor_add(links, pid, steps, (round - steps) as nat);
    (round - steps) as nat
}

/// Where climbing from `pid` is `period` steps periodic, the first `period`
/// ancestors are all there are.
proof fn lemma_periodic(links: Links, pid: u32, period: nat, steps: nat)
    requires
        period > 0,
        ancestor(links, pid, period) == Some(pid),
    ensures
        ancestor(links, pid, steps) == ancestor(links, pid, steps % period),
        steps % period < period,
    decreases steps,
{
    if steps >= period {
        let fewer = (steps - period) as nat;
        lemma_periodic(links, pid, period, fewer);
        lemma_ancestor_add(links, pid, period, fewer);
        assert(period + fewer == steps);
        assert(fewer % period == steps % period) by (nonlinear_arith)
            requires
                period > 0,
                steps == fewer + period,
        ;
    } else {
        vstd::arithmetic::div_mod::lemma_small_mod(steps, period);
    }
}

/// Climbing goes through every generation on the way.
proof fn lemma_ancestor_below(links: Links, pid: u32, low: nat, high: nat)
    requires
        low <= high,
        ancestor(links, pid, high) is Some,
    ensures
        ancestor(links, pid, low) is Some,
    decreases high,
{
    if low < high {
        lemma_ancestor_below(links, pid, low, (high - 1) as nat);
    }
}

/// The number of steps, below `count`, to the greatest of the first ancestors.
proof fn lemma_greatest(links: Links, pid: u32, count: nat) -> (best: nat)
    requires
        count > 0,
        ancestor(links, pid, count) is Some,
    ensures
        best < count,
        ancestor(links, pid, best) is Some,
        forall|i: nat| i < count ==> (#[trigger] ancestor(links, pid, i))->0 <= ancestor(links, pid, best)->0,
    decreases count,
{
    lemma_ancestor_below(links, pid, (count - 1) as nat, count);
    if count == 1 {
        0
    } else {
        let before = lemma_greatest(links, pid, (count - 1) as nat);
        if ancestor(links, pid, before)->0 <= ancestor(links, pid, (count - 1) as nat)->0 {
            (count - 1) as nat
        } else {
            before
        }
    }
}

/// Every process on a cycle reaches the one at which the cycle is cut.
proof fn lemma_cycle_has_cut(links: Links, pid: u32, period: nat) -> (best: nat)
    requires
        period > 0,
        ancestor(links, pid, period) == Some(pid),
    ensures
        best < period,
        ancestor(links, pid, best) is Some,
        cuts_cycle(links, ancestor(links, pid, best)->0),
{
    let best = lemma_greatest(links, pid, period);
    let top = ancestor(links, pid, best)->0;
    lemma_ancestor_add(links, pid, best, (period - best) as nat);
    lemma_ancestor_add(links, top, (period - best) as nat, best);
    assert((period - best) as nat + best == period);
    assert(ancestor(links, top, period) == Some(top));
    assert forall|steps: nat| (#[trigger] ancestor(links, top, steps)) is Some implies ancestor(
        links,
        top,
        steps,
    )->0 <= top by {
        lemma_ancestor_add(links, pid, best, steps);
        lemma_periodic(links, pid, period, best + steps);
        lemma_ancestor_below(links, pid, (best + steps) % period, period);
    }
    best
}

/// Climbing links from which some parents were taken finds nothing new.
proof fn lemma_fewer_links(links: Links, fewer: Links, pid: u32, steps: nat)
    requires
        forall|p: u32| (#[trigger] parent_in(fewer, p)) is Some ==> parent_in(fewer, p) == parent_in(links, p),
        ancestor(fewer, pid, steps) is Some,
    ensures
        ancestor(links, pid, steps) == ancestor(fewer, pid, steps),
    decreases steps,
{
    if steps > 0 {
        lemma_ancestor_below(fewer, pid, (steps - 1) as nat, steps);
        lemma_fewer_links(links, fewer, pid, (steps - 1) as nat);
        assert(parent_in(fewer, ancestor(fewer, pid, (steps - 1) as nat)->0) is Some);
    }
}

/// Once the cycles are cut, no process is its own ancestor.
pub proof fn cut_links_have_no_cycle(links: Links, pid: u32)
    ensures
        !on_cycle(without_cycles(links), pid),
{
    let cut = without_cycles(links);
    if on_cycle(cut, pid) {
        let period = choose|k: nat| k > 0 && #[trigger] ancestor(cut, pid, k) == Some(pid);
        lemma_fewer_links(links, cut, pid, period);
        let best = lemma_cycle_has_cut(links, pid, period);
        let top = ancestor(links, pid, best)->0;
        lemma_ancestor_below(cut, pid, best, period);
        lemma_fewer_links(links, cut, pid, best);
        lemma_ancestor_below(cut, pid, best + 1, period);
        assert(ancestor(cut, pid, best + 1) == parent_in(cut, top));
        assert(parent_in(cut, top) is None);
    }
}

/// Links without a cycle are left as they are.
pub proof fn acyclic_links_are_kept(links: Links)
    requires
        forall|pid: u32| !on_cycle(links, pid),
    ensures
        without_cycles(links) == links,
{
    assert(without_cycles(links) =~= links);
}

/// The ancestors of `start` that were visited so far, nearest first.
spec fn is_climb(links: Links, start: u32, path: Seq<u32>) -> bool {
    forall|i: int|
        0 <= i < path.len() ==> {
            &&& ancestor(links, start, i as nat) == Some(#[trigger] path[i])
            &&& links.contains_key(path[i])
        }
}

proof fn lemma_climb_is_short(links: Links, start: u32, path: Seq<u32>)
    requires
        is_climb(links, start, path),
        path.no_duplicates(),
        links.dom().finite(),
    ensures
        path.len() <= links.dom().len(),
{
    path.unique_seq_to_set();
    assert(path.to_set().subset_of(links.dom())) by {
        assert forall|p: u32| path.to_set().contains(p) implies links.dom().contains(p) by {
            let i = choose|i: int| 0 <= i < path.len() && path[i] == p;
            assert(links.contains_key(path[i]));
        }
    }
    vstd::set_lib::lemma_len_subset(path.to_set(), links.dom());
}

/// Continues a climb to the top, where there is no cycle to run into.
proof fn lemma_climb_ends(links: Links, start: u32, path: Seq<u32>) -> (steps: nat)
    requires
        is_climb(links, start, path),
        path.len() > 0,
        path.no_duplicates(),
        links.dom().finite(),
        forall|p: u32| !on_cycle(links, p),
        forall|p: u32| (#[trigger] parent_in(links, p)) matches Some(q) ==> links.contains_key(q),
    ensures
        ancestor(links, start, steps) is Some,
        links.contains_key(ancestor(links, start, steps)->0),
        links[ancestor(links, start, steps)->0] is None,
    decreases links.dom().len() - path.len(),
{
    let last = path.last();
    let next = parent_in(links, last);
    assert(ancestor(links, start, (path.len() - 1) as nat) == Some(last));
    assert(ancestor(links, start, path.len()) == next);
    if next is None {
        (path.len() - 1) as nat
    } else {
        let more = path.push(next->0);
        assert(!path.contains(next->0)) by {
            if path.contains(next->0) {
                let i = choose|i: int| 0 <= i < path.len() && path[i] == next->0;
                assert(ancestor(links, start, i as nat) == Some(path[i]));
                lemma_ancestor_add(links, start, i as nat, (path.len() - i) as nat);
                assert(ancestor(links, path[i], (path.len() - i) as nat) == Some(path[i]));
                assert(!on_cycle(links, path[i]));
            }
        }
        assert(is_climb(links, start, more)) by {
            assert forall|i: int| 0 <= i < more.len() implies {
                &&& ancestor(links, start, i as nat) == Some(#[trigger] more[i])
                &&& links.contains_key(more[i])
            } by {
                if i < path.len() {
                    assert(more[i] == path[i]);
                }
            }
        }
        lemma_climb_is_short(links, start, more);
        lemma_climb_ends(links, start, more)
    }
}

/// Where there is no cycle, climbing from any process comes to a top.
pub proof fn lemma_has_top(links: Links, pid: u32) -> (steps: nat)
    requires
        links.contains_key(pid),
        links.dom().finite(),
        forall|p: u32| !on_cycle(links, p),
        forall|p: u32| (#[trigger] parent_in(links, p)) matches Some(q) ==> links.contains_key(q),
    ensures
        ancestor(links, pid, steps) is Some,
        links.contains_key(ancestor(links, pid, steps)->0),
        links[ancestor(links, pid, steps)->0] is None,
{
    lemma_climb_ends(links, pid, seq![pid])
}

/// A climb that comes back to its own index `first` has found a cycle, and its
/// greatest process is where the cycle is cut.
proof fn lemma_climb_closes(links: Links, start: u32, path: Seq<u32>, first: int, top: int)
    requires
        is_climb(links, start, path),
        0 <= first <= top < path.len(),
        ancestor(links, start, path.len()) == Some(path[first]),
        forall|i: int| first <= i < path.len() ==> path[i] <= path[top],
    ensures
        cuts_cycle(links, path[top]),
        ancestor(links, start, top as nat) == Some(path[top]),
{
    let base = path[first];
    let period = (path.len() - first) as nat;
    assert forall|j: nat| j < period implies #[trigger] ancestor(links, base, j) == Some(path[first + j]) by {
        lemma_ancestor_add(links, start, first as nat, j);
        assert(ancestor(links, start, (first + j) as nat) == Some(path[first + j]));
        assert(ancestor(links, start, first as nat) == Some(path[first]));
    }
    lemma_ancestor_add(links, start, first as nat, period);
    assert(ancestor(links, start, first as nat) == Some(path[first]));
    assert(ancestor(links, base, period) == Some(base));
    let up = (top - first) as nat;
    assert(ancestor(links, base, up) == Some(path[top]));
    lemma_ancestor_add(links, base, up, (period - up) as nat);
    lemma_ancestor_add(links, path[top], (period - up) as nat, up);
    assert((period - up) as nat + up == period);
    assert(ancestor(links, path[top], period) == Some(path[top]));
    assert forall|steps: nat| (#[trigger] ancestor(links, path[top], steps)) is Some implies ancestor(
        links,
        path[top],
        steps,
    )->0 <= path[top] by {
        lemma_ancestor_add(links, base, up, steps);
        lemma_periodic(links, base, period, up + steps);
        let j = (up + steps) % period;
        assert(ancestor(links, base, j) == Some(path[first + j]));
    }
    assert(ancestor(links, start, top as nat) == Some(path[top]));
}

/// Two cuts of one cycle are the same process.
proof fn lemma_cut_is_unique(links: Links, pid: u32, steps: nat, other: u32)
    requires
        cuts_cycle(links, pid),
        cuts_cycle(links, other),
        ancestor(links, pid, steps) == Some(other),
    ensures
        pid == other,
{
    let back = lemma_reaches_back(links, pid, steps, other);
}

/// `now` is `links` with nothing but parents at cuts taken away.
spec fn partly_cut(links: Links, now: Links) -> bool {
    &&& now.dom() == links.dom()
    &&& forall|p: u32|
        links.contains_key(p) ==> #[trigger] now[p] == links[p] || (now[p] is None && cuts_cycle(links, p))
}

/// The position of the greatest number from `first` on.
fn greatest_from(path: &Vec<u32>, first: usize) -> (top: usize)
    requires
        first < path@.len(),
    ensures
        first <= top < path@.len(),
        forall|i: int| first <= i < path@.len() ==> path@[i] <= path@[top as int],
{
    let mut top: usize = first;
    let mut i: usize = first;
    while i < path.len()
        invariant
            first <= top < path@.len(),
            first <= i <= path@.len(),
            forall|j: int| first <= j < i ==> path@[j] <= path@[top as int],
        decreases path@.len() - i,
    {
        if path[i] > path[top] {
            top = i;
        }
        i = i + 1;
    }
    top
}

/// Follows the parents of `start`; cuts the cycle that this runs into, if any.
fn cut_cycle_above(parent_by_pid: &mut HashMap<u32, Option<u32>>, start: u32, Ghost(links): Ghost<Links>)
    requires
        partly_cut(links, old(parent_by_pid)@),
        links.contains_key(start),
    ensures
        partly_cut(links, final(parent_by_pid)@),
        cuts_cycle(links, start) ==> final(parent_by_pid)@[start] is None,
        forall|p: u32|
            links.contains_key(p) && #[trigger] old(parent_by_pid)@[p] is None
                ==> final(parent_by_pid)@[p] is None,
{
    let mut positions: HashMap<u32, usize> = HashMap::new();
    let mut path: Vec<u32> = Vec::new();
    let mut current: u32 = start;
    let ghost now = parent_by_pid@;
    proof {
        assert forall|p: u32| (#[trigger] parent_in(now, p)) is Some implies parent_in(now, p) == parent_in(
            links,
            p,
        ) by {
            if links.contains_key(p) {
                assert(now[p] == links[p] || now[p] is None);
            }
        }
    }
    loop
        invariant
            partly_cut(links, now),
            links.contains_key(start),
            parent_by_pid@ == now,
            now == old(parent_by_pid)@,
            now.dom().finite(),
            forall|p: u32| (#[trigger] parent_in(now, p)) is Some ==> parent_in(now, p) == parent_in(links, p),
            is_climb(now, start, path@),
            path@.no_duplicates(),
            ancestor(now, start, path@.len()) == Some(current),
            forall|p: u32| #[trigger] positions@.contains_key(p) <==> path@.contains(p),
            forall|p: u32| #[trigger]
                positions@.contains_key(p) ==> positions@[p] < path@.len() && path@[positions@[p] as int] == p,
        decreases now.dom().len() + 1 - path@.len(),
    {
        if let Some(found) = positions.get(&current) {
            let first: usize = *found;
            let top: usize = greatest_from(&path, first);
            let cut: u32 = path[top];
            proof {
                assert forall|i: nat| i <= path@.len() implies #[trigger] ancestor(now, start, i) == ancestor(
                    links,
                    start,
                    i,
                ) by {
                    if i < path@.len() {
                        assert(ancestor(now, start, i) == Some(path@[i as int]));
                    }
                    lemma_fewer_links(links, now, start, i);
                }
                assert(is_climb(links, start, path@)) by {
                    assert forall|i: int| 0 <= i < path@.len() implies {
                        &&& ancestor(links, start, i as nat) == Some(#[trigger] path@[i])
                        &&& links.contains_key(path@[i])
                    } by {
                        assert(now.contains_key(path@[i]));
                        assert(ancestor(now, start, i as nat) == Some(path@[i]));
                    }
                }
                assert(ancestor(links, start, path@.len()) == Some(path@[first as int]));
                lemma_climb_closes(links, start, path@, first as int, top as int);
                if cuts_cycle(links, start) {
                    lemma_cut_is_unique(links, start, top as nat, cut);
                }
                assert(now.contains_key(path@[top as int]));
            }
            parent_by_pid.insert(cut, None);
            assert(parent_by_pid@.dom() =~= links.dom());
            return;
        }
        let ghost earlier = path@;
        positions.insert(current, path.len());
        path.push(current);
        proof {
            assert(path@.drop_last() =~= earlier);
            assert forall|p: u32| #[trigger] positions@.contains_key(p) <==> path@.contains(p) by {
                if earlier.contains(p) {
                    let i = choose|i: int| 0 <= i < earlier.len() && earlier[i] == p;
                    assert(path@[i] == p);
                }
                if p == current {
                    assert(path@[path@.len() - 1] == p);
                }
                if path@.contains(p) && p != current {
                    let i = choose|i: int| 0 <= i < path@.len() && path@[i] == p;
                    assert(earlier[i] == p);
                }
            }
            assert(ancestor(now, start, path@.len()) == parent_in(now, current));
        }
        let parent: Option<u32> = match parent_by_pid.get(&current) {
            Some(link) => *link,
            None => None,
        };
        match parent {
            Some(p) => {
                proof {
                    assert forall|i: int| 0 <= i < path@.len() implies {
                        &&& ancestor(now, start, i as nat) == Some(#[trigger] path@[i])
                        &&& now.contains_key(path@[i])
                    } by {
                        if i < earlier.len() {
                            assert(path@[i] == earlier[i]);
                        }
                    }
                    lemma_climb_is_short(now, start, path@);
                }
                current = p;
            },
            None => {
                proof {
                    if cuts_cycle(links, start) {
                        lemma_fewer_links(links, now, start, earlier.len());
                        let round = lemma_returns(links, start, (earlier.len() + 1) as nat);
                        lemma_ancestor_below(links, start, (earlier.len() + 1) as nat, round);
                        assert(ancestor(links, start, (earlier.len() + 1) as nat) == parent_in(links, current));
                        assert(links.contains_key(current));
                        assert(now[current] is None);
                        assert(cuts_cycle(links, current));
                        lemma_cut_is_unique(links, start, earlier.len(), current);
                    }
                }
                return;
            },
        }
    }
}

/// Cuts every cycle of the links at its greatest process.
pub fn break_parent_cycles(parent_by_pid: &mut HashMap<u32, Option<u32>>)
    ensures
        final(parent_by_pid)@ == without_cycles(old(parent_by_pid)@),
{
    let ghost links = parent_by_pid@;
    let mut starts: Vec<u32> = Vec::new();
    let ghost all = vstd::std_specs::iter::IteratorSpec::remaining(
        &vstd::std_specs::hash::spec_keys_iter(parent_by_pid),
    );
    for pid in iter: parent_by_pid.keys()
        invariant
            parent_by_pid@ == links,
            iter.seq() == all,
            starts@.len() == iter.index(),
            forall|i: int| 0 <= i < starts@.len() ==> starts@[i] == *iter.seq()[i],
    {
        starts.push(*pid);
    }
    proof {
        assert(starts@ =~= all.unref());
        assert forall|p: u32| links.contains_key(p) <==> starts@.contains(p) by {
            assert(all.unref().to_set().contains(p) <==> starts@.contains(p));
        }
    }
    let mut i: usize = 0;
    while i < starts.len()
        invariant
            i <= starts@.len(),
            forall|p: u32| links.contains_key(p) <==> starts@.contains(p),
            partly_cut(links, parent_by_pid@),
            forall|j: int| 0 <= j < i && cuts_cycle(links, #[trigger] starts@[j]) ==> parent_by_pid@[starts@[j]] is None,
        decreases starts@.len() - i,
    {
        let start: u32 = starts[i];
        assert(starts@.contains(start));
        cut_cycle_above(parent_by_pid, start, Ghost(links));
        assert forall|j: int| 0 <= j < i + 1 && cuts_cycle(links, #[trigger] starts@[j]) implies parent_by_pid@[starts@[j]] is None by {
            assert(starts@.contains(starts@[j]));
        }
        i = i + 1;
    }
    assert(parent_by_pid@ =~= without_cycles(links)) by {
        assert forall|p: u32| links.contains_key(p) implies parent_by_pid@[p] == without_cycles(links)[p] by {
            assert(starts@.contains(p));
            let j = choose|j: int| 0 <= j < starts@.len() && starts@[j] == p;
            assert(parent_by_pid@[p] == links[p] || cuts_cycle(links, p));
        }
    }
}

/// Cutting the cycles takes nothing away but the parent of a process that is its
/// own ancestor and has the greatest number of those above it.
pub proof fn only_cycles_are_cut(links: Links, pid: u32)
    requires
        links.contains_key(pid),
    ensures
        without_cycles(links).contains_key(pid),
        without_cycles(links)[pid] == links[pid] || without_cycles(links)[pid] is None,
        without_cycles(links)[pid] != links[pid] ==> {
            &&& exists|steps: nat| steps > 0 && #[trigger] ancestor(links, pid, steps) == Some(pid)
            &&& forall|steps: nat| (#[trigger] ancestor(links, pid, steps)) matches Some(p) ==> p <= pid
        },
{
}

} // verus!
