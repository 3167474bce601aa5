//! The tree of matching processes and their ancestors.
use std::collections::{BTreeSet, HashMap};
use vstd::prelude::*;

use crate::ascending;
use crate::ascending::in_order;
use crate::parents;
use crate::parents::break_parent_cycles;
use crate::system::ProcessInfo;

verus! {

broadcast use {vstd::std_specs::hash::group_hash_axioms, vstd::std_specs::btree::group_btree_axioms};

/// A process in the tree, with the processes below it.
#[derive(Debug, Eq, PartialEq)]
pub struct ProcessTreeNode {
    pub process: ProcessInfo,
    /// Whether the process itself matches, or only stands above one that does.
    pub is_match: bool,
    pub children: Vec<ProcessTreeNode>,
}

/// The matching processes, each below its ancestors.
#[derive(Debug, Eq, PartialEq)]
pub struct ProcessTree {
    /// The number of matching processes.
    pub match_count: usize,
    pub roots: Vec<ProcessTreeNode>,
}

/// What a node holds.
#[verifier::ext_equal]
pub struct NodeModel {
    pub pid: u32,
    pub ppid: u32,
    pub command: Seq<char>,
    pub is_match: bool,
    pub children: Seq<NodeModel>,
}

/// What a tree holds.
#[verifier::ext_equal]
pub struct TreeModel {
    pub match_count: nat,
    pub roots: Seq<NodeModel>,
}

/// What some nodes hold.
pub open spec fn models(nodes: Seq<ProcessTreeNode>) -> Seq<NodeModel>
    decreases nodes,
{
    Seq::new(
        nodes.len(),
        |i: int|
            if 0 <= i < nodes.len() {
                nodes[i].model()
            } else {
                arbitrary()
            },
    )
}

impl ProcessTreeNode {
    pub open spec fn model(self) -> NodeModel
        decreases self,
    {
        NodeModel {
            pid: self.process.pid,
            ppid: self.process.ppid,
            command: self.process.command@,
            is_match: self.is_match,
            children: models(self.children@),
        }
    }

    /// Another node that holds the same.
    pub fn copied(&self) -> (r: ProcessTreeNode)
        ensures
            r.model() == self.model(),
        decreases self,
    {
        let children = copied_nodes(&self.children);
        ProcessTreeNode { process: self.process.copied(), is_match: self.is_match, children }
    }
}

/// Other nodes that hold the same.
fn copied_nodes(nodes: &Vec<ProcessTreeNode>) -> (r: Vec<ProcessTreeNode>)
    ensures
        models(r@) == models(nodes@),
    decreases nodes,
{
    let mut r: Vec<ProcessTreeNode> = Vec::new();
    let mut i: usize = 0;
    while i < nodes.len()
        invariant
            i <= nodes@.len(),
            r@.len() == i,
            forall|j: int| 0 <= j < i ==> (#[trigger] r@[j]).model() == nodes@[j].model(),
        decreases nodes@.len() - i,
    {
        let node = nodes[i].copied();
        r.push(node);
        i = i + 1;
    }
    assert(models(r@) =~= models(nodes@));
    r
}

impl ProcessTree {
    pub open spec fn model(self) -> TreeModel {
        TreeModel { match_count: self.match_count as nat, roots: models(self.roots@) }
    }

    /// Another tree that holds the same.
    pub fn copied(&self) -> (r: ProcessTree)
        ensures
            r.model() == self.model(),
    {
        ProcessTree { match_count: self.match_count, roots: copied_nodes(&self.roots) }
    }
}

/// A process table by process number; a later entry replaces an earlier one.
pub open spec fn by_pid(table: Seq<ProcessInfo>) -> Map<u32, ProcessInfo>
    decreases table.len(),
{
    if table.len() == 0 {
        Map::empty()
    } else {
        by_pid(table.drop_last()).insert(table.last().pid, table.last())
    }
}

/// The numbers of some processes.
pub open spec fn pids_of(processes: Seq<ProcessInfo>) -> Set<u32> {
    processes.map_values(|p: ProcessInfo| p.pid).to_set()
}

/// The parent of each process, where the table has it and it is not the first process.
pub open spec fn table_links(processes: Map<u32, ProcessInfo>) -> parents::Links {
    Map::new(
        |pid: u32| processes.contains_key(pid),
        |pid: u32|
            {
                let ppid = processes[pid].ppid;
                if ppid > 1 && processes.contains_key(ppid) {
                    Some(ppid)
                } else {
                    None
                }
            },
    )
}

/// A process that matches, or that is an ancestor of one that does.
pub open spec fn is_relevant(processes: Map<u32, ProcessInfo>, matched: Set<u32>, pid: u32) -> bool {
    exists|m: u32, steps: nat|
        #![trigger parents::ancestor(table_links(processes), m, steps)]
        matched.contains(m) && processes.contains_key(m) && parents::ancestor(table_links(processes), m, steps)
            == Some(pid)
}

/// The parents of the relevant processes.
pub open spec fn relevant_links(processes: Map<u32, ProcessInfo>, matched: Set<u32>) -> parents::Links {
    table_links(processes).restrict(Set::new(|pid: u32| is_relevant(processes, matched, pid)))
}

/// Where each relevant process hangs: below its parent, or at the top where it
/// has none or where a cycle of parents was cut.
pub open spec fn forest_of(processes: Map<u32, ProcessInfo>, matched: Set<u32>) -> parents::Links {
    parents::without_cycles(relevant_links(processes, matched))
}

/// The numbers of some nodes.
pub open spec fn node_pids(nodes: Seq<NodeModel>) -> Seq<u32> {
    nodes.map_values(|n: NodeModel| n.pid)
}

/// The processes that hang below `parent`, in ascending order.
pub open spec fn lists_below(pids: Seq<u32>, forest: parents::Links, parent: Option<u32>) -> bool {
    &&& ascending::is_ascending(pids)
    &&& forall|pid: u32| #[trigger] pids.contains(pid) <==> forest.contains_key(pid) && forest[pid] == parent
}

/// A node shows its process and everything below it.
pub open spec fn node_shows(
    node: NodeModel,
    forest: parents::Links,
    processes: Map<u32, ProcessInfo>,
    matched: Set<u32>,
) -> bool
    decreases node,
{
    let pid = node.pid;
    &&& processes.contains_key(pid)
    &&& (pid, node.ppid, node.command) == processes[pid]@
    &&& node.is_match == matched.contains(pid)
    &&& lists_below(node_pids(node.children), forest, Some(pid))
    &&& forall|i: int|
        0 <= i < node.children.len() ==> node_shows(#[trigger] node.children[i], forest, processes, matched)
}

/// A tree shows the matching processes of a table with their ancestors.
pub open spec fn tree_shows(tree: TreeModel, table: Seq<ProcessInfo>, matches: Seq<ProcessInfo>) -> bool {
    let processes = by_pid(table);
    let matched = pids_of(matches);
    let forest = forest_of(processes, matched);
    &&& tree.match_count == matches.len()
    &&& lists_below(node_pids(tree.roots), forest, None)
    &&& forall|i: int|
        0 <= i < tree.roots.len() ==> #[trigger] node_shows(tree.roots[i], forest, processes, matched)
}

proof fn lemma_by_pid(table: Seq<ProcessInfo>, pid: u32)
    ensures
        by_pid(table).dom().finite(),
        by_pid(table).contains_key(pid) ==> by_pid(table)[pid].pid == pid,
    decreases table.len(),
{
    if table.len() > 0 {
        lemma_by_pid(table.drop_last(), pid);
    }
}

/// What is closed under parents holds every ancestor of what it holds.
proof fn lemma_closed(links: parents::Links, set: Set<u32>, pid: u32, steps: nat)
    requires
        set.contains(pid),
        forall|p: u32|
            #[trigger] set.contains(p) && parents::parent_in(links, p) is Some ==> set.contains(
                parents::parent_in(links, p)->0,
            ),
    ensures
        parents::ancestor(links, pid, steps) matches Some(p) ==> set.contains(p),
    decreases steps,
{
    if steps > 0 {
        lemma_closed(links, set, pid, (steps - 1) as nat);
    }
}

/// The processes of a table by number.
fn index_table(table: &[ProcessInfo]) -> (processes: HashMap<u32, ProcessInfo>)
    ensures
        processes@ == by_pid(table@),
{
    let mut processes: HashMap<u32, ProcessInfo> = HashMap::new();
    let mut i: usize = 0;
    assert(table@.take(0) =~= Seq::<ProcessInfo>::empty());
    while i < table.len()
        invariant
            i <= table@.len(),
            processes@ == by_pid(table@.take(i as int)),
        decreases table@.len() - i,
    {
        assert(table@.take(i + 1).drop_last() =~= table@.take(i as int));
        processes.insert(table[i].pid, table[i].copied());
        i = i + 1;
    }
    assert(table@.take(i as int) =~= table@);
    processes
}

proof fn lemma_pids_of(processes: Seq<ProcessInfo>, i: int)
    requires
        0 <= i < processes.len(),
    ensures
        pids_of(processes.take(i + 1)) == pids_of(processes.take(i)).insert(processes[i].pid),
{
    let f = |p: ProcessInfo| p.pid;
    let long = processes.take(i + 1).map_values(f);
    let short = processes.take(i).map_values(f);
    assert(long =~= short.push(processes[i].pid));
    assert forall|q: u32| long.to_set().contains(q) <==> short.to_set().insert(processes[i].pid).contains(q) by {
        if short.contains(q) {
            let j = choose|j: int| 0 <= j < short.len() && short[j] == q;
            assert(long[j] == q);
        }
        if q == processes[i].pid {
            assert(long[i] == q);
        }
        if long.contains(q) && q != processes[i].pid {
            let j = choose|j: int| 0 <= j < long.len() && long[j] == q;
            assert(short[j] == q);
        }
    }
    assert(long.to_set() =~= short.to_set().insert(processes[i].pid));
}

/// The numbers of the matching processes.
fn matching_pids(matches: &[ProcessInfo]) -> (pids: BTreeSet<u32>)
    ensures
        pids@ == pids_of(matches@),
{
    let mut pids: BTreeSet<u32> = BTreeSet::new();
    let mut i: usize = 0;
    assert(pids_of(matches@.take(0)) =~= Set::<u32>::empty());
    while i < matches.len()
        invariant
            i <= matches@.len(),
            pids@ == pids_of(matches@.take(i as int)),
        decreases matches@.len() - i,
    {
        proof {
            lemma_pids_of(matches@, i as int);
        }
        pids.insert(matches[i].pid);
        i = i + 1;
    }
    assert(matches@.take(i as int) =~= matches@);
    pids
}

/// The number of the parent that the table has for a process.
fn table_parent(processes: &HashMap<u32, ProcessInfo>, pid: u32) -> (parent: Option<u32>)
    ensures
        parent == parents::parent_in(table_links(processes@), pid),
{
    match processes.get(&pid) {
        Some(process) => {
            if process.ppid > 1 && processes.contains_key(&process.ppid) {
                Some(process.ppid)
            } else {
                None
            }
        },
        None => None,
    }
}

/// Adds a process and its ancestors.
fn add_ancestors(relevant: &mut BTreeSet<u32>, processes: &HashMap<u32, ProcessInfo>, pid: u32)
    requires
        processes@.contains_key(pid),
        old(relevant)@.subset_of(processes@.dom()),
        forall|p: u32|
            #[trigger] old(relevant)@.contains(p) && parents::parent_in(table_links(processes@), p) is Some
                ==> old(relevant)@.contains(parents::parent_in(table_links(processes@), p)->0),
    ensures
        final(relevant)@.subset_of(processes@.dom()),
        forall|p: u32|
            #[trigger] final(relevant)@.contains(p) && parents::parent_in(table_links(processes@), p) is Some
                ==> final(relevant)@.contains(parents::parent_in(table_links(processes@), p)->0),
        forall|p: u32| #[trigger] old(relevant)@.contains(p) ==> final(relevant)@.contains(p),
        final(relevant)@.contains(pid),
        forall|p: u32| #[trigger]
            final(relevant)@.contains(p) && !old(relevant)@.contains(p) ==> exists|steps: nat| #[trigger]
                parents::ancestor(table_links(processes@), pid, steps) == Some(p),
{
    let ghost links = table_links(processes@);
    let ghost before = relevant@;
    let mut current: u32 = pid;
    let ghost mut steps: nat = 0;
    loop
        invariant
            links == table_links(processes@),
            before == old(relevant)@,
            processes@.dom().finite(),
            processes@.contains_key(current),
            relevant@.subset_of(processes@.dom()),
            parents::ancestor(links, pid, steps) == Some(current),
            forall|p: u32|
                #[trigger] relevant@.contains(p) && parents::parent_in(links, p) is Some
                    ==> parents::parent_in(links, p) == Some(current) || relevant@.contains(
                    parents::parent_in(links, p)->0,
                ),
            forall|p: u32| #[trigger] before.contains(p) ==> relevant@.contains(p),
            relevant@.contains(pid) || current == pid,
            forall|p: u32| #[trigger]
                relevant@.contains(p) && !before.contains(p) ==> exists|k: nat| #[trigger]
                    parents::ancestor(links, pid, k) == Some(p),
        decreases processes@.dom().len() - relevant@.len(),
    {
        let ghost earlier = relevant@;
        if !relevant.insert(current) {
            assert(relevant@ =~= earlier);
            return;
        }
        proof {
            vstd::set_lib::lemma_len_subset(relevant@, processes@.dom());
            assert(parents::ancestor(links, pid, steps) == Some(current));
            assert(parents::ancestor(links, pid, steps + 1) == parents::parent_in(links, current));
        }
        match table_parent(processes, current) {
            Some(parent) => {
                current = parent;
                proof {
                    steps = steps + 1;
                }
            },
            None => {
                return;
            },
        }
    }
}

/// The matching processes of the table and their ancestors.
fn relevant_pids(processes: &HashMap<u32, ProcessInfo>, matches: &[ProcessInfo]) -> (relevant: BTreeSet<u32>)
    ensures
        relevant@.subset_of(processes@.dom()),
        forall|p: u32| #[trigger] relevant@.contains(p) <==> is_relevant(processes@, pids_of(matches@), p),
{
    let mut relevant: BTreeSet<u32> = BTreeSet::new();
    let ghost links = table_links(processes@);
    let ghost matched = pids_of(matches@);
    let mut i: usize = 0;
    while i < matches.len()
        invariant
            i <= matches@.len(),
            links == table_links(processes@),
            matched == pids_of(matches@),
            relevant@.subset_of(processes@.dom()),
            forall|p: u32|
                #[trigger] relevant@.contains(p) && parents::parent_in(links, p) is Some
                    ==> relevant@.contains(parents::parent_in(links, p)->0),
            forall|p: u32| #[trigger] relevant@.contains(p) ==> is_relevant(processes@, matched, p),
            forall|j: int|
                0 <= j < i && processes@.contains_key((#[trigger] matches@[j]).pid) ==> relevant@.contains(
                    matches@[j].pid,
                ),
        decreases matches@.len() - i,
    {
        let pid: u32 = matches[i].pid;
        if processes.contains_key(&pid) {
            let ghost before = relevant@;
            add_ancestors(&mut relevant, processes, pid);
            proof {
                assert(matched.contains(pid)) by {
                    assert(matches@.map_values(|p: ProcessInfo| p.pid)[i as int] == pid);
                }
                assert forall|p: u32| #[trigger] relevant@.contains(p) implies is_relevant(processes@, matched, p) by {
                    if !before.contains(p) {
                        let steps = choose|steps: nat| #[trigger] parents::ancestor(links, pid, steps) == Some(p);
                        assert(parents::ancestor(table_links(processes@), pid, steps) == Some(p));
                    }
                }
            }
        }
        i = i + 1;
    }
    proof {
        assert forall|p: u32| is_relevant(processes@, matched, p) implies #[trigger] relevant@.contains(p) by {
            let (m, steps) = choose|m: u32, steps: nat|
                #![trigger parents::ancestor(table_links(processes@), m, steps)]
                matched.contains(m) && processes@.contains_key(m) && parents::ancestor(
                    table_links(processes@),
                    m,
                    steps,
                ) == Some(p);
            let numbers = matches@.map_values(|p: ProcessInfo| p.pid);
            let j = choose|j: int| 0 <= j < numbers.len() && numbers[j] == m;
            assert(matches@[j].pid == m);
            lemma_closed(links, relevant@, m, steps);
        }
    }
    relevant
}

/// The links between the relevant processes, with cycles cut.
fn relevant_parents(processes: &HashMap<u32, ProcessInfo>, order: &Vec<u32>, Ghost(matched): Ghost<Set<u32>>) -> (links:
    HashMap<u32, Option<u32>>)
    requires
        order@.to_set().subset_of(processes@.dom()),
        forall|p: u32| #[trigger] order@.to_set().contains(p) <==> is_relevant(processes@, matched, p),
    ensures
        links@ == forest_of(processes@, matched),
{
    let mut links: HashMap<u32, Option<u32>> = HashMap::new();
    let mut i: usize = 0;
    while i < order.len()
        invariant
            i <= order@.len(),
            forall|p: u32| #[trigger] links@.contains_key(p) <==> order@.take(i as int).contains(p),
            forall|p: u32| #[trigger]
                links@.contains_key(p) ==> links@[p] == parents::parent_in(table_links(processes@), p),
        decreases order@.len() - i,
    {
        let pid: u32 = order[i];
        proof {
            assert(order@.take(i + 1) =~= order@.take(i as int).push(pid));
            assert forall|p: u32| order@.take(i + 1).contains(p) <==> order@.take(i as int).contains(p) || p == pid by {
                if order@.take(i as int).contains(p) {
                    let j = choose|j: int| 0 <= j < i && order@.take(i as int)[j] == p;
                    assert(order@.take(i + 1)[j] == p);
                }
                if p == pid {
                    assert(order@.take(i + 1)[i as int] == p);
                }
            }
        }
        links.insert(pid, table_parent(processes, pid));
        i = i + 1;
    }
    proof {
        assert(order@.take(i as int) =~= order@);
        assert forall|p: u32| #[trigger] links@.contains_key(p) <==> relevant_links(processes@, matched).contains_key(
            p,
        ) by {
            assert(order@.to_set().contains(p) <==> order@.contains(p));
        }
        assert(links@ =~= relevant_links(processes@, matched));
    }
    break_parent_cycles(&mut links);
    links
}

/// The children that are listed for a parent.
spec fn listed(children: Map<u32, Vec<u32>>, parent: u32) -> Seq<u32> {
    if children.contains_key(parent) {
        children[parent]@
    } else {
        seq![]
    }
}

/// The processes among `seen` that hang below `parent`, in ascending order.
spec fn lists_seen(pids: Seq<u32>, seen: Seq<u32>, forest: parents::Links, parent: Option<u32>) -> bool {
    &&& ascending::is_ascending(pids)
    &&& forall|pid: u32| #[trigger] pids.contains(pid) <==> seen.contains(pid) && forest[pid] == parent
}

proof fn lemma_lists_push(
    pids: Seq<u32>,
    seen: Seq<u32>,
    forest: parents::Links,
    parent: Option<u32>,
    next: u32,
)
    requires
        lists_seen(pids, seen, forest, parent),
        ascending::is_ascending(seen.push(next)),
    ensures
        lists_seen(
            if forest[next] == parent {
                pids.push(next)
            } else {
                pids
            },
            seen.push(next),
            forest,
            parent,
        ),
{
    let more = if forest[next] == parent {
        pids.push(next)
    } else {
        pids
    };
    let all = seen.push(next);
    assert forall|p: u32| #[trigger] all.contains(p) <==> seen.contains(p) || p == next by {
        if seen.contains(p) {
            let j = choose|j: int| 0 <= j < seen.len() && seen[j] == p;
            assert(all[j] == p);
        }
        if p == next {
            assert(all[seen.len() as int] == p);
        }
    }
    assert forall|p: u32| #[trigger] more.contains(p) <==> all.contains(p) && forest[p] == parent by {
        if pids.contains(p) {
            let j = choose|j: int| 0 <= j < pids.len() && pids[j] == p;
            assert(more[j] == p);
        }
        if p == next && forest[next] == parent {
            assert(more[pids.len() as int] == p);
        }
        if more.contains(p) && !(p == next && forest[next] == parent) {
            let j = choose|j: int| 0 <= j < more.len() && more[j] == p;
            assert(pids[j] == p);
        }
    }
    assert forall|i: int, j: int| 0 <= i < j < more.len() implies more[i] < more[j] by {
        if j == pids.len() {
            assert(pids.contains(pids[i]));
            assert(seen.contains(pids[i]));
            let k = choose|k: int| 0 <= k < seen.len() && seen[k] == pids[i];
            assert(all[k] < all[seen.len() as int]);
        }
    }
}

/// The children of each process, and the processes at the top.
fn group_by_parent(order: &Vec<u32>, links: &HashMap<u32, Option<u32>>) -> (r: (HashMap<u32, Vec<u32>>, Vec<u32>))
    requires
        ascending::is_ascending(order@),
        order@.to_set() == links@.dom(),
    ensures
        forall|p: u32| lists_below(#[trigger] listed(r.0@, p), links@, Some(p)),
        lists_below(r.1@, links@, None),
{
    let mut children: HashMap<u32, Vec<u32>> = HashMap::new();
    let mut roots: Vec<u32> = Vec::new();
    let mut i: usize = 0;
    while i < order.len()
        invariant
            i <= order@.len(),
            ascending::is_ascending(order@),
            order@.to_set() == links@.dom(),
            forall|p: u32| lists_seen(#[trigger] listed(children@, p), order@.take(i as int), links@, Some(p)),
            lists_seen(roots@, order@.take(i as int), links@, None),
        decreases order@.len() - i,
    {
        let pid: u32 = order[i];
        let ghost before = children@;
        proof {
            assert(order@.contains(pid));
            assert(order@.to_set().contains(pid));
            assert(order@.take(i + 1) =~= order@.take(i as int).push(pid));
            assert(ascending::is_ascending(order@.take(i + 1)));
            lemma_lists_push(roots@, order@.take(i as int), links@, None, pid);
            assert forall|p: u32| lists_seen(
                if links@[pid] == Some(p) {
                    (#[trigger] listed(before, p)).push(pid)
                } else {
                    listed(before, p)
                },
                order@.take(i + 1),
                links@,
                Some(p),
            ) by {
                lemma_lists_push(listed(before, p), order@.take(i as int), links@, Some(p), pid);
            }
        }
        let link: Option<u32> = match links.get(&pid) {
            Some(link) => *link,
            None => None,
        };
        match link {
            Some(parent) => {
                let mut below: Vec<u32> = match children.remove(&parent) {
                    Some(below) => below,
                    None => Vec::new(),
                };
                assert(below@ =~= listed(before, parent));
                below.push(pid);
                children.insert(parent, below);
                assert forall|p: u32| lists_seen(#[trigger] listed(children@, p), order@.take(i + 1), links@, Some(p)) by {
                    if p == parent {
                        assert(listed(children@, p) == listed(before, p).push(pid));
                    } else {
                        assert(listed(children@, p) == listed(before, p));
                    }
                }
            },
            None => {
                roots.push(pid);
                assert forall|p: u32| lists_seen(#[trigger] listed(children@, p), order@.take(i + 1), links@, Some(p)) by {
                    assert(listed(children@, p) == listed(before, p));
                }
            },
        }
        i = i + 1;
    }
    proof {
        assert(order@.take(i as int) =~= order@);
        assert forall|p: u32| order@.contains(p) <==> links@.contains_key(p) by {
            assert(order@.to_set().contains(p) <==> order@.contains(p));
        }
        assert forall|p: u32| lists_below(#[trigger] listed(children@, p), links@, Some(p)) by {
            assert(lists_seen(listed(children@, p), order@, links@, Some(p)));
        }
    }
    (children, roots)
}

/// The processes above `pid` on the way down to it.
spec fn is_above(forest: parents::Links, above: Set<u32>, pid: u32) -> bool {
    &&& above.subset_of(forest.dom())
    &&& forall|a: u32| #[trigger]
        above.contains(a) ==> exists|k: nat| k > 0 && #[trigger] parents::ancestor(forest, pid, k) == Some(a)
}

proof fn lemma_above_child(forest: parents::Links, above: Set<u32>, pid: u32, child: u32)
    requires
        is_above(forest, above, pid),
        forest.contains_key(pid),
        forest.contains_key(child),
        forest[child] == Some(pid),
    ensures
        is_above(forest, above.insert(pid), child),
{
    parents::lemma_ancestor_add(forest, child, 1, 0);
    reveal_with_fuel(parents::ancestor, 2);
    assert(parents::ancestor(forest, child, 1) == Some(pid));
    assert forall|a: u32| #[trigger] above.insert(pid).contains(a) implies exists|k: nat|
        k > 0 && #[trigger] parents::ancestor(forest, child, k) == Some(a) by {
        if above.contains(a) {
            let k = choose|k: nat| k > 0 && #[trigger] parents::ancestor(forest, pid, k) == Some(a);
            parents::lemma_ancestor_add(forest, child, 1, k);
            assert(parents::ancestor(forest, child, 1 + k) == Some(a));
        }
    }
}

/// Builds the node of a process with everything below it.
fn build_process_tree_node(
    pid: u32,
    processes: &HashMap<u32, ProcessInfo>,
    matching: &BTreeSet<u32>,
    children: &HashMap<u32, Vec<u32>>,
    Ghost(forest): Ghost<parents::Links>,
    Ghost(above): Ghost<Set<u32>>,
) -> (node: ProcessTreeNode)
    requires
        forest.contains_key(pid),
        forest.dom().finite(),
        forest.dom().subset_of(processes@.dom()),
        forall|p: u32| #[trigger] processes@.contains_key(p) ==> processes@[p].pid == p,
        forall|p: u32| !parents::on_cycle(forest, p),
        forall|p: u32| lists_below(#[trigger] listed(children@, p), forest, Some(p)),
        is_above(forest, above, pid),
    ensures
        node.process.pid == pid,
        node_shows(node.model(), forest, processes@, matching@),
    decreases forest.dom().len() - above.len(),
{
    proof {
        assert(!parents::on_cycle(forest, pid));
        assert(!above.contains(pid));
        vstd::set_lib::lemma_len_subset(above, forest.dom());
        vstd::set_lib::lemma_len_subset(above.insert(pid), forest.dom());
        assert(processes@.contains_key(pid));
    }
    let process = match processes.get(&pid) {
        Some(process) => process.copied(),
        None => ProcessInfo { pid, ppid: 0, command: String::new() },
    };
    let mut nodes: Vec<ProcessTreeNode> = Vec::new();
    if let Some(below) = children.get(&pid) {
        let ghost pids = below@;
        assert(listed(children@, pid) == pids);
        let mut i: usize = 0;
        while i < below.len()
            invariant
                i <= below@.len(),
                pids == below@,
                forest.contains_key(pid),
                forest.dom().finite(),
                forest.dom().subset_of(processes@.dom()),
                forall|p: u32| #[trigger] processes@.contains_key(p) ==> processes@[p].pid == p,
                forall|p: u32| !parents::on_cycle(forest, p),
                forall|p: u32| lists_below(#[trigger] listed(children@, p), forest, Some(p)),
                is_above(forest, above, pid),
                !above.contains(pid),
                above.finite(),
                above.len() < forest.dom().len(),
                lists_below(pids, forest, Some(pid)),
                nodes@.len() == i,
                forall|j: int| 0 <= j < i ==> (#[trigger] nodes@[j]).process.pid == pids[j],
                forall|j: int| 0 <= j < i ==> node_shows((#[trigger] nodes@[j]).model(), forest, processes@, matching@),
            decreases below@.len() - i,
        {
            let child: u32 = below[i];
            proof {
                assert(pids.contains(child));
                lemma_above_child(forest, above, pid, child);
            }
            nodes.push(
                build_process_tree_node(
                    child,
                    processes,
                    matching,
                    children,
                    Ghost(forest),
                    Ghost(above.insert(pid)),
                ),
            );
            i = i + 1;
        }
        assert(node_pids(models(nodes@)) =~= pids);
    } else {
        assert(listed(children@, pid) =~= node_pids(models(nodes@)));
    }
    let is_match = matching.contains(&pid);
    ProcessTreeNode { process, is_match, children: nodes }
}

/// Builds the tree of the matching processes and their ancestors.
pub fn build_process_tree(table: &[ProcessInfo], matches: &[ProcessInfo]) -> (tree: ProcessTree)
    ensures
        tree_shows(tree.model(), table@, matches@),
{
    let processes = index_table(table);
    let matching = matching_pids(matches);
    let relevant = relevant_pids(&processes, matches);
    let order = in_order(&relevant);
    let links = relevant_parents(&processes, &order, Ghost(matching@));
    let ghost forest = links@;
    assert(links@.dom() =~= order@.to_set());
    let (children, tops) = group_by_parent(&order, &links);
    proof {
        assert forall|p: u32| #[trigger] processes@.contains_key(p) implies processes@[p].pid == p by {
            lemma_by_pid(table@, p);
        }
        assert forall|p: u32| !parents::on_cycle(forest, p) by {
            parents::cut_links_have_no_cycle(relevant_links(processes@, matching@), p);
        }
    }
    let mut roots: Vec<ProcessTreeNode> = Vec::new();
    let mut i: usize = 0;
    while i < tops.len()
        invariant
            i <= tops@.len(),
            forest == forest_of(processes@, matching@),
            forest.dom().finite(),
            forest.dom().subset_of(processes@.dom()),
            forall|p: u32| #[trigger] processes@.contains_key(p) ==> processes@[p].pid == p,
            forall|p: u32| !parents::on_cycle(forest, p),
            forall|p: u32| lists_below(#[trigger] listed(children@, p), forest, Some(p)),
            lists_below(tops@, forest, None),
            roots@.len() == i,
            forall|j: int| 0 <= j < i ==> (#[trigger] roots@[j]).process.pid == tops@[j],
            forall|j: int| 0 <= j < i ==> node_shows((#[trigger] roots@[j]).model(), forest, processes@, matching@),
        decreases tops@.len() - i,
    {
        let pid: u32 = tops[i];
        assert(tops@.contains(pid));
        roots.push(
            build_process_tree_node(
                pid,
                &processes,
                &matching,
                &children,
                Ghost(forest),
                Ghost(Set::<u32>::empty()),
            ),
        );
        i = i + 1;
    }
    assert(node_pids(models(roots@)) =~= tops@);
    ProcessTree { match_count: matches.len(), roots }
}

/// What identifies a node in a listing: the numbers of the process and of its
/// parent, the command, and whether it matches.
pub type Entry = (u32, u32, Seq<char>, bool);

/// The entries of a node and of everything below it, each before what is below it.
pub open spec fn entries_of_node(node: NodeModel) -> Seq<Entry>
    decreases node,
{
    seq![(node.pid, node.ppid, node.command, node.is_match)] + entries_of(node.children)
}

/// The entries of some nodes and of everything below them.
pub open spec fn entries_of(nodes: Seq<NodeModel>) -> Seq<Entry>
    decreases nodes,
{
    if nodes.len() == 0 {
        seq![]
    } else {
        entries_of(nodes.drop_last()) + entries_of_node(nodes.last())
    }
}

/// The numbers of some nodes and of everything below them.
pub open spec fn pids_in(nodes: Seq<NodeModel>) -> Seq<u32> {
    entries_of(nodes).map_values(|e: Entry| e.0)
}

/// Nodes that hang below `parent` in a forest, and show it.
spec fn siblings_show(
    nodes: Seq<NodeModel>,
    forest: parents::Links,
    processes: Map<u32, ProcessInfo>,
    matched: Set<u32>,
    parent: Option<u32>,
) -> bool {
    &&& lists_below(node_pids(nodes), forest, parent)
    &&& forall|i: int| 0 <= i < nodes.len() ==> #[trigger] node_shows(nodes[i], forest, processes, matched)
}

proof fn lemma_children_show(
    node: NodeModel,
    forest: parents::Links,
    processes: Map<u32, ProcessInfo>,
    matched: Set<u32>,
)
    requires
        node_shows(node, forest, processes, matched),
    ensures
        siblings_show(node.children, forest, processes, matched, Some(node.pid)),
{
    assert forall|i: int| 0 <= i < node.children.len() implies #[trigger] node_shows(
        node.children[i],
        forest,
        processes,
        matched,
    ) by {
        let child = node.children[i];
    }
}

proof fn lemma_pids_in_prefix(nodes: Seq<NodeModel>, n: nat)
    requires
        0 < n <= nodes.len(),
    ensures
        pids_in(nodes.take(n as int)) == pids_in(nodes.take(n - 1)) + (seq![nodes[n - 1].pid] + pids_in(
            nodes[n - 1].children,
        )),
{
    let part = nodes.take(n as int);
    assert(part.drop_last() =~= nodes.take(n - 1));
    let node = part.last();
    assert(entries_of(part) == entries_of(part.drop_last()) + entries_of_node(node));
    assert(entries_of_node(node) == seq![(node.pid, node.ppid, node.command, node.is_match)] + entries_of(
        node.children,
    ));
    assert(pids_in(part) =~= pids_in(nodes.take(n - 1)) + (seq![nodes[n - 1].pid] + pids_in(nodes[n - 1].children)));
}

/// Everything in the first `n` of some siblings hangs below one of them.
proof fn lemma_held_is_below(
    nodes: Seq<NodeModel>,
    n: nat,
    forest: parents::Links,
    processes: Map<u32, ProcessInfo>,
    matched: Set<u32>,
    parent: Option<u32>,
    pid: u32,
) -> (r: (int, nat))
    requires
        n <= nodes.len(),
        siblings_show(nodes, forest, processes, matched, parent),
        pids_in(nodes.take(n as int)).contains(pid),
    ensures
        0 <= r.0 < n,
        parents::ancestor(forest, pid, r.1) == Some(nodes[r.0].pid),
        forest.contains_key(pid),
    decreases nodes, n,
{
    assert(nodes.take(0).len() == 0);
    assert(entries_of(nodes.take(0)) == Seq::<Entry>::empty());
    if n == 0 {
        assert(pids_in(nodes.take(0)) =~= Seq::<u32>::empty());
        (0, 0)
    } else {
        lemma_pids_in_prefix(nodes, n);
        let node = nodes[n - 1];
        let before = pids_in(nodes.take(n - 1));
        let below = pids_in(node.children);
        let tail = seq![node.pid] + below;
        let at = choose|at: int| 0 <= at < (before + tail).len() && (before + tail)[at] == pid;
        assert(node_pids(nodes)[n - 1] == node.pid);
        assert(node_pids(nodes).contains(node.pid));
        if at < before.len() {
            assert(before[at] == pid);
            lemma_held_is_below(nodes, (n - 1) as nat, forest, processes, matched, parent, pid)
        } else if at == before.len() {
            (n - 1, 0)
        } else {
            assert(below[at - before.len() - 1] == pid);
            lemma_children_show(node, forest, processes, matched);
            assert(node.children.take(node.children.len() as int) =~= node.children);
            let (i, steps) = lemma_held_is_below(
                node.children,
                node.children.len(),
                forest,
                processes,
                matched,
                Some(node.pid),
                pid,
            );
            assert(node_pids(node.children)[i] == node.children[i].pid);
            assert(node_pids(node.children).contains(node.children[i].pid));
            assert(parents::ancestor(forest, pid, steps + 1) == Some(node.pid));
            (n - 1, steps + 1)
        }
    }
}

/// What hangs below one of some siblings is in it.
proof fn lemma_below_is_held(
    nodes: Seq<NodeModel>,
    n: nat,
    forest: parents::Links,
    processes: Map<u32, ProcessInfo>,
    matched: Set<u32>,
    parent: Option<u32>,
    at: int,
    pid: u32,
    steps: nat,
)
    requires
        0 <= at < n <= nodes.len(),
        siblings_show(nodes, forest, processes, matched, parent),
        forest.contains_key(pid),
        parents::ancestor(forest, pid, steps) == Some(nodes[at].pid),
    ensures
        pids_in(nodes.take(n as int)).contains(pid),
    decreases nodes, n,
{
    lemma_pids_in_prefix(nodes, n);
    let node = nodes[n - 1];
    let before = pids_in(nodes.take(n - 1));
    let below = pids_in(node.children);
    let all = before + (seq![node.pid] + below);
    if at < n - 1 {
        lemma_below_is_held(nodes, (n - 1) as nat, forest, processes, matched, parent, at, pid, steps);
        let i = choose|i: int| 0 <= i < before.len() && before[i] == pid;
        assert(all[i] == pid);
    } else if steps == 0 {
        assert(all[before.len() as int] == pid);
    } else {
        parents::lemma_ancestor_add(forest, pid, (steps - 1) as nat, 1);
        let child = parents::ancestor(forest, pid, (steps - 1) as nat)->0;
        assert(parents::parent_in(forest, child) == Some(node.pid));
        lemma_children_show(node, forest, processes, matched);
        assert(node_pids(node.children).contains(child));
        let i = choose|i: int| 0 <= i < node.children.len() && node_pids(node.children)[i] == child;
        assert(node.children.take(node.children.len() as int) =~= node.children);
        lemma_below_is_held(
            node.children,
            node.children.len(),
            forest,
            processes,
            matched,
            Some(node.pid),
            i,
            pid,
            (steps - 1) as nat,
        );
        let k = choose|k: int| 0 <= k < below.len() && below[k] == pid;
        assert(all[before.len() + 1 + k] == pid);
    }
}

/// Nothing hangs below two siblings.
proof fn lemma_below_one(
    forest: parents::Links,
    parent: Option<u32>,
    left: u32,
    left_steps: nat,
    right: u32,
    right_steps: nat,
    pid: u32,
)
    requires
        forall|p: u32| !parents::on_cycle(forest, p),
        forest.contains_key(left),
        forest.contains_key(right),
        forest[left] == parent,
        forest[right] == parent,
        parents::ancestor(forest, pid, left_steps) == Some(left),
        parents::ancestor(forest, pid, right_steps) == Some(right),
        left_steps <= right_steps,
    ensures
        left == right,
{
    let more = (right_steps - left_steps) as nat;
    parents::lemma_ancestor_add(forest, pid, left_steps, more);
    if more > 0 {
        parents::lemma_ancestor_add(forest, left, 1, (more - 1) as nat);
        reveal_with_fuel(parents::ancestor, 2);
        assert(parents::ancestor(forest, left, 1) == parent);
        let p = parent->0;
        parents::lemma_ancestor_add(forest, p, (more - 1) as nat, 1);
        assert((more - 1) as nat + 1 == more);
        assert(parents::ancestor(forest, right, 1) == parent);
        assert(parents::ancestor(forest, p, more) == Some(p));
        assert(!parents::on_cycle(forest, p));
    }
}

/// No process is twice in the first `n` of some siblings.
proof fn lemma_held_once(
    nodes: Seq<NodeModel>,
    n: nat,
    forest: parents::Links,
    processes: Map<u32, ProcessInfo>,
    matched: Set<u32>,
    parent: Option<u32>,
)
    requires
        n <= nodes.len(),
        forall|p: u32| !parents::on_cycle(forest, p),
        siblings_show(nodes, forest, processes, matched, parent),
    ensures
        pids_in(nodes.take(n as int)).no_duplicates(),
    decreases nodes, n,
{
    assert(nodes.take(0).len() == 0);
    assert(entries_of(nodes.take(0)) == Seq::<Entry>::empty());
    if n > 0 {
        lemma_pids_in_prefix(nodes, n);
        let node = nodes[n - 1];
        let kids = node.children;
        let before = pids_in(nodes.take(n - 1));
        let below = pids_in(kids);
        let tail = seq![node.pid] + below;
        lemma_held_once(nodes, (n - 1) as nat, forest, processes, matched, parent);
        lemma_children_show(node, forest, processes, matched);
        assert(kids.take(kids.len() as int) =~= kids);
        lemma_held_once(kids, kids.len(), forest, processes, matched, Some(node.pid));
        assert forall|q: u32| #[trigger] tail.contains(q) implies exists|steps: nat| #[trigger]
            parents::ancestor(forest, q, steps) == Some(node.pid) by {
            if below.contains(q) {
                let (i, steps) = lemma_held_is_below(
                    kids,
                    kids.len(),
                    forest,
                    processes,
                    matched,
                    Some(node.pid),
                    q,
                );
                assert(node_pids(kids)[i] == kids[i].pid);
                assert(node_pids(kids).contains(kids[i].pid));
                assert(parents::ancestor(forest, q, steps + 1) == Some(node.pid));
            } else {
                let at = choose|at: int| 0 <= at < tail.len() && tail[at] == q;
                if at > 0 {
                    assert(below[at - 1] == q);
                }
                assert(parents::ancestor(forest, q, 0) == Some(node.pid));
            }
        }
        assert(!below.contains(node.pid)) by {
            if below.contains(node.pid) {
                let (i, steps) = lemma_held_is_below(
                    kids,
                    kids.len(),
                    forest,
                    processes,
                    matched,
                    Some(node.pid),
                    node.pid,
                );
                assert(node_pids(kids)[i] == kids[i].pid);
                assert(node_pids(kids).contains(kids[i].pid));
                assert(parents::ancestor(forest, node.pid, steps + 1) == Some(node.pid));
                assert(!parents::on_cycle(forest, node.pid));
            }
        }
        assert(node_pids(nodes)[n - 1] == node.pid);
        assert(node_pids(nodes).contains(node.pid));
        assert forall|q: u32| #[trigger] before.contains(q) implies !tail.contains(q) by {
            if tail.contains(q) {
                let (i, steps) = lemma_held_is_below(
                    nodes,
                    (n - 1) as nat,
                    forest,
                    processes,
                    matched,
                    parent,
                    q,
                );
                let other = choose|steps: nat| #[trigger] parents::ancestor(forest, q, steps) == Some(node.pid);
                assert(node_pids(nodes)[i] == nodes[i].pid);
                assert(node_pids(nodes).contains(nodes[i].pid));
                if steps <= other {
                    lemma_below_one(forest, parent, nodes[i].pid, steps, node.pid, other, q);
                } else {
                    lemma_below_one(forest, parent, node.pid, other, nodes[i].pid, steps, q);
                }
                assert(node_pids(nodes)[i] < node_pids(nodes)[n - 1]);
            }
        }
        let all = before + tail;
        assert forall|i: int, j: int| 0 <= i < all.len() && 0 <= j < all.len() && i != j implies all[i] != all[j] by {
            if i < before.len() {
                assert(before.contains(before[i]));
            } else {
                assert(tail.contains(tail[i - before.len()]));
            }
            if j < before.len() {
                assert(before.contains(before[j]));
            } else {
                assert(tail.contains(tail[j - before.len()]));
            }
            if i > before.len() {
                assert(below.contains(below[i - before.len() - 1]));
            }
            if j > before.len() {
                assert(below.contains(below[j - before.len() - 1]));
            }
        }
    }
}

/// The parents of relevant processes are relevant.
proof fn lemma_relevant_closed(processes: Map<u32, ProcessInfo>, matched: Set<u32>, pid: u32)
    requires
        is_relevant(processes, matched, pid),
        parents::parent_in(table_links(processes), pid) is Some,
    ensures
        is_relevant(processes, matched, parents::parent_in(table_links(processes), pid)->0),
{
    let links = table_links(processes);
    let (m, steps) = choose|m: u32, steps: nat|
        #![trigger parents::ancestor(table_links(processes), m, steps)]
        matched.contains(m) && processes.contains_key(m) && parents::ancestor(table_links(processes), m, steps)
            == Some(pid);
    assert(parents::ancestor(links, m, steps + 1) == parents::parent_in(links, pid));
}

/// A tree that shows a table's matches holds each matching process of the table
/// and each of their ancestors once, and nothing else.
pub proof fn tree_holds_relevant_once(tree: TreeModel, table: Seq<ProcessInfo>, matches: Seq<ProcessInfo>)
    requires
        tree_shows(tree, table, matches),
    ensures
        pids_in(tree.roots).no_duplicates(),
        forall|pid: u32| #[trigger]
            pids_in(tree.roots).contains(pid) <==> is_relevant(by_pid(table), pids_of(matches), pid),
{
    let processes = by_pid(table);
    let matched = pids_of(matches);
    let links = relevant_links(processes, matched);
    let forest = forest_of(processes, matched);
    let roots = tree.roots;
    assert(roots.take(roots.len() as int) =~= roots);
    assert forall|p: u32| !parents::on_cycle(forest, p) by {
        parents::cut_links_have_no_cycle(links, p);
    }
    lemma_held_once(roots, roots.len(), forest, processes, matched, None);
    assert forall|p: u32| forest.contains_key(p) <==> is_relevant(processes, matched, p) by {
        if is_relevant(processes, matched, p) {
            lemma_relevant_known(processes, matched, p);
        }
    }
    lemma_by_pid(table, 0);
    assert(forest.dom().subset_of(processes.dom()));
    vstd::set_lib::lemma_len_subset(forest.dom(), processes.dom());
    assert forall|p: u32| (#[trigger] parents::parent_in(forest, p)) is Some implies forest.contains_key(
        parents::parent_in(forest, p)->0,
    ) by {
        lemma_relevant_closed(processes, matched, p);
    }
    assert forall|pid: u32| #[trigger] pids_in(roots).contains(pid) <==> is_relevant(processes, matched, pid) by {
        if pids_in(roots).contains(pid) {
            lemma_held_is_below(roots, roots.len(), forest, processes, matched, None, pid);
        }
        if is_relevant(processes, matched, pid) {
            let steps = parents::lemma_has_top(forest, pid);
            let top = parents::ancestor(forest, pid, steps)->0;
            assert(node_pids(roots).contains(top));
            let i = choose|i: int| 0 <= i < roots.len() && node_pids(roots)[i] == top;
            lemma_below_is_held(roots, roots.len(), forest, processes, matched, None, i, pid, steps);
        }
    }
}

/// Relevant processes are in the table.
proof fn lemma_relevant_known(processes: Map<u32, ProcessInfo>, matched: Set<u32>, pid: u32)
    requires
        is_relevant(processes, matched, pid),
    ensures
        processes.contains_key(pid),
{
    let links = table_links(processes);
    let (m, steps) = choose|m: u32, steps: nat|
        #![trigger parents::ancestor(table_links(processes), m, steps)]
        matched.contains(m) && processes.contains_key(m) && parents::ancestor(table_links(processes), m, steps)
            == Some(pid);
    lemma_closed(links, processes.dom(), m, steps);
}

proof fn lemma_same_ascending(a: Seq<u32>, b: Seq<u32>)
    requires
        ascending::is_ascending(a),
        ascending::is_ascending(b),
        forall|pid: u32| a.contains(pid) <==> b.contains(pid),
    ensures
        a == b,
    decreases a.len(),
{
    if a.len() == 0 {
        if b.len() > 0 {
            assert(b.contains(b[0]));
        }
        assert(a =~= b);
    } else {
        assert(a.contains(a.last()));
        let j = choose|j: int| 0 <= j < b.len() && b[j] == a.last();
        assert(b.contains(b.last()));
        let i = choose|i: int| 0 <= i < a.len() && a[i] == b.last();
        assert(a.last() == b.last());
        let c = a.drop_last();
        let d = b.drop_last();
        assert forall|pid: u32| c.contains(pid) <==> d.contains(pid) by {
            if c.contains(pid) {
                let k = choose|k: int| 0 <= k < c.len() && c[k] == pid;
                assert(a[k] == pid && a[k] < a.last());
                assert(a.contains(pid));
                let n = choose|n: int| 0 <= n < b.len() && b[n] == pid;
                assert(d[n] == pid);
            }
            if d.contains(pid) {
                let k = choose|k: int| 0 <= k < d.len() && d[k] == pid;
                assert(b[k] == pid && b[k] < b.last());
                assert(b.contains(pid));
                let n = choose|n: int| 0 <= n < a.len() && a[n] == pid;
                assert(c[n] == pid);
            }
        }
        lemma_same_ascending(c, d);
        assert(a =~= c.push(a.last()));
        assert(b =~= d.push(b.last()));
    }
}

/// Two tables say the same of the processes of a forest.
spec fn agree(
    forest: parents::Links,
    processes: Map<u32, ProcessInfo>,
    matched: Set<u32>,
    others: Map<u32, ProcessInfo>,
    other_matched: Set<u32>,
) -> bool {
    forall|pid: u32| #[trigger]
        forest.contains_key(pid) ==> processes[pid]@ == others[pid]@ && matched.contains(pid) == other_matched.contains(
            pid,
        )
}

proof fn lemma_nodes_determined(
    nodes: Seq<NodeModel>,
    other_nodes: Seq<NodeModel>,
    forest: parents::Links,
    processes: Map<u32, ProcessInfo>,
    matched: Set<u32>,
    others: Map<u32, ProcessInfo>,
    other_matched: Set<u32>,
    parent: Option<u32>,
)
    requires
        siblings_show(nodes, forest, processes, matched, parent),
        siblings_show(other_nodes, forest, others, other_matched, parent),
        agree(forest, processes, matched, others, other_matched),
    ensures
        nodes == other_nodes,
    decreases nodes,
{
    lemma_same_ascending(node_pids(nodes), node_pids(other_nodes));
    assert(nodes.len() == node_pids(nodes).len());
    assert(other_nodes.len() == node_pids(other_nodes).len());
    assert forall|i: int| 0 <= i < nodes.len() implies nodes[i] == other_nodes[i] by {
        let node = nodes[i];
        let other = other_nodes[i];
        assert(node_pids(nodes)[i] == node.pid);
        assert(node_pids(other_nodes)[i] == other.pid);
        assert(node_pids(nodes).contains(node.pid));
        assert(forest.contains_key(node.pid));
        assert(node_shows(node, forest, processes, matched));
        assert(node_shows(other, forest, others, other_matched));
        lemma_children_show(node, forest, processes, matched);
        lemma_children_show(other, forest, others, other_matched);
        lemma_nodes_determined(
            node.children,
            other.children,
            forest,
            processes,
            matched,
            others,
            other_matched,
            Some(node.pid),
        );
    }
    assert(nodes =~= other_nodes);
}

/// A table and its matches have one tree.
pub proof fn tree_is_determined(
    tree: TreeModel,
    other: TreeModel,
    table: Seq<ProcessInfo>,
    matches: Seq<ProcessInfo>,
)
    requires
        tree_shows(tree, table, matches),
        tree_shows(other, table, matches),
    ensures
        tree == other,
{
    let processes = by_pid(table);
    let matched = pids_of(matches);
    let forest = forest_of(processes, matched);
    lemma_nodes_determined(tree.roots, other.roots, forest, processes, matched, processes, matched, None);
}

/// The entries of shown nodes are what the table says.
proof fn lemma_entries_show(
    nodes: Seq<NodeModel>,
    n: nat,
    forest: parents::Links,
    processes: Map<u32, ProcessInfo>,
    matched: Set<u32>,
    parent: Option<u32>,
    at: int,
)
    requires
        n <= nodes.len(),
        siblings_show(nodes, forest, processes, matched, parent),
        0 <= at < entries_of(nodes.take(n as int)).len(),
    ensures
        ({
            let e = entries_of(nodes.take(n as int))[at];
            (e.0, e.1, e.2) == processes[e.0]@ && e.3 == matched.contains(e.0)
        }),
    decreases nodes, n,
{
    let part = nodes.take(n as int);
    assert(part.len() == n);
    if n > 0 {
        let node = nodes[n - 1];
        let before = entries_of(nodes.take(n - 1));
        assert(part.drop_last() =~= nodes.take(n - 1));
        assert(part.last() == node);
        assert(entries_of(part) == before + entries_of_node(node));
        assert(entries_of_node(node) == seq![(node.pid, node.ppid, node.command, node.is_match)] + entries_of(
            node.children,
        ));
        assert(node_shows(node, forest, processes, matched));
        if at < before.len() {
            lemma_entries_show(nodes, (n - 1) as nat, forest, processes, matched, parent, at);
        } else if at > before.len() {
            lemma_children_show(node, forest, processes, matched);
            assert(node.children.take(node.children.len() as int) =~= node.children);
            lemma_entries_show(
                node.children,
                node.children.len(),
                forest,
                processes,
                matched,
                Some(node.pid),
                at - before.len() - 1,
            );
        }
    }
}

/// Trees with the same entries are the same but for the number in their title:
/// a menu that shows the one shows the other.
pub proof fn same_entries_mean_same_nodes(
    tree: TreeModel,
    table: Seq<ProcessInfo>,
    matches: Seq<ProcessInfo>,
    other: TreeModel,
    other_table: Seq<ProcessInfo>,
    other_matches: Seq<ProcessInfo>,
)
    requires
        tree_shows(tree, table, matches),
        tree_shows(other, other_table, other_matches),
        entries_of(tree.roots) == entries_of(other.roots),
    ensures
        tree.roots == other.roots,
{
    let processes = by_pid(table);
    let matched = pids_of(matches);
    let forest = forest_of(processes, matched);
    let others = by_pid(other_table);
    let other_matched = pids_of(other_matches);
    let other_forest = forest_of(others, other_matched);
    tree_holds_relevant_once(tree, table, matches);
    tree_holds_relevant_once(other, other_table, other_matches);
    assert(pids_in(tree.roots) == pids_in(other.roots));
    assert(tree.roots.take(tree.roots.len() as int) =~= tree.roots);
    assert(other.roots.take(other.roots.len() as int) =~= other.roots);
    assert forall|pid: u32| #[trigger] is_relevant(processes, matched, pid) implies {
        &&& is_relevant(others, other_matched, pid)
        &&& processes[pid]@ == others[pid]@
        &&& matched.contains(pid) == other_matched.contains(pid)
    } by {
        assert(pids_in(tree.roots).contains(pid));
        let at = choose|at: int| 0 <= at < pids_in(tree.roots).len() && pids_in(tree.roots)[at] == pid;
        lemma_entries_show(tree.roots, tree.roots.len(), forest, processes, matched, None, at);
        lemma_entries_show(other.roots, other.roots.len(), other_forest, others, other_matched, None, at);
        assert(entries_of(tree.roots)[at].0 == pid);
    }
    assert forall|pid: u32| #[trigger] is_relevant(others, other_matched, pid) implies is_relevant(
        processes,
        matched,
        pid,
    ) by {
        assert(pids_in(other.roots).contains(pid));
    }
    let links = relevant_links(processes, matched);
    let other_links = relevant_links(others, other_matched);
    assert forall|pid: u32| links.contains_key(pid) <==> other_links.contains_key(pid) by {
        if is_relevant(processes, matched, pid) {
            lemma_relevant_known(processes, matched, pid);
            lemma_relevant_known(others, other_matched, pid);
        }
        if is_relevant(others, other_matched, pid) {
            lemma_relevant_known(processes, matched, pid);
            lemma_relevant_known(others, other_matched, pid);
        }
    }
    assert forall|pid: u32| links.contains_key(pid) implies links[pid] == other_links[pid] by {
        lemma_link(processes, matched, pid);
        lemma_link(others, other_matched, pid);
    }
    assert(links =~= other_links);
    assert forall|pid: u32| #[trigger] forest.contains_key(pid) implies is_relevant(processes, matched, pid) by {}
    lemma_nodes_determined(tree.roots, other.roots, forest, processes, matched, others, other_matched, None);
}

/// The link of a relevant process: its parent, where that is relevant and not
/// the first process.
proof fn lemma_link(processes: Map<u32, ProcessInfo>, matched: Set<u32>, pid: u32)
    requires
        is_relevant(processes, matched, pid),
    ensures
        relevant_links(processes, matched)[pid] == (if processes[pid].ppid > 1 && is_relevant(
            processes,
            matched,
            processes[pid].ppid,
        ) {
            Some(processes[pid].ppid)
        } else {
            None
        }),
{
    let ppid = processes[pid].ppid;
    lemma_relevant_known(processes, matched, pid);
    if is_relevant(processes, matched, ppid) {
        lemma_relevant_known(processes, matched, ppid);
    }
    if ppid > 1 && processes.contains_key(ppid) {
        lemma_relevant_closed(processes, matched, pid);
    }
}

/// A table holds every process that is listed, as it is listed last.
pub proof fn table_holds_the_last_of_each(table: Seq<ProcessInfo>, pid: u32)
    ensures
        by_pid(table).contains_key(pid) <==> exists|i: int| 0 <= i < table.len() && (#[trigger] table[i]).pid == pid,
        by_pid(table).contains_key(pid) ==> exists|i: int|
            0 <= i < table.len() && (#[trigger] table[i]) == by_pid(table)[pid] && forall|j: int|
                i < j < table.len() ==> (#[trigger] table[j]).pid != pid,
        by_pid(table).contains_key(pid) ==> by_pid(table)[pid].pid == pid,
    decreases table.len(),
{
    if table.len() > 0 {
        let init = table.drop_last();
        let n = table.len() - 1;
        table_holds_the_last_of_each(init, pid);
        if table[n].pid == pid {
            assert(by_pid(table)[pid] == table[n]);
        } else {
            if by_pid(init).contains_key(pid) {
                let i = choose|i: int|
                    0 <= i < init.len() && (#[trigger] init[i]) == by_pid(init)[pid] && forall|j: int|
                        i < j < init.len() ==> (#[trigger] init[j]).pid != pid;
                assert(table[i] == init[i]);
                assert forall|j: int| i < j < table.len() implies (#[trigger] table[j]).pid != pid by {
                    if j < n {
                        assert(init[j] == table[j]);
                    }
                }
            }
            if exists|i: int| 0 <= i < table.len() && (#[trigger] table[i]).pid == pid {
                let i = choose|i: int| 0 <= i < table.len() && (#[trigger] table[i]).pid == pid;
                assert(init[i] == table[i]);
            }
        }
    }
}

/// The processes that are shown are those that match, and from each of them
/// upwards the parents that the table lists, up to the first process, which is not
/// shown as one.
pub proof fn shown_are_matches_and_their_parents(processes: Map<u32, ProcessInfo>, matched: Set<u32>, pid: u32)
    requires
        processes.contains_key(pid),
    ensures
        matched.contains(pid) ==> is_relevant(processes, matched, pid),
        is_relevant(processes, matched, pid) && processes[pid].ppid > 1 && processes.contains_key(processes[pid].ppid)
            ==> is_relevant(processes, matched, processes[pid].ppid),
        is_relevant(processes, matched, pid) && !matched.contains(pid) ==> exists|child: u32| #[trigger]
            processes.contains_key(child) && processes[child].ppid == pid && is_relevant(processes, matched, child),
        pid <= 1 && !matched.contains(pid) ==> !is_relevant(processes, matched, pid),
{
    let links = table_links(processes);
    if matched.contains(pid) {
        assert(parents::ancestor(links, pid, 0) == Some(pid));
    }
    if is_relevant(processes, matched, pid) {
        let (m, steps) = choose|m: u32, steps: nat|
            #![trigger parents::ancestor(table_links(processes), m, steps)]
            matched.contains(m) && processes.contains_key(m) && parents::ancestor(table_links(processes), m, steps)
                == Some(pid);
        let above = processes[pid].ppid;
        if above > 1 && processes.contains_key(above) {
            assert(parents::parent_in(links, pid) == Some(above));
            assert(parents::ancestor(links, m, steps + 1) == Some(above));
        }
        if !matched.contains(pid) {
            assert(steps > 0);
            let child = parents::ancestor(links, m, (steps - 1) as nat)->0;
            assert(parents::ancestor(links, m, (steps - 1) as nat) == Some(child));
            assert(is_relevant(processes, matched, child));
            lemma_relevant_known(processes, matched, child);
            assert(parents::parent_in(links, child) == Some(pid));
            assert(processes.contains_key(child) && processes[child].ppid == pid);
        }
    }
}

/// A process hangs below the parent that the table lists for it, and nowhere else.
pub proof fn children_hang_below_their_parents(
    node: NodeModel,
    processes: Map<u32, ProcessInfo>,
    matched: Set<u32>,
    i: int,
)
    requires
        node_shows(node, forest_of(processes, matched), processes, matched),
        0 <= i < node.children.len(),
        processes.contains_key(node.children[i].pid) ==> processes[node.children[i].pid].pid == node.children[i].pid,
    ensures
        node.children[i].ppid == node.pid,
        node.pid > 1,
        node.children[i].is_match <==> matched.contains(node.children[i].pid),
        node.is_match <==> matched.contains(node.pid),
{
    let forest = forest_of(processes, matched);
    let child = node.children[i];
    assert(node_shows(child, forest, processes, matched));
    assert(node_pids(node.children)[i] == child.pid);
    assert(node_pids(node.children).contains(child.pid));
    assert(forest[child.pid] == Some(node.pid));
}

/// A process that is shown and has no parent in the table stands at the top.
pub proof fn processes_without_parent_stand_at_the_top(
    tree: TreeModel,
    table: Seq<ProcessInfo>,
    matches: Seq<ProcessInfo>,
    pid: u32,
)
    requires
        tree_shows(tree, table, matches),
        is_relevant(by_pid(table), pids_of(matches), pid),
        by_pid(table)[pid].ppid <= 1 || !by_pid(table).contains_key(by_pid(table)[pid].ppid),
    ensures
        node_pids(tree.roots).contains(pid),
        tree.match_count == matches.len(),
{
    let processes = by_pid(table);
    let matched = pids_of(matches);
    lemma_relevant_known(processes, matched, pid);
    let forest = forest_of(processes, matched);
    assert(forest.contains_key(pid));
    assert(forest[pid] is None);
}

/// The numbers that mark a match are those of the matching processes.
pub proof fn matches_go_by_their_numbers(matches: Seq<ProcessInfo>, pid: u32)
    ensures
        pids_of(matches).contains(pid) <==> exists|i: int| 0 <= i < matches.len() && (#[trigger] matches[i]).pid == pid,
{
    let numbers = matches.map_values(|p: ProcessInfo| p.pid);
    if pids_of(matches).contains(pid) {
        let i = choose|i: int| 0 <= i < numbers.len() && numbers[i] == pid;
        assert(matches[i].pid == pid);
    }
    if exists|i: int| 0 <= i < matches.len() && (#[trigger] matches[i]).pid == pid {
        let i = choose|i: int| 0 <= i < matches.len() && (#[trigger] matches[i]).pid == pid;
        assert(numbers[i] == pid);
    }
}

} // verus!
