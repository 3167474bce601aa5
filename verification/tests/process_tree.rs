use no_sleep_till_done::parents::break_parent_cycles;
use no_sleep_till_done::process_menu::process_tree_signature;
use no_sleep_till_done::process_tree::{build_process_tree, ProcessTreeNode};
use no_sleep_till_done::system::ProcessInfo;
use std::collections::HashMap;

fn process(pid: u32, ppid: u32, command: &str) -> ProcessInfo {
    ProcessInfo {
        pid,
        ppid,
        command: command.into(),
    }
}

fn pids(nodes: &[ProcessTreeNode]) -> Vec<u32> {
    nodes.iter().map(|node| node.process.pid).collect()
}

#[test]
fn process_tree_deduplicates_shared_ancestors_and_sorts_nodes() {
    let table = vec![
        process(40, 20, "worker-b"),
        process(10, 1, "shell"),
        process(30, 20, "worker-a"),
        process(20, 10, "runner"),
    ];
    let matches = vec![table[0].clone(), table[2].clone()];

    let tree = build_process_tree(&table, &matches);

    assert_eq!(tree.match_count, 2);
    assert_eq!(pids(&tree.roots), vec![10]);
    assert!(!tree.roots[0].is_match);
    assert_eq!(pids(&tree.roots[0].children), vec![20]);
    assert_eq!(pids(&tree.roots[0].children[0].children), vec![30, 40]);
    assert!(tree.roots[0].children[0]
        .children
        .iter()
        .all(|node| node.is_match));
}

#[test]
fn process_tree_uses_highest_available_roots_and_omits_unrelated_descendants() {
    let table = vec![
        process(60, 1, "direct-b"),
        process(30, 20, "direct-a"),
        process(20, 10, "ancestor"),
        process(10, 1, "root"),
        process(40, 20, "unrelated-child"),
        process(50, 30, "unrelated-grandchild"),
    ];
    let matches = vec![table[0].clone(), table[1].clone()];

    let tree = build_process_tree(&table, &matches);

    assert_eq!(pids(&tree.roots), vec![10, 60]);
    assert_eq!(pids(&tree.roots[0].children), vec![20]);
    assert_eq!(pids(&tree.roots[0].children[0].children), vec![30]);
    assert!(!process_tree_signature(&tree)
        .iter()
        .any(|(pid, _, _, _)| *pid == 40 || *pid == 50));
}

#[test]
fn process_tree_breaks_parent_cycles_without_recursing_forever() {
    let table = vec![process(20, 30, "direct"), process(30, 20, "cycle")];
    let tree = build_process_tree(&table, &[table[0].clone()]);

    assert_eq!(pids(&tree.roots), vec![30]);
    assert_eq!(pids(&tree.roots[0].children), vec![20]);
    assert!(tree.roots[0].children[0].children.is_empty());
    assert!(tree.roots[0].children[0].is_match);
}

#[test]
fn process_tree_of_nothing_is_empty() {
    let tree = build_process_tree(&[], &[]);
    assert_eq!(tree.match_count, 0);
    assert!(tree.roots.is_empty());
}

#[test]
fn process_tree_skips_matches_that_are_not_in_the_table() {
    let table = vec![process(10, 1, "shell")];
    let tree = build_process_tree(&table, &[process(99, 10, "gone"), process(10, 1, "shell")]);
    assert_eq!(tree.match_count, 2);
    assert_eq!(pids(&tree.roots), vec![10]);
    assert!(tree.roots[0].children.is_empty());
}

#[test]
fn process_tree_takes_the_later_of_two_entries() {
    let table = vec![process(10, 1, "old"), process(10, 5, "new"), process(5, 1, "parent")];
    let tree = build_process_tree(&table, &[table[0].clone()]);
    assert_eq!(pids(&tree.roots), vec![5]);
    assert_eq!(tree.roots[0].children[0].process.command, "new");
}

#[test]
fn process_tree_does_not_climb_above_the_first_process() {
    let table = vec![process(1, 0, "launchd"), process(0, 0, "kernel"), process(7, 1, "a"), process(8, 0, "b")];
    let tree = build_process_tree(&table, &[table[2].clone(), table[3].clone()]);
    assert_eq!(pids(&tree.roots), vec![7, 8]);
}

#[test]
fn process_tree_keeps_its_own_parent_out() {
    let table = vec![process(9, 9, "self")];
    let tree = build_process_tree(&table, &[table[0].clone()]);
    assert_eq!(pids(&tree.roots), vec![9]);
    assert!(tree.roots[0].children.is_empty());
}

#[test]
fn process_tree_holds_each_relevant_process_once() {
    let table = vec![
        process(2, 3, "a"),
        process(3, 4, "b"),
        process(4, 2, "c"),
        process(5, 4, "d"),
        process(6, 5, "e"),
        process(7, 1, "f"),
    ];
    let tree = build_process_tree(&table, &[table[4].clone(), table[0].clone()]);
    let mut seen: Vec<u32> = process_tree_signature(&tree).iter().map(|entry| entry.0).collect();
    seen.sort_unstable();
    assert_eq!(seen, vec![2, 3, 4, 5, 6]);
    assert_eq!(pids(&tree.roots), vec![4]);
    assert_eq!(pids(&tree.roots[0].children), vec![3, 5]);
}

#[test]
fn cycles_are_cut_at_their_greatest_process() {
    let mut links: HashMap<u32, Option<u32>> = HashMap::new();
    for (pid, parent) in [
        (1, Some(2)),
        (2, Some(3)),
        (3, Some(1)),
        (4, Some(1)),
        (5, Some(5)),
        (6, None),
        (7, Some(6)),
        (8, Some(9)),
    ] {
        links.insert(pid, parent);
    }
    break_parent_cycles(&mut links);
    assert_eq!(links[&1], Some(2));
    assert_eq!(links[&2], Some(3));
    assert_eq!(links[&3], None);
    assert_eq!(links[&4], Some(1));
    assert_eq!(links[&5], None);
    assert_eq!(links[&6], None);
    assert_eq!(links[&7], Some(6));
    assert_eq!(links[&8], Some(9));
    assert_eq!(links.len(), 8);
}
