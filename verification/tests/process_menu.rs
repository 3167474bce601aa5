use no_sleep_till_done::process_menu::{
    build_process_submenu, process_menu_label, process_menu_variant, process_tree_changed, process_tree_signature,
    truncate_label, waiting_processes_status, waiting_processes_title, ProcessDisplayState, ProcessMenuItem,
    ProcessMenuVariant,
};
use no_sleep_till_done::process_tree::{build_process_tree, ProcessTree, ProcessTreeNode};
use no_sleep_till_done::system::ProcessInfo;

fn process(pid: u32, ppid: u32, command: &str) -> ProcessInfo {
    ProcessInfo {
        pid,
        ppid,
        command: command.into(),
    }
}

#[test]
fn process_menu_labels_mark_matches_and_truncate_unicode_safely() {
    let node = ProcessTreeNode {
        process: process(123, 1, &"é".repeat(120)),
        is_match: true,
        children: Vec::new(),
    };

    let label = process_menu_label(&node);

    assert_eq!(label.chars().count(), 100);
    assert!(label.starts_with("* [123] "));
    assert!(label.ends_with("..."));
}

#[test]
fn waiting_status_uses_singular_and_plural_wording() {
    assert_eq!(waiting_processes_status(1), "waiting for 1 process");
    assert_eq!(waiting_processes_status(2), "waiting for 2 processes");
}

#[test]
fn waiting_words_for_other_numbers() {
    assert_eq!(waiting_processes_status(0), "waiting for 0 processes");
    assert_eq!(waiting_processes_title(0), "Waiting Processes (0)");
    assert_eq!(waiting_processes_title(12), "Waiting Processes (12)");
}

#[test]
fn labels_are_cut_with_dots() {
    assert_eq!(truncate_label("abcdef", 6), "abcdef");
    assert_eq!(truncate_label("abcdefg", 6), "abc...");
    assert_eq!(truncate_label("abcdefg", 4), "a...");
    assert_eq!(truncate_label("abcdefg", 3), "...");
    assert_eq!(truncate_label("abcdefg", 2), "..");
    assert_eq!(truncate_label("abcdefg", 0), "");
    assert_eq!(truncate_label("", 0), "");
}

#[test]
fn label_of_an_ancestor_has_no_mark() {
    let node = ProcessTreeNode {
        process: process(7, 1, "zsh -l"),
        is_match: false,
        children: Vec::new(),
    };
    assert_eq!(process_menu_label(&node), "[7] zsh -l");
}

#[test]
fn submenu_follows_the_tree() {
    let table = vec![process(10, 1, "shell"), process(20, 10, "agent"), process(30, 1, "agent")];
    let tree = build_process_tree(&table, &[table[1].clone(), table[2].clone()]);
    let submenu = build_process_submenu(&tree);
    assert_eq!(submenu.title, "Waiting Processes (2)");
    assert_eq!(
        submenu.items,
        vec![
            ProcessMenuItem::Group(
                "[10] shell".into(),
                vec![ProcessMenuItem::Process("* [20] agent".into())]
            ),
            ProcessMenuItem::Process("* [30] agent".into()),
        ]
    );
}

#[test]
fn signature_lists_each_node_before_what_is_below_it() {
    let table = vec![process(10, 1, "shell"), process(20, 10, "agent"), process(15, 1, "agent")];
    let tree = build_process_tree(&table, &[table[1].clone(), table[2].clone()]);
    assert_eq!(
        process_tree_signature(&tree),
        vec![
            (10, 1, "shell".to_string(), false),
            (20, 10, "agent".to_string(), true),
            (15, 1, "agent".to_string(), true),
        ]
    );
    let same = build_process_tree(&table, &[table[2].clone(), table[1].clone()]);
    assert!(!process_tree_changed(&tree, &same));
    let other = build_process_tree(&table, &[table[2].clone()]);
    assert!(process_tree_changed(&tree, &other));
    let renamed = vec![process(10, 1, "shell"), process(20, 10, "agent 2"), process(15, 1, "agent")];
    let changed = build_process_tree(&renamed, &[renamed[1].clone(), renamed[2].clone()]);
    assert!(process_tree_changed(&tree, &changed));
}

#[test]
fn variants_of_the_process_menu() {
    let tree = ProcessTree {
        match_count: 0,
        roots: Vec::new(),
    };
    assert_eq!(
        process_menu_variant(&ProcessDisplayState::Hidden),
        ProcessMenuVariant::Hidden
    );
    assert_eq!(
        process_menu_variant(&ProcessDisplayState::Waiting(tree.copied())),
        ProcessMenuVariant::Waiting
    );
    assert_eq!(
        process_menu_variant(&ProcessDisplayState::Unavailable),
        ProcessMenuVariant::Unavailable
    );
    assert_eq!(
        ProcessDisplayState::Waiting(tree.copied()).copied(),
        ProcessDisplayState::Waiting(tree)
    );
}
