//! How the processes that are waited for are shown in the menu.
use vstd::prelude::*;
use vstd::slice::slice_subrange;
use vstd::string::StringExecFns;

use crate::number;
use crate::number::push_decimal;
use crate::process_tree;
use crate::process_tree::{ProcessTree, ProcessTreeNode};
use crate::system::ProcessInfo;
use crate::text;
use crate::text::{chars_of, push_chars, str_eq};

verus! {

/// The longest label of a process in the menu, in characters.
pub const PROCESS_LABEL_MAX_CHARS: usize = 100;

/// What the menu shows of the processes that are waited for.
#[derive(Debug, Eq, PartialEq)]
pub enum ProcessDisplayState {
    Hidden,
    Waiting(ProcessTree),
    Unavailable,
}

/// What a display state holds.
pub enum DisplayModel {
    Hidden,
    Waiting(process_tree::TreeModel),
    Unavailable,
}

#[derive(Clone, Copy, Debug, Eq, PartialEq, Structural)]
pub enum ProcessMenuVariant {
    Hidden,
    Waiting,
    Unavailable,
}

impl ProcessDisplayState {
    pub open spec fn model(self) -> DisplayModel {
        match self {
            ProcessDisplayState::Hidden => DisplayModel::Hidden,
            ProcessDisplayState::Waiting(tree) => DisplayModel::Waiting(tree.model()),
            ProcessDisplayState::Unavailable => DisplayModel::Unavailable,
        }
    }

    /// Another state that shows the same.
    pub fn copied(&self) -> (r: ProcessDisplayState)
        ensures
            r.model() == self.model(),
    {
        match self {
            ProcessDisplayState::Hidden => ProcessDisplayState::Hidden,
            ProcessDisplayState::Waiting(tree) => ProcessDisplayState::Waiting(tree.copied()),
            ProcessDisplayState::Unavailable => ProcessDisplayState::Unavailable,
        }
    }
}

/// The form that a display state takes in the menu.
pub open spec fn variant_of(state: DisplayModel) -> ProcessMenuVariant {
    match state {
        DisplayModel::Hidden => ProcessMenuVariant::Hidden,
        DisplayModel::Waiting(_) => ProcessMenuVariant::Waiting,
        DisplayModel::Unavailable => ProcessMenuVariant::Unavailable,
    }
}

pub fn process_menu_variant(state: &ProcessDisplayState) -> (variant: ProcessMenuVariant)
    ensures
        variant == variant_of(state.model()),
{
    match state {
        ProcessDisplayState::Hidden => ProcessMenuVariant::Hidden,
        ProcessDisplayState::Waiting(_) => ProcessMenuVariant::Waiting,
        ProcessDisplayState::Unavailable => ProcessMenuVariant::Unavailable,
    }
}

/// The entries of a tree in the order of the menu, by which a change is noticed.
pub type ProcessTreeSignature = Vec<(u32, u32, String, bool)>;

/// What a signature holds.
pub open spec fn signature_entries(signature: Seq<(u32, u32, String, bool)>) -> Seq<process_tree::Entry> {
    signature.map_values(|e: (u32, u32, String, bool)| (e.0, e.1, e.2@, e.3))
}

/// Adds the entries of a node and of everything below it.
fn append_node_signature(node: &ProcessTreeNode, signature: &mut ProcessTreeSignature)
    ensures
        signature_entries(final(signature)@) == signature_entries(old(signature)@) + process_tree::entries_of_node(
            node.model(),
        ),
    decreases node,
{
    let ghost before = signature_entries(signature@);
    let ghost entry = (node.process.pid, node.process.ppid, node.process.command@, node.is_match);
    signature.push((node.process.pid, node.process.ppid, node.process.command.clone(), node.is_match));
    assert(signature_entries(signature@) =~= before.push(entry));
    append_node_signatures(&node.children, signature);
    assert(before.push(entry) + process_tree::entries_of(process_tree::models(node.children@)) =~= before
        + process_tree::entries_of_node(node.model())) by {
        assert(process_tree::entries_of_node(node.model()) == seq![entry] + process_tree::entries_of(
            process_tree::models(node.children@),
        ));
    }
}

/// Adds the entries of some nodes and of everything below them.
fn append_node_signatures(nodes: &Vec<ProcessTreeNode>, signature: &mut ProcessTreeSignature)
    ensures
        signature_entries(final(signature)@) == signature_entries(old(signature)@) + process_tree::entries_of(
            process_tree::models(nodes@),
        ),
    decreases nodes,
{
    let ghost before = signature_entries(signature@);
    let ghost all = process_tree::models(nodes@);
    let mut i: usize = 0;
    assert(all.take(0).len() == 0);
    assert(before =~= before + process_tree::entries_of(all.take(0)));
    while i < nodes.len()
        invariant
            i <= nodes@.len(),
            all == process_tree::models(nodes@),
            signature_entries(signature@) == before + process_tree::entries_of(all.take(i as int)),
        decreases nodes@.len() - i,
    {
        append_node_signature(&nodes[i], signature);
        proof {
            let part = all.take(i + 1);
            assert(part.drop_last() =~= all.take(i as int));
            assert(part.last() == nodes@[i as int].model());
            assert(process_tree::entries_of(part) == process_tree::entries_of(part.drop_last())
                + process_tree::entries_of_node(part.last()));
            assert(signature_entries(signature@) =~= before + process_tree::entries_of(part));
        }
        i = i + 1;
    }
    assert(all.take(i as int) =~= all);
}

/// The signature of a tree.
pub fn process_tree_signature(tree: &ProcessTree) -> (signature: ProcessTreeSignature)
    ensures
        signature_entries(signature@) == process_tree::entries_of(tree.model().roots),
{
    let mut signature: ProcessTreeSignature = Vec::new();
    assert(signature_entries(signature@) =~= Seq::<process_tree::Entry>::empty());
    append_node_signatures(&tree.roots, &mut signature);
    assert(signature_entries(signature@) =~= process_tree::entries_of(tree.model().roots));
    signature
}

/// Whether two signatures hold the same.
fn same_signature(left: &ProcessTreeSignature, right: &ProcessTreeSignature) -> (r: bool)
    ensures
        r == (signature_entries(left@) == signature_entries(right@)),
{
    let ghost l = signature_entries(left@);
    let ghost r = signature_entries(right@);
    if left.len() != right.len() {
        assert(l.len() != r.len());
        return false;
    }
    let mut i: usize = 0;
    while i < left.len()
        invariant
            i <= left@.len(),
            left@.len() == right@.len(),
            l == signature_entries(left@),
            r == signature_entries(right@),
            forall|j: int| 0 <= j < i ==> l[j] == r[j],
        decreases left@.len() - i,
    {
        let a = &left[i];
        let b = &right[i];
        if a.0 != b.0 || a.1 != b.1 || a.3 != b.3 || !str_eq(a.2.as_str(), b.2.as_str()) {
            assert(l[i as int] != r[i as int]);
            return false;
        }
        assert(l[i as int] == r[i as int]);
        i = i + 1;
    }
    assert(l =~= r);
    true
}

/// Whether two trees would be shown differently below the title.
pub open spec fn nodes_differ(previous: process_tree::TreeModel, current: process_tree::TreeModel) -> bool {
    process_tree::entries_of(previous.roots) != process_tree::entries_of(current.roots)
}

/// Whether the tree that is shown has to be shown anew.
pub fn process_tree_changed(previous: &ProcessTree, current: &ProcessTree) -> (r: bool)
    ensures
        r == nodes_differ(previous.model(), current.model()),
{
    let before = process_tree_signature(previous);
    let now = process_tree_signature(current);
    !same_signature(&before, &now)
}

/// The title over the processes.
pub open spec fn title_text(count: nat) -> Seq<char> {
    "Waiting Processes ("@ + number::decimal(count) + ")"@
}

pub fn waiting_processes_title(count: usize) -> (s: String)
    ensures
        s@ == title_text(count as nat),
{
    let mut s = String::new();
    s.append("Waiting Processes (");
    push_decimal(&mut s, count as u128);
    s.append(")");
    assert(s@ =~= title_text(count as nat));
    s
}

/// The words for the number of processes that are waited for.
pub open spec fn waiting_text(count: nat) -> Seq<char> {
    if count == 1 {
        "waiting for 1 process"@
    } else {
        "waiting for "@ + number::decimal(count) + " processes"@
    }
}

pub fn waiting_processes_status(count: usize) -> (s: String)
    ensures
        s@ == waiting_text(count as nat),
{
    if count == 1 {
        return "waiting for 1 process".to_owned();
    }
    let mut s = String::new();
    s.append("waiting for ");
    push_decimal(&mut s, count as u128);
    s.append(" processes");
    assert(s@ =~= waiting_text(count as nat));
    s
}

/// At most `max` characters of a text; dots stand for what is left out.
pub open spec fn truncated(value: Seq<char>, max: nat) -> Seq<char> {
    if value.len() <= max {
        value
    } else if max <= 3 {
        Seq::new(max, |i: int| '.')
    } else {
        value.take(max - 3) + "..."@
    }
}

pub fn truncate_label(value: &str, max_chars: usize) -> (s: String)
    ensures
        s@ == truncated(value@, max_chars as nat),
{
    let v = chars_of(value);
    if v.len() <= max_chars {
        return value.to_owned();
    }
    let mut s = String::new();
    if max_chars <= 3 {
        let mut i: usize = 0;
        while i < max_chars
            invariant
                i <= max_chars,
                s@ =~= Seq::new(i as nat, |k: int| '.'),
            decreases max_chars - i,
        {
            s.push('.');
            i = i + 1;
        }
        assert(s@ =~= truncated(value@, max_chars as nat));
        return s;
    }
    let head = slice_subrange(v.as_slice(), 0, max_chars - 3);
    push_chars(&mut s, head);
    s.append("...");
    assert(s@ =~= truncated(value@, max_chars as nat));
    s
}

/// The label of a process: a mark where it matches, its number and its command.
pub open spec fn label_text(node: process_tree::NodeModel) -> Seq<char> {
    let mark = if node.is_match {
        "* "@
    } else {
        ""@
    };
    truncated(
        mark + "["@ + number::decimal(node.pid as nat) + "] "@ + node.command,
        PROCESS_LABEL_MAX_CHARS as nat,
    )
}

pub fn process_menu_label(node: &ProcessTreeNode) -> (s: String)
    ensures
        s@ == label_text(node.model()),
{
    let mut s = String::new();
    s.append(
        if node.is_match {
            "* "
        } else {
            ""
        },
    );
    s.append("[");
    push_decimal(&mut s, node.process.pid as u128);
    s.append("] ");
    s.append(node.process.command.as_str());
    let ghost mark = if node.is_match {
        "* "@
    } else {
        ""@
    };
    assert(s@ =~= mark + "["@ + number::decimal(node.process.pid as nat) + "] "@ + node.process.command@);
    truncate_label(s.as_str(), PROCESS_LABEL_MAX_CHARS)
}

/// No label is longer than the menu allows.
pub proof fn labels_are_bounded(node: process_tree::NodeModel)
    ensures
        label_text(node).len() <= PROCESS_LABEL_MAX_CHARS,
{
    reveal_strlit("...");
}

/// An item of the process menu.
#[derive(Debug, Eq, PartialEq)]
pub enum ProcessMenuItem {
    /// A process with nothing below it.
    Process(String),
    /// A process with the items below it.
    Group(String, Vec<ProcessMenuItem>),
}

/// What an item holds.
#[verifier::ext_equal]
pub enum ItemModel {
    Process(Seq<char>),
    Group(Seq<char>, Seq<ItemModel>),
}

impl ProcessMenuItem {
    pub open spec fn model(self) -> ItemModel
        decreases self,
    {
        match self {
            ProcessMenuItem::Process(label) => ItemModel::Process(label@),
            ProcessMenuItem::Group(label, items) => ItemModel::Group(label@, item_models(items@)),
        }
    }
}

/// What some items hold.
pub open spec fn item_models(items: Seq<ProcessMenuItem>) -> Seq<ItemModel>
    decreases items,
{
    Seq::new(
        items.len(),
        |i: int|
            if 0 <= i < items.len() {
                items[i].model()
            } else {
                arbitrary()
            },
    )
}

/// The item that shows a node.
pub open spec fn item_for(node: process_tree::NodeModel) -> ItemModel
    decreases node,
{
    if node.children.len() == 0 {
        ItemModel::Process(label_text(node))
    } else {
        ItemModel::Group(label_text(node), items_for(node.children))
    }
}

/// The items that show some nodes, in their order.
pub open spec fn items_for(nodes: Seq<process_tree::NodeModel>) -> Seq<ItemModel>
    decreases nodes,
{
    Seq::new(
        nodes.len(),
        |i: int|
            if 0 <= i < nodes.len() {
                item_for(nodes[i])
            } else {
                arbitrary()
            },
    )
}

/// Builds the item that shows a node.
fn process_menu_item(node: &ProcessTreeNode) -> (item: ProcessMenuItem)
    ensures
        item.model() == item_for(node.model()),
    decreases node,
{
    let label = process_menu_label(node);
    if node.children.len() == 0 {
        ProcessMenuItem::Process(label)
    } else {
        let items = process_menu_items(&node.children);
        assert(item_models(items@) == items_for(node.model().children));
        ProcessMenuItem::Group(label, items)
    }
}

/// Builds the items that show some nodes.
pub fn process_menu_items(nodes: &Vec<ProcessTreeNode>) -> (items: Vec<ProcessMenuItem>)
    ensures
        item_models(items@) == items_for(process_tree::models(nodes@)),
    decreases nodes,
{
    let mut items: Vec<ProcessMenuItem> = Vec::new();
    let mut i: usize = 0;
    while i < nodes.len()
        invariant
            i <= nodes@.len(),
            items@.len() == i,
            forall|j: int| 0 <= j < i ==> (#[trigger] items@[j]).model() == item_for(nodes@[j].model()),
        decreases nodes@.len() - i,
    {
        let item = process_menu_item(&nodes[i]);
        items.push(item);
        i = i + 1;
    }
    assert(item_models(items@) =~= items_for(process_tree::models(nodes@)));
    items
}

/// The submenu of the processes that are waited for.
#[derive(Debug, Eq, PartialEq)]
pub struct ProcessSubmenu {
    pub title: String,
    pub items: Vec<ProcessMenuItem>,
}

/// A submenu shows a tree.
pub open spec fn submenu_shows(submenu: ProcessSubmenu, tree: process_tree::TreeModel) -> bool {
    &&& submenu.title@ == title_text(tree.match_count)
    &&& item_models(submenu.items@) == items_for(tree.roots)
}

pub fn build_process_submenu(tree: &ProcessTree) -> (submenu: ProcessSubmenu)
    ensures
        submenu_shows(submenu, tree.model()),
{
    ProcessSubmenu {
        title: waiting_processes_title(tree.match_count),
        items: process_menu_items(&tree.roots),
    }
}

/// A text that is short enough stays as it is. A longer one is cut to the allowed
/// length, and ends with dots in the place of what was cut.
pub proof fn long_texts_are_cut(value: Seq<char>, max: nat)
    ensures
        value.len() <= max ==> truncated(value, max) == value,
        value.len() > max ==> truncated(value, max).len() == max,
        value.len() > max && max >= 3 ==> {
            &&& forall|i: int| 0 <= i < max - 3 ==> #[trigger] truncated(value, max)[i] == value[i]
            &&& forall|i: int| max - 3 <= i < max ==> #[trigger] truncated(value, max)[i] == '.'
        },
        value.len() > max && max < 3 ==> forall|i: int| 0 <= i < max ==> #[trigger] truncated(value, max)[i] == '.',
{
    reveal_strlit("...");
}

/// A label has a mark where the process matches, then the number in brackets and
/// the command, as far as there is room.
pub proof fn labels_name_the_process(node: process_tree::NodeModel)
    ensures
        ({
            let plain = "["@ + number::decimal(node.pid as nat) + "] "@ + node.command;
            let full = if node.is_match {
                "* "@ + plain
            } else {
                plain
            };
            &&& full.len() <= 100 ==> label_text(node) == full
            &&& full.len() > 100 ==> label_text(node) == full.take(97) + "..."@
            &&& PROCESS_LABEL_MAX_CHARS == 100
        }),
{
    reveal_strlit("");
    let plain = "["@ + number::decimal(node.pid as nat) + "] "@ + node.command;
    if node.is_match {
        assert("* "@ + "["@ + number::decimal(node.pid as nat) + "] "@ + node.command =~= "* "@ + plain);
    } else {
        assert(""@ + "["@ + number::decimal(node.pid as nat) + "] "@ + node.command =~= plain);
    }
}

/// The number of processes is said in words, and in the title.
pub proof fn waiting_is_counted(count: nat)
    ensures
        waiting_text(1) == "waiting for 1 process"@,
        count != 1 ==> waiting_text(count) == "waiting for "@ + number::decimal(count) + " processes"@,
        title_text(count) == "Waiting Processes ("@ + number::decimal(count) + ")"@,
{
}

/// The menu shows every node of a tree in its place: a node with nodes below it as
/// a group of theirs.
pub proof fn menu_shows_every_node(nodes: Seq<process_tree::NodeModel>, i: int)
    requires
        0 <= i < nodes.len(),
    ensures
        items_for(nodes).len() == nodes.len(),
        nodes[i].children.len() == 0 ==> items_for(nodes)[i] == ItemModel::Process(label_text(nodes[i])),
        nodes[i].children.len() > 0 ==> items_for(nodes)[i] == ItemModel::Group(
            label_text(nodes[i]),
            items_for(nodes[i].children),
        ),
{
}

/// A tree has to be shown anew exactly where the nodes are no longer those that are
/// shown. The number in the title does not matter for that.
pub proof fn other_nodes_are_shown_anew(
    tree: process_tree::TreeModel,
    table: Seq<ProcessInfo>,
    matches: Seq<ProcessInfo>,
    other: process_tree::TreeModel,
    other_table: Seq<ProcessInfo>,
    other_matches: Seq<ProcessInfo>,
)
    requires
        process_tree::tree_shows(tree, table, matches),
        process_tree::tree_shows(other, other_table, other_matches),
    ensures
        nodes_differ(tree, other) <==> tree.roots != other.roots,
{
    if !nodes_differ(tree, other) {
        process_tree::same_entries_mean_same_nodes(tree, table, matches, other, other_table, other_matches);
    }
}

/// A signature has an entry for each node, before the entries of what is below it;
/// nodes side by side follow one another.
pub proof fn signature_goes_through_the_nodes(nodes: Seq<process_tree::NodeModel>, node: process_tree::NodeModel)
    ensures
        process_tree::entries_of(Seq::<process_tree::NodeModel>::empty()).len() == 0,
        process_tree::entries_of(nodes.push(node)) == process_tree::entries_of(nodes).push(
            (node.pid, node.ppid, node.command, node.is_match),
        ) + process_tree::entries_of(node.children),
{
    let entry = (node.pid, node.ppid, node.command, node.is_match);
    assert(nodes.push(node).drop_last() =~= nodes);
    assert(process_tree::entries_of_node(node) == seq![entry] + process_tree::entries_of(node.children));
    assert(process_tree::entries_of(nodes.push(node)) == process_tree::entries_of(nodes)
        + process_tree::entries_of_node(node));
    assert(process_tree::entries_of(nodes) + (seq![entry] + process_tree::entries_of(node.children))
        =~= process_tree::entries_of(nodes).push(entry) + process_tree::entries_of(node.children));
}

} // verus!
