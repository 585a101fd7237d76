//! The file explorer of the terminal editor: a tree of files, the rows of
//! it that are on display, and what the user's input does to both.

use crate::clock::{elapsed, elapsed_since};
use vstd::prelude::*;

verus! {

/// Two clicks on one row that are less than this many milliseconds apart
/// are a double click.
pub const DOUBLE_CLICK_MS: u64 = 500;

/// A press that lasts at least this many milliseconds is a long press.
pub const LONG_PRESS_MS: u64 = 800;

/// Message emitted by [`FileExplorer`] when the user interacts with the tree.
#[derive(Debug, Clone, PartialEq, Eq)]
pub enum ExplorerMessage {
    /// Request to open the file at the given path.
    Open(String),
    /// Request to pin the file at the given path.
    Pin(String),
}

/// A node in the [`FileTree`].
#[derive(Debug)]
pub struct FileNode {
    pub name: String,
    pub path: String,
    pub is_dir: bool,
    pub children: Vec<FileNode>,
    pub expanded: bool,
}

/// Tree of files shown in the explorer.
#[derive(Debug, Clone)]
pub struct FileTree {
    pub root: FileNode,
}

/// A row of the explorer: a node that is on display.
#[derive(Debug, Clone)]
pub struct VisibleNode {
    /// Where the node stands in the tree: the position of each node on the
    /// way to it among its siblings, from the root on.
    pub path: Vec<usize>,
    pub name: String,
    pub is_dir: bool,
    pub expanded: bool,
    /// How deep the node stands below the root.
    pub indent: usize,
    pub full_path: String,
}

/// An input event, as far as the explorer tells events apart.
#[derive(Debug, Clone, Copy, PartialEq, Eq, Structural)]
pub enum ExplorerEvent {
    /// The left mouse button goes down.
    LeftDown,
    /// The left mouse button goes up.
    LeftUp,
    Up,
    Down,
    Right,
    Left,
    /// Any other event.
    Other,
}

/// A change to whether a directory shows its children.
#[derive(Debug, Clone, Copy, PartialEq, Eq, Structural)]
pub enum Fold {
    Expand,
    Collapse,
    Toggle,
}

/// What a [`FileNode`] holds, as mathematical values.
pub ghost struct NodeModel {
    pub name: Seq<char>,
    pub path: Seq<char>,
    pub is_dir: bool,
    pub children: Seq<NodeModel>,
    pub expanded: bool,
}

/// What a [`VisibleNode`] holds, as mathematical values.
pub ghost struct RowModel {
    pub path: Seq<usize>,
    pub name: Seq<char>,
    pub is_dir: bool,
    pub expanded: bool,
    pub indent: int,
    pub full_path: Seq<char>,
}

/// What an [`ExplorerMessage`] holds, as mathematical values.
pub ghost enum MessageModel {
    Open(Seq<char>),
    Pin(Seq<char>),
}

/// The model of one node.
pub open spec fn node_model(node: FileNode) -> NodeModel
    decreases node,
{
    NodeModel {
        name: node.name@,
        path: node.path@,
        is_dir: node.is_dir,
        children: node_models(node.children@),
        expanded: node.expanded,
    }
}

/// The models of a sequence of nodes, in order.
pub open spec fn node_models(nodes: Seq<FileNode>) -> Seq<NodeModel>
    decreases nodes,
{
    if nodes.len() == 0 {
        Seq::empty()
    } else {
        node_models(nodes.drop_last()).push(node_model(nodes.last()))
    }
}

impl View for FileNode {
    type V = NodeModel;

    open spec fn view(&self) -> NodeModel {
        node_model(*self)
    }
}

impl View for VisibleNode {
    type V = RowModel;

    open spec fn view(&self) -> RowModel {
        RowModel {
            path: self.path@,
            name: self.name@,
            is_dir: self.is_dir,
            expanded: self.expanded,
            indent: self.indent as int,
            full_path: self.full_path@,
        }
    }
}

impl View for ExplorerMessage {
    type V = MessageModel;

    open spec fn view(&self) -> MessageModel {
        match *self {
            ExplorerMessage::Open(path) => MessageModel::Open(path@),
            ExplorerMessage::Pin(path) => MessageModel::Pin(path@),
        }
    }
}

/// The views of a sequence of rows.
pub open spec fn row_models(rows: Seq<VisibleNode>) -> Seq<RowModel> {
    Seq::new(rows.len(), |i: int| rows[i]@)
}

/// The models of a sequence are taken position by position.
pub proof fn lemma_node_models(nodes: Seq<FileNode>)
    ensures
        node_models(nodes).len() == nodes.len(),
        forall|i: int| 0 <= i < nodes.len() ==> node_models(nodes)[i] == nodes[i]@,
    decreases nodes.len(),
{
    if nodes.len() > 0 {
        lemma_node_models(nodes.drop_last());
    }
}

/// The rows that `node` contributes, standing at `path` and `indent` levels
/// deep: its own, and below it those of its children where it is a
/// directory that shows them.
pub open spec fn node_rows(node: NodeModel, path: Seq<usize>, indent: int) -> Seq<RowModel>
    decreases node, 1int,
{
    let own = RowModel {
        path,
        name: node.name,
        is_dir: node.is_dir,
        expanded: node.expanded,
        indent,
        full_path: node.path,
    };
    if node.is_dir && node.expanded {
        seq![own] + sibling_rows(node.children, node.children.len() as int, path, indent + 1)
    } else {
        seq![own]
    }
}

/// The rows of the first `count` nodes of `nodes`, siblings whose parent
/// stands at `prefix`, in order.
pub open spec fn sibling_rows(nodes: Seq<NodeModel>, count: int, prefix: Seq<usize>, indent: int) -> Seq<
    RowModel,
>
    decreases nodes, 0int, count,
{
    if count <= 0 || count > nodes.len() {
        Seq::empty()
    } else {
        sibling_rows(nodes, count - 1, prefix, indent) + node_rows(
            nodes[count - 1],
            prefix.push((count - 1) as usize),
            indent,
        )
    }
}

/// The rows of a tree: those of its root, which stands at position 0.
pub open spec fn tree_rows(root: NodeModel) -> Seq<RowModel> {
    sibling_rows(seq![root], 1, Seq::empty(), 0)
}

/// Whether `node` shows its children after `change`.
pub open spec fn fold_state(expanded: bool, change: Fold) -> bool {
    match change {
        Fold::Expand => true,
        Fold::Collapse => false,
        Fold::Toggle => !expanded,
    }
}

/// The tree under `node` after `change` is applied to the node that `path`
/// leads to from position `depth` on. A path that leads nowhere changes
/// nothing.
pub open spec fn folded(node: NodeModel, path: Seq<usize>, depth: int, change: Fold) -> NodeModel
    decreases path.len() - depth,
{
    if depth >= path.len() {
        NodeModel { expanded: fold_state(node.expanded, change), ..node }
    } else if depth >= 0 && path[depth] < node.children.len() {
        NodeModel {
            children: node.children.update(
                path[depth] as int,
                folded(node.children[path[depth] as int], path, depth + 1, change),
            ),
            ..node
        }
    } else {
        node
    }
}

impl Clone for FileNode {
    /// A copy that holds the same values at every depth.
    fn clone(&self) -> (copy: Self)
        ensures
            copy@ == self@,
        decreases *self,
    {
        FileNode {
            name: self.name.clone(),
            path: self.path.clone(),
            is_dir: self.is_dir,
            children: clone_nodes(&self.children),
            expanded: self.expanded,
        }
    }
}

/// Copies of the given nodes, in order.
pub fn clone_nodes(nodes: &Vec<FileNode>) -> (copies: Vec<FileNode>)
    ensures
        node_models(copies@) == node_models(nodes@),
    decreases nodes,
{
    let mut copies: Vec<FileNode> = Vec::new();
    let mut i: usize = 0;
    while i < nodes.len()
        invariant
            0 <= i <= nodes.len(),
            node_models(copies@) == node_models(nodes@.take(i as int)),
        decreases nodes.len() - i,
    {
        let copy = nodes[i].clone();
        proof {
            assert(copies@.push(copy).drop_last() =~= copies@);
            assert(nodes@.take(i + 1).drop_last() =~= nodes@.take(i as int));
        }
        copies.push(copy);
        i += 1;
    }
    proof {
        assert(nodes@.take(i as int) =~= nodes@);
    }
    copies
}

impl FileNode {
    /// A node for a file.
    pub fn new_file(name: String, path: String) -> (node: Self)
        ensures
            node@ == (NodeModel {
                name: name@,
                path: path@,
                is_dir: false,
                children: Seq::empty(),
                expanded: false,
            }),
    {
        FileNode { name, path, is_dir: false, children: Vec::new(), expanded: false }
    }

    /// A node for a directory, folded and without children.
    pub fn new_dir(name: String, path: String) -> (node: Self)
        ensures
            node@ == (NodeModel {
                name: name@,
                path: path@,
                is_dir: true,
                children: Seq::empty(),
                expanded: false,
            }),
    {
        FileNode { name, path, is_dir: true, children: Vec::new(), expanded: false }
    }
}

impl FileTree {
    /// A tree that consists of `root`.
    pub fn new(root: FileNode) -> (tree: Self)
        ensures
            tree.root == root,
    {
        FileTree { root }
    }
}

/// Appends the rows of `nodes`, siblings whose parent stands at `prefix`, to
/// `out`.
pub fn collect(
    nodes: &Vec<FileNode>,
    prefix: &mut Vec<usize>,
    indent: usize,
    out: &mut Vec<VisibleNode>,
)
    requires
        old(prefix)@.len() == indent,
    ensures
        final(prefix)@ == old(prefix)@,
        row_models(final(out)@) == row_models(old(out)@) + sibling_rows(
            node_models(nodes@),
            nodes@.len() as int,
            old(prefix)@,
            indent as int,
        ),
    decreases nodes,
{
    let ghost models = node_models(nodes@);
    let ghost base = row_models(out@);
    let ghost stem = prefix@;
    proof {
        lemma_node_models(nodes@);
        assert(base + sibling_rows(models, 0, stem, indent as int) =~= base);
    }
    let mut i: usize = 0;
    while i < nodes.len()
        invariant
            0 <= i <= nodes.len(),
            models == node_models(nodes@),
            models.len() == nodes@.len(),
            forall|k: int| 0 <= k < nodes@.len() ==> models[k] == nodes@[k]@,
            prefix@ == stem,
            stem.len() == indent,
            row_models(out@) == base + sibling_rows(models, i as int, stem, indent as int),
        decreases nodes.len() - i,
    {
        let node = &nodes[i];
        let ghost so_far = row_models(out@);
        prefix.push(i);
        let row = VisibleNode {
            path: prefix.clone(),
            name: node.name.clone(),
            is_dir: node.is_dir,
            expanded: node.expanded,
            indent,
            full_path: node.path.clone(),
        };
        let ghost own = row@;
        out.push(row);
        proof {
            assert(row_models(out@) =~= so_far + seq![own]);
            assert(own.path == stem.push(i));
            assert(own.name == models[i as int].name);
            assert(own.full_path == models[i as int].path);
            assert(models[i as int].children == node_models(node.children@));
        }
        if node.is_dir && node.expanded {
            proof {
                assert(decreases_to!(nodes => nodes@[i as int]));
                assert(decreases_to!(nodes@[i as int] => nodes@[i as int].children));
            }
            collect(&node.children, prefix, indent + 1, out);
            proof {
                lemma_node_models(node.children@);
                assert(row_models(out@) == (so_far + seq![own]) + sibling_rows(
                    models[i as int].children,
                    models[i as int].children.len() as int,
                    stem.push(i),
                    indent + 1,
                ));
            }
        }
        prefix.pop();
        proof {
            assert(prefix@ =~= stem);
            assert(row_models(out@) =~= so_far + node_rows(
                models[i as int],
                stem.push(i),
                indent as int,
            ));
            assert(base + sibling_rows(models, i as int, stem, indent as int) + node_rows(
                models[i as int],
                stem.push(i),
                indent as int,
            ) =~= base + sibling_rows(models, i + 1, stem, indent as int));
        }
        i += 1;
    }
}

/// Applies `change` to the node that `path` leads to from position `depth`
/// on, in the tree under `node`.
pub fn fold_at(node: &mut FileNode, path: &Vec<usize>, depth: usize, change: Fold)
    requires
        depth <= path@.len(),
    ensures
        final(node)@ == folded(old(node)@, path@, depth as int, change),
    decreases path@.len() - depth,
{
    if depth >= path.len() {
        node.expanded = match change {
            Fold::Expand => true,
            Fold::Collapse => false,
            Fold::Toggle => !node.expanded,
        };
    } else {
        let index = path[depth];
        proof {
            lemma_node_models(node.children@);
        }
        if index < node.children.len() {
            let ghost before = node.children@;
            fold_at(&mut node.children[index], path, depth + 1, change);
            proof {
                lemma_node_models(node.children@);
                assert(node_models(node.children@) =~= node_models(before).update(
                    index as int,
                    node.children@[index as int]@,
                ));
            }
        }
    }
}

/// Interactive file explorer.
#[derive(Debug)]
pub struct FileExplorer {
    tree: FileTree,
    selected: Option<usize>,
    visible: Vec<VisibleNode>,
    last_click: Option<(u64, usize)>,
    press_start: Option<(u64, usize)>,
}

/// What a [`FileExplorer`] holds, as mathematical values.
pub ghost struct ExplorerModel {
    pub tree: NodeModel,
    /// The position of the highlighted row, if one is highlighted.
    pub selected: Option<usize>,
    /// The rows as they were last drawn.
    pub visible: Seq<RowModel>,
    /// When and on which row the last single click fell.
    pub last_click: Option<(u64, usize)>,
    /// When and on which row the mouse button went down.
    pub press_start: Option<(u64, usize)>,
}

impl View for FileExplorer {
    type V = ExplorerModel;

    closed spec fn view(&self) -> ExplorerModel {
        ExplorerModel {
            tree: self.tree.root@,
            selected: self.selected,
            visible: row_models(self.visible@),
            last_click: self.last_click,
            press_start: self.press_start,
        }
    }
}

/// The view of an optional message.
pub open spec fn optional_message(message: Option<ExplorerMessage>) -> Option<MessageModel> {
    match message {
        Some(m) => Some(m@),
        None => None,
    }
}

/// The row that input acts on: the highlighted one, or the first.
pub open spec fn target_row(model: ExplorerModel) -> usize {
    match model.selected {
        Some(index) => index,
        None => 0,
    }
}

/// Whether a click at `now` on the row at `index` is the second of a double
/// click.
pub open spec fn is_double_click(model: ExplorerModel, index: usize, now: u64) -> bool {
    model.last_click matches Some((at, row)) && row == index && elapsed(at, now) < DOUBLE_CLICK_MS
}

/// The explorer after the left mouse button goes down at `now`, and the
/// message that this emits. A double click on a directory folds or unfolds
/// it; a double click on a file asks to open it and leaves the press
/// unrecorded; any other click is remembered as the first of a pair.
pub open spec fn after_press(model: ExplorerModel, now: u64) -> (ExplorerModel, Option<MessageModel>) {
    let index = target_row(model);
    if is_double_click(model, index, now) {
        if index < model.visible.len() {
            let row = model.visible[index as int];
            if row.is_dir {
                (
                    ExplorerModel {
                        tree: folded(model.tree, row.path, 1, Fold::Toggle),
                        last_click: None,
                        press_start: Some((now, index)),
                        ..model
                    },
                    None,
                )
            } else {
                (ExplorerModel { last_click: None, ..model }, Some(MessageModel::Open(row.full_path)))
            }
        } else {
            (ExplorerModel { last_click: None, press_start: Some((now, index)), ..model }, None)
        }
    } else {
        (
            ExplorerModel {
                last_click: Some((now, index)),
                press_start: Some((now, index)),
                ..model
            },
            None,
        )
    }
}

/// The explorer after the left mouse button goes up at `now`, and the
/// message that this emits: a long press on a file asks to pin it.
pub open spec fn after_release(model: ExplorerModel, now: u64) -> (
    ExplorerModel,
    Option<MessageModel>,
) {
    match model.press_start {
        Some((start, index)) => {
            let released = ExplorerModel { press_start: None, ..model };
            if elapsed(start, now) >= LONG_PRESS_MS && index < model.visible.len()
                && !model.visible[index as int].is_dir {
                (released, Some(MessageModel::Pin(model.visible[index as int].full_path)))
            } else {
                (released, None)
            }
        },
        None => (model, None),
    }
}

/// The explorer after the highlighted directory is asked to show its
/// children, or to hide them. Nothing changes unless a row is highlighted
/// that was drawn as a directory in the other state.
pub open spec fn after_fold(model: ExplorerModel, show: bool) -> ExplorerModel {
    match model.selected {
        Some(index) => {
            if index < model.visible.len() && model.visible[index as int].is_dir
                && model.visible[index as int].expanded != show {
                ExplorerModel {
                    tree: folded(
                        model.tree,
                        model.visible[index as int].path,
                        1,
                        if show {
                            Fold::Expand
                        } else {
                            Fold::Collapse
                        },
                    ),
                    ..model
                }
            } else {
                model
            }
        },
        None => model,
    }
}

/// The position of the row below the one at `index`, which is the last row
/// where there is none below.
pub open spec fn row_below(index: usize, rows: nat) -> usize {
    let last = if rows > 0 {
        rows - 1
    } else {
        0
    };
    if index + 1 <= last {
        (index + 1) as usize
    } else {
        last as usize
    }
}

/// The position of the row above the one at `index`, which is the first row
/// where there is none above.
pub open spec fn row_above(index: usize) -> usize {
    if index > 0 {
        (index - 1) as usize
    } else {
        0
    }
}

/// The explorer after `event` arrives at `now`, and the message that this
/// emits.
pub open spec fn after_event(model: ExplorerModel, event: ExplorerEvent, now: u64) -> (
    ExplorerModel,
    Option<MessageModel>,
) {
    match event {
        ExplorerEvent::LeftDown => after_press(model, now),
        ExplorerEvent::LeftUp => after_release(model, now),
        ExplorerEvent::Up => (
            ExplorerModel { selected: Some(row_above(target_row(model))), ..model },
            None,
        ),
        ExplorerEvent::Down => (
            ExplorerModel {
                selected: Some(row_below(target_row(model), model.visible.len())),
                ..model
            },
            None,
        ),
        ExplorerEvent::Right => (after_fold(model, true), None),
        ExplorerEvent::Left => (after_fold(model, false), None),
        ExplorerEvent::Other => (model, None),
    }
}

impl FileExplorer {
    /// An explorer of `tree` with no row drawn and none highlighted.
    pub fn new(tree: FileTree) -> (explorer: Self)
        ensures
            explorer@ == (ExplorerModel {
                tree: tree.root@,
                selected: None,
                visible: Seq::empty(),
                last_click: None,
                press_start: None,
            }),
    {
        let explorer = FileExplorer {
            tree,
            selected: None,
            visible: Vec::new(),
            last_click: None,
            press_start: None,
        };
        proof {
            assert(row_models(explorer.visible@) =~= Seq::<RowModel>::empty());
        }
        explorer
    }

    /// Takes the rows anew from the tree, as they are to be drawn.
    pub fn refresh_visible(&mut self)
        ensures
            final(self)@ == (ExplorerModel { visible: tree_rows(old(self)@.tree), ..old(self)@ }),
    {
        let mut rows: Vec<VisibleNode> = Vec::new();
        let mut prefix: Vec<usize> = Vec::new();
        let ghost root = self.tree.root@;
        proof {
            assert(row_models(rows@) =~= Seq::<RowModel>::empty());
        }
        collect_root(&self.tree.root, &mut prefix, &mut rows);
        proof {
            assert(Seq::<RowModel>::empty() + tree_rows(root) =~= tree_rows(root));
        }
        self.visible = rows;
    }

    /// The rows as they were last taken from the tree.
    pub fn visible(&self) -> (rows: &Vec<VisibleNode>)
        ensures
            row_models(rows@) == self@.visible,
    {
        &self.visible
    }

    /// The position of the highlighted row, if one is highlighted.
    pub fn selected(&self) -> (selected: Option<usize>)
        ensures
            selected == self@.selected,
    {
        self.selected
    }

    /// The tree on display.
    pub fn tree(&self) -> (tree: &FileTree)
        ensures
            tree.root@ == self@.tree,
    {
        &self.tree
    }

    /// Applies `change` to the node of the tree that `path` leads to. The
    /// first position of a path names the root.
    fn fold(&mut self, path: &Vec<usize>, change: Fold)
        ensures
            final(self)@ == (ExplorerModel {
                tree: folded(old(self)@.tree, path@, 1, change),
                ..old(self)@
            }),
    {
        if path.len() >= 1 {
            fold_at(&mut self.tree.root, path, 1, change);
        } else {
            fold_at(&mut self.tree.root, path, 0, change);
        }
    }

    /// Handles an input event that arrives at `now`. Returns a message if
    /// one was produced.
    pub fn handle_event(&mut self, event: ExplorerEvent, now: u64) -> (message: Option<
        ExplorerMessage,
    >)
        ensures
            (final(self)@, optional_message(message)) == after_event(old(self)@, event, now),
    {
        match event {
            ExplorerEvent::LeftDown => {
                let index = self.selected.unwrap_or(0);
                let double = match self.last_click {
                    Some((at, row)) => row == index && elapsed_since(at, now) < DOUBLE_CLICK_MS,
                    None => false,
                };
                if double {
                    self.last_click = None;
                    if index < self.visible.len() {
                        if self.visible[index].is_dir {
                            let path = self.visible[index].path.clone();
                            self.fold(&path, Fold::Toggle);
                        } else {
                            return Some(
                                ExplorerMessage::Open(self.visible[index].full_path.clone()),
                            );
                        }
                    }
                } else {
                    self.last_click = Some((now, index));
                }
                self.press_start = Some((now, index));
                None
            },
            ExplorerEvent::LeftUp => {
                match self.press_start {
                    Some((start, index)) => {
                        self.press_start = None;
                        if elapsed_since(start, now) >= LONG_PRESS_MS && index < self.visible.len()
                            && !self.visible[index].is_dir {
                            Some(ExplorerMessage::Pin(self.visible[index].full_path.clone()))
                        } else {
                            None
                        }
                    },
                    None => None,
                }
            },
            ExplorerEvent::Up => {
                let index = self.selected.unwrap_or(0);
                self.selected = Some(
                    if index > 0 {
                        index - 1
                    } else {
                        0
                    },
                );
                None
            },
            ExplorerEvent::Down => {
                let index = self.selected.unwrap_or(0);
                let last = if self.visible.len() > 0 {
                    self.visible.len() - 1
                } else {
                    0
                };
                self.selected = Some(
                    if index < last {
                        index + 1
                    } else {
                        last
                    },
                );
                None
            },
            ExplorerEvent::Right => {
                self.fold_selected(true);
                None
            },
            ExplorerEvent::Left => {
                self.fold_selected(false);
                None
            },
            ExplorerEvent::Other => None,
        }
    }

    /// Asks the highlighted directory to show its children, or to hide them.
    fn fold_selected(&mut self, show: bool)
        ensures
            final(self)@ == after_fold(old(self)@, show),
    {
        if let Some(index) = self.selected {
            if index < self.visible.len() && self.visible[index].is_dir
                && self.visible[index].expanded != show {
                let path = self.visible[index].path.clone();
                self.fold(
                    &path,
                    if show {
                        Fold::Expand
                    } else {
                        Fold::Collapse
                    },
                );
            }
        }
    }
}

/// Appends the rows of the tree under `root` to `out`.
fn collect_root(root: &FileNode, prefix: &mut Vec<usize>, out: &mut Vec<VisibleNode>)
    requires
        old(prefix)@.len() == 0,
    ensures
        final(prefix)@ == old(prefix)@,
        row_models(final(out)@) == row_models(old(out)@) + tree_rows(root@),
{
    let ghost base = row_models(out@);
    prefix.push(0);
    let row = VisibleNode {
        path: prefix.clone(),
        name: root.name.clone(),
        is_dir: root.is_dir,
        expanded: root.expanded,
        indent: 0,
        full_path: root.path.clone(),
    };
    let ghost own = row@;
    out.push(row);
    let ghost at = prefix@;
    proof {
        assert(row_models(out@) =~= base + seq![own]);
        lemma_node_models(root.children@);
        assert(at =~= Seq::<usize>::empty().push(0));
        assert(own.path == at);
        assert(root@.children == node_models(root.children@));
    }
    if root.is_dir && root.expanded {
        collect(&root.children, prefix, 1, out);
        proof {
            assert(row_models(out@) == (base + seq![own]) + sibling_rows(
                root@.children,
                root@.children.len() as int,
                at,
                1,
            ));
        }
    }
    prefix.pop();
    proof {
        let stem = Seq::<usize>::empty();
        assert(prefix@ =~= stem);
        assert(stem.push(0) =~= seq![0usize]);
        assert(sibling_rows(seq![root@], 0, stem, 0) =~= Seq::<RowModel>::empty());
        assert(tree_rows(root@) =~= node_rows(root@, stem.push(0), 0));
        assert(row_models(out@) =~= base + node_rows(root@, stem.push(0), 0));
    }
}

} // verus!
