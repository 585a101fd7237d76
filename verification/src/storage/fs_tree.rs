//! A lazily loaded tree of the files under the notes directory.
//!
//! A path is the list of its components. The tree caches what was read from
//! the file system; a change below a node drops what was cached for it.

use vstd::prelude::*;

verus! {

/// A node in the file tree.
#[derive(Debug)]
pub struct Node {
    path: Vec<String>,
    is_dir: bool,
    is_symlink: bool,
    children: Option<Vec<Node>>,
}

/// What a [`Node`] holds, as mathematical values.
pub ghost struct NodeModel {
    pub path: Seq<Seq<char>>,
    pub is_dir: bool,
    pub is_symlink: bool,
    /// The children, where they are loaded.
    pub children: Option<Seq<NodeModel>>,
}

/// The components of a path, as texts.
pub open spec fn path_model(path: Seq<String>) -> Seq<Seq<char>> {
    Seq::new(path.len(), |i: int| path[i]@)
}

/// The model of one node.
pub closed spec fn node_model(node: Node) -> NodeModel
    decreases node,
{
    NodeModel {
        path: path_model(node.path@),
        is_dir: node.is_dir,
        is_symlink: node.is_symlink,
        children: match node.children {
            Some(children) => Some(node_models(children@)),
            None => None,
        },
    }
}

/// The models of a sequence of nodes, in order.
pub closed spec fn node_models(nodes: Seq<Node>) -> Seq<NodeModel>
    decreases nodes,
{
    if nodes.len() == 0 {
        Seq::empty()
    } else {
        node_models(nodes.drop_last()).push(node_model(nodes.last()))
    }
}

impl View for Node {
    type V = NodeModel;

    closed spec fn view(&self) -> NodeModel {
        node_model(*self)
    }
}

/// The models of a sequence are taken position by position.
pub proof fn lemma_node_models(nodes: Seq<Node>)
    ensures
        node_models(nodes).len() == nodes.len(),
        forall|i: int| 0 <= i < nodes.len() ==> node_models(nodes)[i] == nodes[i]@,
    decreases nodes.len(),
{
    if nodes.len() > 0 {
        lemma_node_models(nodes.drop_last());
    }
}

/// Whether `node` is where the cache is dropped for a change at `path`, or
/// holds that place: invalidation reaches it.
pub open spec fn reached(node: NodeModel, path: Seq<Seq<char>>) -> bool {
    invalidated(node, path).1
}

/// The tree under `node` after a change at `path`, and whether the change
/// reached a node of it. The node at `path` loses its children; the search
/// for it goes, at each node, through the loaded children in order and
/// enters those whose path `path` continues.
pub open spec fn invalidated(node: NodeModel, path: Seq<Seq<char>>) -> (NodeModel, bool)
    decreases node,
{
    if path == node.path {
        (NodeModel { children: None, ..node }, true)
    } else {
        match node.children {
            Some(children) => {
                let (walked, hit) = invalidated_among(children, path);
                (NodeModel { children: Some(walked), ..node }, hit)
            },
            None => (node, false),
        }
    }
}

/// The nodes of `children` after a change at `path`, and whether the change
/// reached one of them. The first child that the change reaches is the only
/// one that changes.
pub open spec fn invalidated_among(children: Seq<NodeModel>, path: Seq<Seq<char>>) -> (
    Seq<NodeModel>,
    bool,
)
    decreases children,
{
    if children.len() == 0 {
        (children, false)
    } else {
        let first = children[0];
        let rest = children.drop_first();
        if first.path.is_prefix_of(path) && invalidated(first, path).1 {
            (seq![invalidated(first, path).0] + rest, true)
        } else {
            let (walked, hit) = invalidated_among(rest, path);
            (seq![first] + walked, hit)
        }
    }
}

/// A change that reaches no node changes nothing.
pub proof fn lemma_miss_changes_nothing(node: NodeModel, path: Seq<Seq<char>>)
    requires
        !invalidated(node, path).1,
    ensures
        invalidated(node, path).0 == node,
    decreases node,
{
    match node.children {
        Some(children) => {
            if path != node.path {
                lemma_miss_among(children, path);
            }
        },
        None => {},
    }
}

/// A change that reaches none of the children changes none of them.
pub proof fn lemma_miss_among(children: Seq<NodeModel>, path: Seq<Seq<char>>)
    requires
        !invalidated_among(children, path).1,
    ensures
        invalidated_among(children, path).0 == children,
    decreases children,
{
    if children.len() > 0 {
        lemma_miss_among(children.drop_first(), path);
        assert(seq![children[0]] + children.drop_first() =~= children);
    }
}

/// The walk through the children, resumed at position `from`: the children
/// before it were passed without a hit.
proof fn lemma_walk_resumes(children: Seq<NodeModel>, path: Seq<Seq<char>>, from: int)
    requires
        0 <= from <= children.len(),
        forall|k: int|
            0 <= k < from ==> !((#[trigger] children[k]).path.is_prefix_of(path) && invalidated(
                children[k],
                path,
            ).1),
    ensures
        invalidated_among(children, path) == (
            children.take(from) + invalidated_among(children.skip(from), path).0,
            invalidated_among(children.skip(from), path).1,
        ),
    decreases from,
{
    if from == 0 {
        assert(children.skip(0) =~= children);
        assert(children.take(0) + invalidated_among(children, path).0 =~= invalidated_among(
            children,
            path,
        ).0);
    } else {
        let rest = children.drop_first();
        assert forall|k: int| 0 <= k < from - 1 implies !((#[trigger] rest[k]).path.is_prefix_of(
            path,
        ) && invalidated(rest[k], path).1) by {
            assert(rest[k] == children[k + 1]);
        }
        lemma_walk_resumes(rest, path, from - 1);
        assert(rest.skip(from - 1) =~= children.skip(from));
        assert(seq![children[0]] + (rest.take(from - 1) + invalidated_among(
            children.skip(from),
            path,
        ).0) =~= children.take(from) + invalidated_among(children.skip(from), path).0);
    }
}

/// Whether two paths have the same components.
pub fn same_path(left: &Vec<String>, right: &Vec<String>) -> (same: bool)
    ensures
        same == (path_model(left@) == path_model(right@)),
{
    proof {
        let whole = path_model(left@);
        assert(whole.subrange(0, whole.len() as int) =~= whole);
    }
    left.len() == right.len() && starts_with_path(left, right)
}

/// Whether `path` continues `prefix`: its first components are those of
/// `prefix`.
pub fn starts_with_path(path: &Vec<String>, prefix: &Vec<String>) -> (continues: bool)
    ensures
        continues == path_model(prefix@).is_prefix_of(path_model(path@)),
{
    if prefix.len() > path.len() {
        return false;
    }
    let mut i: usize = 0;
    while i < prefix.len()
        invariant
            prefix.len() <= path.len(),
            0 <= i <= prefix.len(),
            forall|k: int| 0 <= k < i ==> prefix@[k]@ == path@[k]@,
        decreases prefix.len() - i,
    {
        if prefix[i] != path[i] {
            proof {
                let whole = path_model(path@);
                let wanted = path_model(prefix@);
                if wanted.is_prefix_of(whole) {
                    assert(whole.subrange(0, wanted.len() as int)[i as int] == wanted[i as int]);
                }
            }
            return false;
        }
        i += 1;
    }
    proof {
        let whole = path_model(path@);
        let wanted = path_model(prefix@);
        assert(whole.subrange(0, wanted.len() as int) =~= wanted);
    }
    true
}

/// A copy of a path.
pub fn clone_path(path: &Vec<String>) -> (copy: Vec<String>)
    ensures
        path_model(copy@) == path_model(path@),
{
    let mut copy: Vec<String> = Vec::new();
    let mut i: usize = 0;
    while i < path.len()
        invariant
            0 <= i <= path.len(),
            copy@.len() == i,
            forall|k: int| 0 <= k < i ==> copy@[k]@ == path@[k]@,
        decreases path.len() - i,
    {
        copy.push(path[i].clone());
        i += 1;
    }
    proof {
        assert(path_model(copy@) =~= path_model(path@));
    }
    copy
}

impl Clone for Node {
    /// A copy that holds the same values at every depth.
    fn clone(&self) -> (copy: Self)
        ensures
            copy@ == self@,
        decreases *self,
    {
        Node {
            path: clone_path(&self.path),
            is_dir: self.is_dir,
            is_symlink: self.is_symlink,
            children: match &self.children {
                Some(children) => {
                    proof {
                        assert(decreases_to!(*self => self.children));
                        assert(decreases_to!(self.children => self.children->Some_0));
                    }
                    Some(clone_nodes(children))
                },
                None => None,
            },
        }
    }
}

/// Copies of the given nodes, in order.
pub fn clone_nodes(nodes: &Vec<Node>) -> (copies: Vec<Node>)
    ensures
        node_models(copies@) == node_models(nodes@),
    decreases nodes,
{
    let mut copies: Vec<Node> = Vec::new();
    let mut i: usize = 0;
    while i < nodes.len()
        invariant
            0 <= i <= nodes.len(),
            node_models(copies@) == node_models(nodes@.take(i as int)),
        decreases nodes.len() - i,
    {
        let copy = nodes[i].clone();
        proof {
            assert(copies@.push(copy).drop_last() =~= copies@);
            assert(nodes@.take(i + 1).drop_last() =~= nodes@.take(i as int));
        }
        copies.push(copy);
        i += 1;
    }
    proof {
        assert(nodes@.take(i as int) =~= nodes@);
    }
    copies
}

impl Node {
    /// A node whose children are not loaded.
    pub fn new(path: Vec<String>, is_dir: bool, is_symlink: bool) -> (node: Self)
        ensures
            node@ == (NodeModel { path: path_model(path@), is_dir, is_symlink, children: None }),
    {
        Node { path, is_dir, is_symlink, children: None }
    }

    /// Path of this node, as its components.
    pub fn path(&self) -> (path: &Vec<String>)
        ensures
            path_model(path@) == self@.path,
    {
        &self.path
    }

    /// Whether this node is a directory.
    pub fn is_dir(&self) -> (is_dir: bool)
        ensures
            is_dir == self@.is_dir,
    {
        self.is_dir
    }

    /// Whether this node is a symbolic link.
    pub fn is_symlink(&self) -> (is_symlink: bool)
        ensures
            is_symlink == self@.is_symlink,
    {
        self.is_symlink
    }

    /// The lazily loaded children of this node.
    pub fn children(&self) -> (children: Option<&Vec<Node>>)
        ensures
            match children {
                Some(nodes) => self@.children == Some(node_models(nodes@)),
                None => self@.children is None,
            },
    {
        self.children.as_ref()
    }

    /// Whether the children of this node are still to be read: it is a
    /// directory and nothing is cached for it.
    pub fn needs_expansion(&self) -> (needed: bool)
        ensures
            needed == (self@.is_dir && self@.children is None),
    {
        self.is_dir && self.children.is_none()
    }
}

/// Drops what is cached for the node at `path` in the tree under `node`.
/// Returns whether there is such a node.
pub fn invalidate_node(node: &mut Node, path: &Vec<String>) -> (hit: bool)
    ensures
        (final(node)@, hit) == invalidated(old(node)@, path_model(path@)),
    decreases *old(node),
{
    if same_path(path, &node.path) {
        node.children = None;
        return true;
    }
    let ghost target = path_model(path@);
    let ghost before = node@;
    match node.children.take() {
        Some(loaded) => {
            let mut children = loaded;
            let ghost kept = children;
            let ghost start = node_models(children@);
            let mut i: usize = 0;
            let mut hit = false;
            proof {
                lemma_node_models(children@);
            }
            while i < children.len() && !hit
                invariant
                    0 <= i <= children.len(),
                    children@.len() == start.len(),
                    target == path_model(path@),
                    !hit ==> node_models(children@) == start,
                    !hit ==> forall|k: int|
                        0 <= k < i ==> !((#[trigger] start[k]).path.is_prefix_of(target)
                            && invalidated(start[k], target).1),
                    hit ==> (node_models(children@), true) == invalidated_among(start, target),
                    old(node).children == Some(kept),
                    kept@.len() == children@.len(),
                    !hit ==> forall|k: int| i <= k < children@.len() ==> children@[k] == kept@[k],
                decreases children.len() - i + (if hit { 0int } else { 1int }),
            {
                let ghost current = children@;
                proof {
                    lemma_node_models(current);
                }
                if starts_with_path(path, &children[i].path) {
                    proof {
                        assert(decreases_to!(*old(node) => old(node).children));
                        assert(decreases_to!(old(node).children => old(node).children->Some_0));
                        assert(decreases_to!(kept => kept@[i as int]));
                    }
                    let reached = invalidate_node(&mut children[i], path);
                    proof {
                        lemma_node_models(children@);
                        if reached {
                            lemma_walk_resumes(start, target, i as int);
                            assert(node_models(children@) =~= start.take(i as int) + (seq![
                                invalidated(start[i as int], target).0,
                            ] + start.skip(i as int).drop_first()));
                            assert(start.skip(i as int)[0] == start[i as int]);
                        } else {
                            lemma_miss_changes_nothing(start[i as int], target);
                            assert(node_models(children@) =~= start);
                        }
                    }
                    hit = reached;
                }
                if !hit {
                    i += 1;
                }
            }
            proof {
                if !hit {
                    lemma_walk_resumes(start, target, i as int);
                    assert(start.skip(i as int) =~= Seq::<NodeModel>::empty());
                    assert(start.take(i as int) + Seq::<NodeModel>::empty() =~= start);
                }
            }
            node.children = Some(children);
            hit
        },
        None => false,
    }
}

/// The tree under `node` after changes at each of `paths`, in order.
pub open spec fn invalidated_all(node: NodeModel, paths: Seq<Seq<Seq<char>>>) -> NodeModel
    decreases paths.len(),
{
    if paths.len() == 0 {
        node
    } else {
        invalidated(invalidated_all(node, paths.drop_last()), paths.last()).0
    }
}

/// The components of each of the given paths.
pub open spec fn path_models(paths: Seq<Vec<String>>) -> Seq<Seq<Seq<char>>> {
    Seq::new(paths.len(), |i: int| path_model(paths[i]@))
}

/// A lazily loaded file tree.
#[derive(Debug)]
pub struct FileTree {
    root: Node,
}

impl View for FileTree {
    type V = NodeModel;

    closed spec fn view(&self) -> NodeModel {
        self.root@
    }
}

impl FileTree {
    /// A tree that consists of `root`.
    pub fn new(root: Node) -> (tree: Self)
        ensures
            tree@ == root@,
    {
        FileTree { root }
    }

    /// Returns the root node.
    pub fn root(&self) -> (root: &Node)
        ensures
            root@ == self@,
    {
        &self.root
    }

    /// Returns mutable reference to root node.
    pub fn root_mut(&mut self) -> (root: &mut Node)
        ensures
            root@ == old(self)@,
            final(self)@ == final(root)@,
    {
        &mut self.root
    }

    /// Loads `entries` as the children of `node` where the node is a
    /// directory whose children are not loaded. Does nothing otherwise.
    pub fn expand(node: &mut Node, entries: Vec<Node>)
        ensures
            final(node)@ == (if old(node)@.is_dir && old(node)@.children is None {
                NodeModel { children: Some(node_models(entries@)), ..old(node)@ }
            } else {
                old(node)@
            }),
    {
        if node.is_dir && node.children.is_none() {
            node.children = Some(entries);
        }
    }

    /// Drops what is cached below each of the paths that an event names.
    pub fn process_event(&mut self, paths: &Vec<Vec<String>>)
        ensures
            final(self)@ == invalidated_all(old(self)@, path_models(paths@)),
    {
        let ghost all = path_models(paths@);
        let mut i: usize = 0;
        while i < paths.len()
            invariant
                0 <= i <= paths.len(),
                all == path_models(paths@),
                self@ == invalidated_all(old(self)@, all.take(i as int)),
            decreases paths.len() - i,
        {
            self.invalidate(&paths[i]);
            proof {
                assert(all.take(i + 1).drop_last() =~= all.take(i as int));
            }
            i += 1;
        }
        proof {
            assert(all.take(i as int) =~= all);
        }
    }

    /// Drops what is cached for the node at `path`.
    pub fn invalidate(&mut self, path: &Vec<String>)
        ensures
            final(self)@ == invalidated(old(self)@, path_model(path@)).0,
    {
        invalidate_node(&mut self.root, path);
    }
}

} // verus!
