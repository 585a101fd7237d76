use notes2::storage::fs_tree::{invalidate_node, same_path, starts_with_path, FileTree, Node};

fn path(parts: &[&str]) -> Vec<String> {
    parts.iter().map(|p| p.to_string()).collect()
}

fn dir(parts: &[&str], children: Vec<Node>) -> Node {
    let mut node = Node::new(path(parts), true, false);
    FileTree::expand(&mut node, children);
    node
}

fn leaf(parts: &[&str]) -> Node {
    Node::new(path(parts), false, false)
}

fn sample() -> Node {
    dir(
        &["r"],
        vec![
            dir(&["r", "a"], vec![dir(&["r", "a", "x"], vec![]), leaf(&["r", "a", "y"])]),
            dir(&["r", "b"], vec![leaf(&["r", "b", "z"])]),
            leaf(&["r", "c"]),
        ],
    )
}

fn loaded(node: &Node) -> Option<usize> {
    node.children().map(|c| c.len())
}

#[test]
fn new_node_has_nothing_cached() {
    let node = Node::new(path(&["r", "a"]), true, true);
    assert_eq!(node.path(), &path(&["r", "a"]));
    assert!(node.is_dir());
    assert!(node.is_symlink());
    assert!(node.children().is_none());
    assert!(node.needs_expansion());
    assert!(!leaf(&["f"]).needs_expansion());
    assert!(!leaf(&["f"]).is_symlink());
}

#[test]
fn expand_loads_children_once() {
    let mut node = Node::new(path(&["r"]), true, false);
    FileTree::expand(&mut node, vec![leaf(&["r", "a"])]);
    assert_eq!(loaded(&node), Some(1));
    assert!(!node.needs_expansion());
    FileTree::expand(&mut node, vec![]);
    assert_eq!(loaded(&node), Some(1));
    let mut file = leaf(&["f"]);
    FileTree::expand(&mut file, vec![leaf(&["f", "a"])]);
    assert!(file.children().is_none());
}

#[test]
fn paths_compare_by_components() {
    assert!(same_path(&path(&["a", "b"]), &path(&["a", "b"])));
    assert!(!same_path(&path(&["a", "b"]), &path(&["a"])));
    assert!(!same_path(&path(&["a"]), &path(&["a", "b"])));
    assert!(!same_path(&path(&["a", "b"]), &path(&["a", "c"])));
    assert!(same_path(&path(&[]), &path(&[])));
    assert!(starts_with_path(&path(&["a", "b"]), &path(&["a"])));
    assert!(starts_with_path(&path(&["a", "b"]), &path(&["a", "b"])));
    assert!(starts_with_path(&path(&["a", "b"]), &path(&[])));
    assert!(!starts_with_path(&path(&["a"]), &path(&["a", "b"])));
    assert!(!starts_with_path(&path(&["ab"]), &path(&["a"])));
}

#[test]
fn change_at_a_node_drops_its_children() {
    let mut root = sample();
    assert!(invalidate_node(&mut root, &path(&["r", "a"])));
    let children = root.children().unwrap();
    assert!(children[0].children().is_none());
    assert_eq!(loaded(&children[1]), Some(1));
    assert_eq!(children.len(), 3);
}

#[test]
fn change_at_the_root_drops_everything() {
    let mut root = sample();
    assert!(invalidate_node(&mut root, &path(&["r"])));
    assert!(root.children().is_none());
    assert!(root.needs_expansion());
}

#[test]
fn change_deep_in_the_tree_reaches_its_node_only() {
    let mut root = sample();
    assert!(invalidate_node(&mut root, &path(&["r", "a", "x"])));
    let children = root.children().unwrap();
    let below = children[0].children().unwrap();
    assert!(below[0].children().is_none());
    assert_eq!(loaded(&children[0]), Some(2));
    assert!(invalidate_node(&mut root, &path(&["r", "b", "z"])));
    assert_eq!(loaded(&root.children().unwrap()[1]), Some(1));
}

#[test]
fn change_outside_the_tree_changes_nothing() {
    let mut root = sample();
    assert!(!invalidate_node(&mut root, &path(&["r", "q"])));
    assert!(!invalidate_node(&mut root, &path(&["s"])));
    assert!(!invalidate_node(&mut root, &path(&["r", "a", "x", "deep"])));
    assert!(!invalidate_node(&mut root, &path(&[])));
    let children = root.children().unwrap();
    assert_eq!(loaded(&children[0]), Some(2));
    assert_eq!(loaded(&children[0].children().unwrap()[0]), Some(0));
    assert_eq!(loaded(&children[1]), Some(1));
}

#[test]
fn change_below_an_unloaded_node_is_not_found() {
    let mut root = dir(&["r"], vec![Node::new(path(&["r", "a"]), true, false)]);
    assert!(!invalidate_node(&mut root, &path(&["r", "a", "x"])));
    assert_eq!(loaded(&root), Some(1));
}

#[test]
fn tree_processes_the_paths_of_an_event() {
    let mut tree = FileTree::new(sample());
    tree.process_event(&vec![path(&["r", "a", "x"]), path(&["r", "b"]), path(&["zzz"])]);
    let children = tree.root().children().unwrap();
    assert!(children[1].children().is_none());
    assert!(children[0].children().unwrap()[0].children().is_none());
    tree.invalidate(&path(&["r"]));
    assert!(tree.root().children().is_none());
    FileTree::expand(tree.root_mut(), vec![leaf(&["r", "n"])]);
    assert_eq!(loaded(tree.root()), Some(1));
    tree.process_event(&vec![]);
    assert_eq!(loaded(tree.root()), Some(1));
}
