use ziptauri::prefixtree::PrefixTree;

fn comps(path: &str) -> Vec<String> {
    path.split('/').map(|s| s.to_string()).collect()
}

#[test]
fn test_prefix_tree() {
    let mut tree = PrefixTree::new();
    tree.insert(&comps("a/b/c"));
    tree.insert(&comps("a/b/c/d"));
    tree.insert(&comps("a/b/c/e"));
    tree.insert(&comps("a/b/f"));
    tree.insert(&comps("u/b/f"));
}

#[test]
fn prefix_tree_contains_inserted_paths_and_prefixes() {
    let mut tree = PrefixTree::new();
    tree.insert(&comps("a/b/c"));
    tree.insert(&comps("a/b/f"));
    assert!(tree.contains(&comps("a/b/c")));
    assert!(tree.contains(&comps("a/b/f")));
    assert!(tree.contains(&comps("a/b")));
    assert!(tree.contains(&comps("a")));
    assert!(tree.contains(&Vec::new()));
    assert!(!tree.contains(&comps("a/b/c/d")));
    assert!(!tree.contains(&comps("b")));
    assert!(!tree.contains(&comps("a/f")));
}

#[test]
fn prefix_tree_shares_common_prefixes() {
    let mut tree = PrefixTree::new();
    tree.insert(&comps("a/b/c"));
    tree.insert(&comps("a/b/f"));
    tree.insert(&comps("u/b/f"));
    // Two roots: "a" and "u"; below "a/b" two leaves.
    assert_eq!(tree.root.len(), 2);
    assert_eq!(tree.root[0].name, "a");
    assert_eq!(tree.root[1].name, "u");
    let a = &tree.root[0].tree;
    assert_eq!(a.root.len(), 1);
    assert_eq!(a.root[0].name, "b");
    assert_eq!(a.root[0].tree.root.len(), 2);
}

#[test]
fn prefix_tree_reinsert_is_idempotent() {
    let mut tree = PrefixTree::new();
    tree.insert(&comps("x/y"));
    tree.insert(&comps("x/y"));
    assert_eq!(tree.root.len(), 1);
    assert_eq!(tree.root[0].tree.root.len(), 1);
}
