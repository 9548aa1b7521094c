use ziptauri::pathguard::{join_components, validate, PathCheck};

fn comps(v: &[&str]) -> Vec<String> {
    v.iter().map(|s| s.to_string()).collect()
}

fn safe_components(raw: &str) -> Vec<String> {
    match validate(raw) {
        PathCheck::Safe(v) => v.components,
        PathCheck::RootDepthZero => panic!("{:?} resolved to the root", raw),
        PathCheck::Escape => panic!("{:?} was rejected", raw),
    }
}

#[test]
fn guard_accepts_plain_path() {
    assert_eq!(safe_components("a/b/c"), comps(&["a", "b", "c"]));
}

#[test]
fn guard_normalizes_dots_and_empties() {
    assert_eq!(safe_components("a/./b//c"), comps(&["a", "b", "c"]));
    assert_eq!(safe_components("a/b/.."), comps(&["a"]));
    assert_eq!(safe_components("a/b/../c"), comps(&["a", "c"]));
    assert_eq!(safe_components("dir/"), comps(&["dir"]));
}

#[test]
fn guard_rejects_escapes() {
    assert!(matches!(validate("../x"), PathCheck::Escape));
    assert!(matches!(validate("a/../../x"), PathCheck::Escape));
    assert!(matches!(validate(".."), PathCheck::Escape));
    assert!(matches!(validate("a/b/../../../c"), PathCheck::Escape));
}

#[test]
fn guard_rejects_absolute_path() {
    assert!(matches!(validate("/etc/passwd"), PathCheck::Escape));
    assert!(matches!(validate("/"), PathCheck::Escape));
    assert!(matches!(validate("\\windows"), PathCheck::Escape));
}

#[test]
fn guard_treats_backslash_as_separator() {
    assert_eq!(safe_components("a\\b"), comps(&["a", "b"]));
    assert_eq!(safe_components("a\\b/c"), comps(&["a", "b", "c"]));
    assert!(matches!(validate("..\\x"), PathCheck::Escape));
    assert!(matches!(validate("a\\..\\..\\x"), PathCheck::Escape));
}

#[test]
fn guard_reports_root_resolving_names() {
    assert!(matches!(validate(""), PathCheck::RootDepthZero));
    assert!(matches!(validate("."), PathCheck::RootDepthZero));
    assert!(matches!(validate("a/.."), PathCheck::RootDepthZero));
    assert!(matches!(validate("./."), PathCheck::RootDepthZero));
}

#[test]
fn guard_depth_and_leaf() {
    match validate("x/y/z.txt") {
        PathCheck::Safe(v) => {
            assert_eq!(v.depth(), 3);
            assert_eq!(v.leaf().as_str(), "z.txt");
        }
        _ => panic!("expected a safe path"),
    }
}

#[test]
fn join_rebuilds_display_path() {
    assert_eq!(join_components(&comps(&["a", "b", "c"])), "a/b/c");
    assert_eq!(join_components(&comps(&["solo"])), "solo");
    assert_eq!(join_components(&comps(&[])), "");
}
