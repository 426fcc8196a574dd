use vfs_core::path_normalizer::PathNormalizer;

fn norm(raw: &str, cwd: &str) -> String {
    PathNormalizer::normalize(raw, cwd).unwrap()
}

#[test]
fn parent_dir_pops_one_component() {
    assert_eq!(norm("..", "/a/b"), "/a");
}

#[test]
fn ascending_above_root_clamps() {
    assert_eq!(norm("../../..", "/a"), "/");
    assert_eq!(norm("/..", "/a"), "/");
    assert_eq!(norm("/../x", "/a"), "/x");
}

#[test]
fn relative_path_is_appended_to_cwd() {
    assert_eq!(norm("x/y", "/a"), "/a/x/y");
}

#[test]
fn absolute_path_ignores_cwd() {
    assert_eq!(norm("/x", "/a/b"), "/x");
}

#[test]
fn empty_and_dot_components_are_skipped() {
    assert_eq!(norm("./x//y/.", "/a/"), "/a/x/y");
    assert_eq!(norm("", "/a/b/"), "/a/b");
    assert_eq!(norm(".", "/home/alice/"), "/home/alice");
    assert_eq!(norm("", ""), "/");
    assert_eq!(norm("/", "/a"), "/");
}

#[test]
fn backslashes_count_as_slashes() {
    assert_eq!(norm("x\\y", "\\a\\b"), "/a/b/x/y");
    assert_eq!(norm("\\x\\..\\y", "/a"), "/y");
}

#[test]
fn cwd_is_resolved_too() {
    assert_eq!(norm("c", "/a/../b/./"), "/b/c");
}

#[test]
fn components_compare_exactly() {
    assert_eq!(norm("A/../a", "/"), "/a");
    assert_eq!(norm("...", "/"), "/...");
    assert_eq!(norm("..a", "/x"), "/x/..a");
    assert_eq!(norm("目录/子", "/家"), "/家/目录/子");
}

#[test]
fn normalizing_twice_changes_nothing() {
    let cases = [
        ("..", "/a/b"),
        ("../../..", "/a"),
        ("x/y", "/a"),
        ("/x", "/a/b"),
        ("a\\b/../c", "q//r"),
        ("", ""),
        ("./.", "/"),
    ];
    for (raw, cwd) in cases {
        let once = norm(raw, cwd);
        assert_eq!(norm(&once, "/"), once);
    }
}

#[test]
fn parent_of_root_is_none() {
    assert_eq!(PathNormalizer::parent("/"), None);
    assert_eq!(PathNormalizer::parent(""), None);
    assert_eq!(PathNormalizer::parent("///"), None);
}

#[test]
fn parent_removes_last_component() {
    assert_eq!(PathNormalizer::parent("/a/b/c"), Some("/a/b".to_string()));
    assert_eq!(PathNormalizer::parent("/a"), Some("/".to_string()));
    assert_eq!(PathNormalizer::parent("/a/b/"), Some("/a".to_string()));
    assert_eq!(PathNormalizer::parent("name"), Some("/".to_string()));
    assert_eq!(PathNormalizer::parent("a\\b"), Some("a".to_string()));
    assert_eq!(PathNormalizer::parent("/home/alice/docs"), Some("/home/alice".to_string()));
}

#[test]
fn basename_is_last_component() {
    assert_eq!(PathNormalizer::basename("/a/b/c"), Some("c".to_string()));
    assert_eq!(PathNormalizer::basename("/"), Some("".to_string()));
    assert_eq!(PathNormalizer::basename("name"), Some("name".to_string()));
    assert_eq!(PathNormalizer::basename("/a/b/"), Some("".to_string()));
    assert_eq!(PathNormalizer::basename("a\\b"), Some("b".to_string()));
}
