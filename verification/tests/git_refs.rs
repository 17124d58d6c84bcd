use agile_kanban::git_refs::{is_valid_branch_name, is_valid_branch_prefix};

#[test]
fn test_valid_prefixes() {
    assert!(is_valid_branch_prefix(""));
    assert!(is_valid_branch_prefix("vk"));
    assert!(is_valid_branch_prefix("feature"));
    assert!(is_valid_branch_prefix("hotfix-123"));
    assert!(is_valid_branch_prefix("foo.bar"));
    assert!(is_valid_branch_prefix("foo_bar"));
    assert!(is_valid_branch_prefix("FOO-Bar"));
}

#[test]
fn test_invalid_prefixes() {
    assert!(!is_valid_branch_prefix("foo/bar"));
    assert!(!is_valid_branch_prefix("foo..bar"));
    assert!(!is_valid_branch_prefix("foo@{"));
    assert!(!is_valid_branch_prefix("foo.lock"));
    assert!(!is_valid_branch_prefix("foo bar"));
    assert!(!is_valid_branch_prefix("foo?"));
    assert!(!is_valid_branch_prefix("foo*"));
    assert!(!is_valid_branch_prefix("foo~"));
    assert!(!is_valid_branch_prefix("foo^"));
    assert!(!is_valid_branch_prefix("foo:"));
    assert!(!is_valid_branch_prefix("foo["));
    assert!(!is_valid_branch_prefix("/foo"));
    assert!(!is_valid_branch_prefix("foo/"));
    assert!(!is_valid_branch_prefix(".foo"));
}

#[test]
fn test_valid_branch_names() {
    assert!(is_valid_branch_name("main"));
    assert!(is_valid_branch_name("staging"));
    assert!(is_valid_branch_name("feature/foo"));
}

#[test]
fn test_invalid_branch_names() {
    assert!(!is_valid_branch_name(""));
    assert!(!is_valid_branch_name(" "));
    assert!(!is_valid_branch_name("foo..bar"));
    assert!(!is_valid_branch_name("foo lock"));
}

#[test]
fn nul_in_branch_name_is_refused() {
    assert!(!is_valid_branch_name("a\0b"));
}
