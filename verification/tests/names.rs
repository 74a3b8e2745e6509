use fact_store::names::{valid_dependency_role, valid_namespace};

#[test]
fn namespaces_are_lowercase_segments() {
    assert!(valid_namespace("example.test"));
    assert!(valid_namespace("a/b-c.d"));
    assert!(valid_namespace("x1"));
    assert!(!valid_namespace(""));
    assert!(!valid_namespace(".example"));
    assert!(!valid_namespace("example/"));
    assert!(!valid_namespace("-x"));
    assert!(!valid_namespace("a..b"));
    assert!(!valid_namespace("a./b"));
    assert!(!valid_namespace("Example"));
    assert!(!valid_namespace("a_b"));
    assert!(!valid_namespace("a b"));
}

#[test]
fn dependency_roles_are_lowercase_segments() {
    assert!(valid_dependency_role("required-dependency"));
    assert!(valid_dependency_role("admin-authority"));
    assert!(valid_dependency_role("a.b_c-d"));
    assert!(valid_dependency_role("x"));
    assert!(!valid_dependency_role(""));
    assert!(!valid_dependency_role("-x"));
    assert!(!valid_dependency_role("x_"));
    assert!(!valid_dependency_role("a__b"));
    assert!(!valid_dependency_role("a/b"));
    assert!(!valid_dependency_role("Role"));
}
