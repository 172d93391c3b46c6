use apoloo::localscope::{Local, LocalScope};

fn names(scope: &LocalScope) -> Vec<(String, i8)> {
    scope.locals.iter().map(|l| (l.name.clone(), l.depth)).collect()
}

fn declare(scope: &mut LocalScope, name: &str) {
    scope.add_local(&name.to_string());
    scope.mark_initialized();
}

#[test]
fn new_table_is_at_global_scope() {
    let scope = LocalScope::new();
    assert_eq!(scope.scope_depth, 0);
    assert!(scope.locals.is_empty());
    assert!(!scope.contains("a"));
    assert_eq!(scope.resolve_local("a"), None);
}

#[test]
fn local_new_keeps_its_parts() {
    let local = Local::new("a".to_string(), 3);
    assert_eq!(local.name, "a");
    assert_eq!(local.depth, 3);
}

#[test]
fn declared_local_is_uninitialized_until_marked() {
    let mut scope = LocalScope::new();
    scope.begin_scope();
    scope.add_local(&"a".to_string());
    assert_eq!(names(&scope), vec![("a".to_string(), -1)]);
    assert!(scope.is_uninitialized(0));
    assert!(scope.contains("a"));
    assert_eq!(scope.resolve_local("a"), Some(0));
    scope.mark_initialized();
    assert_eq!(names(&scope), vec![("a".to_string(), 1)]);
    assert!(!scope.is_uninitialized(0));
    assert!(!scope.is_uninitialized(1));
    scope.mark_initialized();
    assert_eq!(names(&scope), vec![("a".to_string(), 1)]);
}

#[test]
fn mark_initialized_leaves_an_outer_local_alone() {
    let mut scope = LocalScope::new();
    scope.begin_scope();
    declare(&mut scope, "a");
    scope.begin_scope();
    scope.mark_initialized();
    assert_eq!(names(&scope), vec![("a".to_string(), 1)]);
}

#[test]
fn scopes_nest_and_discard_their_locals() {
    let mut scope = LocalScope::new();
    scope.begin_scope();
    declare(&mut scope, "a");
    declare(&mut scope, "b");
    scope.begin_scope();
    assert_eq!(scope.scope_depth, 2);
    declare(&mut scope, "c");
    declare(&mut scope, "d");
    declare(&mut scope, "e");
    scope.begin_scope();
    assert_eq!(scope.end_scope(), 0);
    assert_eq!(scope.end_scope(), 3);
    assert_eq!(scope.scope_depth, 1);
    assert_eq!(names(&scope), vec![("a".to_string(), 1), ("b".to_string(), 1)]);
    assert_eq!(scope.end_scope(), 2);
    assert_eq!(scope.scope_depth, 0);
    assert!(scope.locals.is_empty());
}

#[test]
fn end_scope_discards_an_uninitialized_local() {
    let mut scope = LocalScope::new();
    scope.begin_scope();
    declare(&mut scope, "a");
    scope.begin_scope();
    scope.add_local(&"b".to_string());
    assert_eq!(scope.end_scope(), 1);
    assert_eq!(names(&scope), vec![("a".to_string(), 1)]);
}

#[test]
fn contains_looks_only_at_the_current_scope() {
    let mut scope = LocalScope::new();
    scope.begin_scope();
    declare(&mut scope, "a");
    scope.begin_scope();
    declare(&mut scope, "b");
    assert!(scope.contains("b"));
    assert!(!scope.contains("a"));
    assert!(!scope.contains("c"));
    scope.end_scope();
    assert!(scope.contains("a"));
    assert!(!scope.contains("b"));
}

#[test]
fn resolve_finds_the_innermost_local() {
    let mut scope = LocalScope::new();
    scope.begin_scope();
    declare(&mut scope, "a");
    declare(&mut scope, "b");
    scope.begin_scope();
    declare(&mut scope, "a");
    assert_eq!(scope.resolve_local("a"), Some(2));
    assert_eq!(scope.resolve_local("b"), Some(1));
    assert_eq!(scope.resolve_local("c"), None);
    scope.end_scope();
    assert_eq!(scope.resolve_local("a"), Some(0));
}

#[test]
fn the_last_slot_is_resolved() {
    let mut scope = LocalScope::new();
    scope.begin_scope();
    for i in 0..256 {
        declare(&mut scope, &format!("v{}", i));
    }
    assert_eq!(scope.locals.len(), 256);
    assert_eq!(scope.resolve_local("v255"), Some(255));
    assert_eq!(scope.resolve_local("v0"), Some(0));
    assert_eq!(scope.end_scope(), 256);
}
