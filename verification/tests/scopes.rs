use reims_vgpu::scope::ScopeRegistry;

#[test]
fn snapshot_scope_references_expire_and_never_name_a_later_command() {
    let mut scopes = ScopeRegistry::new();
    let scope = scopes.open();
    let first = scope.reference();
    let id = first.current(&scopes).unwrap();
    assert_eq!(first.clone().current(&scopes), Some(id));
    scopes.close(scope);
    assert_eq!(first.current(&scopes), None);
    let next = scopes.open();
    assert_ne!(next.reference().current(&scopes), Some(id));
    assert_eq!(first.current(&scopes), None);
}

#[test]
fn closing_one_scope_leaves_the_others_open() {
    let mut scopes = ScopeRegistry::new();
    let (a, b, c) = (scopes.open(), scopes.open(), scopes.open());
    let (ra, rb, rc) = (a.reference(), b.reference(), c.reference());
    scopes.close(b);
    assert!(ra.current(&scopes).is_some());
    assert!(rb.current(&scopes).is_none());
    assert!(rc.current(&scopes).is_some());
    assert_ne!(ra.current(&scopes), rc.current(&scopes));
}
