use hotreload::async_resolve::AsyncResolve;

#[test]
fn test_resolve_before_wait() {
    let mut resolver = AsyncResolve::new();
    resolver.resolve(42);

    let result = resolver.wait().unwrap();
    assert_eq!(result, 42);
}

#[test]
fn test_resolve_after_wait() {
    let mut resolver = AsyncResolve::new();
    assert!(resolver.must_wait());

    resolver.resolve(42);
    assert!(!resolver.must_wait());

    let result = resolver.wait().unwrap();
    assert_eq!(result, 42);
}

#[test]
fn test_is_resolved() {
    let mut resolver = AsyncResolve::<i32>::new();
    assert!(!resolver.is_resolved());

    resolver.resolve(42);
    assert!(resolver.is_resolved());
}

#[test]
fn test_get() {
    let mut resolver = AsyncResolve::<String>::new();
    assert_eq!(resolver.get(), None);

    resolver.resolve("hello".to_string());
    assert_eq!(resolver.get(), Some("hello".to_string()));
}

#[test]
fn woken_without_a_value() {
    let mut resolver = AsyncResolve::<i32>::new();
    resolver.complete();
    assert!(!resolver.must_wait());
    assert_eq!(
        resolver.wait(),
        Err("Value should be resolved but is not available".to_string())
    );
}

#[test]
fn a_stored_value_can_be_taken_before_anyone_is_told() {
    let mut resolver = AsyncResolve::<i32>::default();
    resolver.store(7);
    assert!(resolver.is_resolved());
    assert!(!resolver.must_wait());
    assert_eq!(resolver.wait(), Ok(7));
}

#[test]
fn the_last_resolve_wins() {
    let mut resolver = AsyncResolve::new();
    resolver.resolve(1);
    resolver.resolve(2);
    assert_eq!(resolver.get(), Some(2));
    resolver.complete();
    assert_eq!(resolver.wait(), Ok(2));
}
