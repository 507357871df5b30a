use chat_core::dispatcher::Dispatcher;

#[test]
fn identifiers_are_sequential_from_zero() {
    let mut d = Dispatcher::new();
    assert_eq!(d.accept(), Some(0));
    assert_eq!(d.accept(), Some(1));
    assert_eq!(d.accept(), Some(2));
}

#[test]
fn identifiers_stay_distinct_across_disconnects() {
    let mut d = Dispatcher::new();
    let mut seen = Vec::new();
    for _ in 0..50 {
        // A disconnect changes nothing for the dispatcher: identifiers are
        // never reused, whatever happened to earlier connections.
        let id = d.accept().unwrap();
        assert!(!seen.contains(&id));
        seen.push(id);
    }
}
