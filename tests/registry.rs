use chat_server::registry::Registry;

#[test]
fn broadcast_reaches_every_peer_with_the_same_frame() {
    let mut r = Registry::new();
    let a = r.register();
    let b = r.register();
    let c = r.register();
    let frame = String::from("{\"content\":\"hi\"}");
    let out = r.broadcast(&frame);
    assert_eq!(out.len(), 3);
    let peers: Vec<u64> = out.iter().map(|d| d.peer).collect();
    assert_eq!(peers, vec![a, b, c]);
    assert!(out.iter().all(|d| d.frame == frame));
}

#[test]
fn broadcast_to_empty_registry_sends_nothing() {
    let r = Registry::new();
    assert!(r.broadcast(&String::from("x")).is_empty());
}

#[test]
fn many_registrations_are_all_kept() {
    let mut r = Registry::new();
    let mut ids = Vec::new();
    for _ in 0..1000 {
        assert!(r.has_room());
        ids.push(r.register());
    }
    assert_eq!(r.len(), 1000);
    let mut sorted = ids.clone();
    sorted.sort();
    sorted.dedup();
    assert_eq!(sorted.len(), 1000);
    assert!(ids.iter().all(|id| r.contains(*id)));
    assert_eq!(r.broadcast(&String::from("f")).len(), 1000);
}

#[test]
fn unregister_removes_only_that_peer() {
    let mut r = Registry::new();
    let a = r.register();
    let b = r.register();
    let c = r.register();
    assert!(r.unregister(b));
    assert!(!r.unregister(b));
    assert!(!r.contains(b));
    let peers: Vec<u64> = r.broadcast(&String::from("f")).iter().map(|d| d.peer).collect();
    assert_eq!(peers, vec![a, c]);
    let d = r.register();
    assert!(d != a && d != b && d != c);
}
