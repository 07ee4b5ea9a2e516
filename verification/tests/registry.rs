use multiplayer::registry::{Clients, UnauthedConnections};

#[test]
fn connection_numbers_are_never_reused() {
    let mut conns: UnauthedConnections<char> = UnauthedConnections::new();
    assert_eq!(conns.insert('a'), 0);
    assert_eq!(conns.insert('b'), 1);
    assert_eq!(conns.remove(1), Some('b'));
    assert_eq!(conns.insert('c'), 2);
    assert_eq!(conns.position(2), Some(1));
    assert_eq!(conns.position(1), None);
    assert_eq!(conns.remove(7), None);
}

#[test]
fn connections_can_be_changed_in_place() {
    let mut conns: UnauthedConnections<u32> = UnauthedConnections::new();
    conns.insert(10);
    conns.insert(20);
    if let Some(c) = conns.get_mut(1) {
        *c += 1;
    }
    assert_eq!(conns.inner, vec![(0, 10), (1, 21)]);
    assert!(conns.get_mut(5).is_none());
}

#[test]
fn stale_connections_are_removed_in_order() {
    let mut conns: UnauthedConnections<char> = UnauthedConnections::new();
    for c in ['a', 'b', 'c', 'd'] {
        conns.insert(c);
    }
    let removed = conns.remove_stale(&vec![11, 10, 12, 0], 10);
    assert_eq!(removed, vec![0, 2]);
    assert_eq!(conns.inner, vec![(1, 'b'), (3, 'd')]);
    assert_eq!(conns.insert('e'), 4);
}

#[test]
fn clients_are_keyed_by_id() {
    let mut clients: Clients<u8> = Clients::new();
    clients.insert("x".to_string(), "ex".to_string(), 1);
    clients.insert("y".to_string(), "why".to_string(), 2);
    clients.insert("x".to_string(), "ex2".to_string(), 3);
    assert_eq!(clients.names(), vec![("x".to_string(), "ex2".to_string()), ("y".to_string(), "why".to_string())]);
    assert_eq!(clients.position(&"y".to_string()), Some(1));
    if let Some(c) = clients.get_mut(&"y".to_string()) {
        *c = 9;
    }
    assert_eq!(clients.remove(&"y".to_string()), Some(("why".to_string(), 9)));
    assert_eq!(clients.remove(&"y".to_string()), None);
    assert_eq!(clients.inner.len(), 1);
}

#[test]
fn stale_clients_are_removed_in_order() {
    let mut clients: Clients<u8> = Clients::new();
    for (i, id) in ["p", "q", "r"].iter().enumerate() {
        clients.insert(id.to_string(), id.to_uppercase(), i as u8);
    }
    let removed = clients.remove_stale(&vec![5, 50, 51], 50);
    assert_eq!(removed, vec!["r".to_string()]);
    assert_eq!(clients.names().len(), 2);
    let removed = clients.remove_stale(&vec![0, 0], 50);
    assert!(removed.is_empty());
}

#[test]
fn a_sweep_keeps_or_removes_every_entry() {
    let mut conns: UnauthedConnections<u8> = UnauthedConnections::new();
    for i in 0..6 {
        conns.insert(i);
    }
    let removed = conns.remove_stale(&vec![1, 9, 2, 9, 3, 9], 5);
    assert_eq!(removed.len() + conns.inner.len(), 6);
    assert_eq!(removed, vec![1, 3, 5]);
}
