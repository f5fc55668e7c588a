use happy_remote::connections::{ConnectionManager, MAX_BUFFER_BYTES};

#[test]
fn users_receive_broadcasts() {
    let mut c = ConnectionManager::new();
    c.register_user("alice", 1);
    c.register_user("alice", 2);
    c.register_user("bob", 3);
    assert_eq!(c.send_to_user("alice"), vec![1, 2]);
    assert_eq!(c.broadcast_to_all_users(), vec![1, 2, 3]);
    c.unregister_user("alice");
    assert!(c.send_to_user("alice").is_empty());
    assert_eq!(c.broadcast_to_all_users(), vec![3]);
}

#[test]
fn cli_routing() {
    let mut c = ConnectionManager::new();
    assert!(!c.has_cli("s1"));
    c.register_cli("s1", 10);
    assert!(c.has_cli("s1"));
    assert_eq!(c.forward_to_cli("s1"), Some(10));
    c.unregister_cli("s1");
    assert_eq!(c.forward_to_cli("s1"), None);
}

#[test]
fn machine_registration_is_undone_by_its_connection_only() {
    let mut c = ConnectionManager::new();
    c.register_machine("m1", "conn-a", 5);
    assert!(c.has_machine("m1"));
    assert_eq!(c.get_machine_tx("m1"), Some(5));
    c.unregister_machine("m1", "conn-b");
    assert!(c.has_machine("m1"));
    c.unregister_machine("m1", "conn-a");
    assert!(!c.has_machine("m1"));
    assert_eq!(c.get_machine_tx("m1"), None);
}

#[test]
fn pending_requests_are_taken_once() {
    let mut c = ConnectionManager::new();
    c.register_pending_request("r1", 4);
    assert_eq!(c.take_pending_request("r1"), Some(4));
    assert_eq!(c.take_pending_request("r1"), None);
}

#[test]
fn web_viewers() {
    let mut c = ConnectionManager::new();
    c.register_web("s1", 7);
    c.register_web("s1", 8);
    c.register_web("s2", 9);
    assert_eq!(c.broadcast_to_web("s1"), vec![7, 8]);
    let mut all = c.broadcast_to_all_web();
    all.sort();
    assert_eq!(all, vec![7, 8, 9]);
    c.unregister_web("s1");
    assert!(c.broadcast_to_web("s1").is_empty());
}

#[test]
fn output_buffer_keeps_the_tail() {
    let mut c = ConnectionManager::new();
    assert_eq!(c.get_output_buffer("s"), None);
    c.append_output("s", b"hello ");
    c.append_output("s", b"world");
    assert_eq!(c.get_output_buffer("s"), Some(b"hello world".to_vec()));
    let big = vec![1u8; MAX_BUFFER_BYTES];
    c.append_output("s", &big);
    let buf = c.get_output_buffer("s").unwrap();
    assert_eq!(buf.len(), MAX_BUFFER_BYTES);
    assert!(buf.iter().all(|b| *b == 1));
    c.set_output_buffer("s", vec![2; MAX_BUFFER_BYTES + 3]);
    assert_eq!(c.get_output_buffer("s").unwrap().len(), MAX_BUFFER_BYTES);
}
