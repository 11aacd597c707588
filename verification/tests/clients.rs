use signaling::clients::{ClientAddr, Clients};

fn addr(port: u16) -> ClientAddr {
    ClientAddr { is_v6: false, ip: 0x7f00_0001, port, flow_info: 0, scope_id: 0 }
}

#[test]
fn nobody_is_registered_at_first() {
    let clients: Clients<u8> = Clients::new();
    assert!(!clients.contains(addr(1)));
    assert_eq!(clients.get(addr(1)), None);
    assert!(clients.recipients(addr(1)).is_empty());
}

#[test]
fn a_registered_client_is_found() {
    let mut clients = Clients::new();
    assert_eq!(clients.insert(addr(1), "one"), None);
    assert_eq!(clients.insert(addr(2), "two"), None);
    assert!(clients.contains(addr(1)));
    assert_eq!(clients.get(addr(1)), Some(&"one"));
    assert_eq!(clients.get(addr(2)), Some(&"two"));
    assert_eq!(clients.get(addr(3)), None);
}

#[test]
fn registering_again_replaces_the_handle() {
    let mut clients = Clients::new();
    clients.insert(addr(1), "old");
    clients.insert(addr(2), "two");
    assert_eq!(clients.insert(addr(1), "new"), Some("old"));
    assert_eq!(clients.get(addr(1)), Some(&"new"));
    assert_eq!(clients.recipients(addr(2)), vec![addr(1)]);
}

#[test]
fn removing_leaves_the_others() {
    let mut clients = Clients::new();
    clients.insert(addr(1), 1);
    clients.insert(addr(2), 2);
    clients.insert(addr(3), 3);
    assert_eq!(clients.remove(addr(2)), Some(2));
    assert_eq!(clients.remove(addr(2)), None);
    assert_eq!(clients.get(addr(1)), Some(&1));
    assert_eq!(clients.get(addr(2)), None);
    assert_eq!(clients.get(addr(3)), Some(&3));
}

#[test]
fn unregistering_undoes_registering() {
    let mut clients = Clients::new();
    clients.insert(addr(1), 1);
    clients.insert(addr(2), 2);
    clients.insert(addr(3), 3);
    clients.remove(addr(3));
    assert_eq!(clients.recipients(addr(9)), vec![addr(1), addr(2)]);
}

#[test]
fn recipients_are_all_others() {
    let mut clients = Clients::new();
    for port in 1..5 {
        clients.insert(addr(port), port);
    }
    assert_eq!(clients.recipients(addr(3)), vec![addr(1), addr(2), addr(4)]);
    assert_eq!(clients.recipients(addr(9)).len(), 4);
}

#[test]
fn addresses_differ_in_every_part() {
    let v4 = addr(1);
    let v6 = ClientAddr { is_v6: true, ..v4 };
    let scoped = ClientAddr { scope_id: 7, ..v6 };
    let flowing = ClientAddr { flow_info: 7, ..v6 };
    let mut clients = Clients::new();
    clients.insert(v4, 4);
    clients.insert(v6, 6);
    clients.insert(scoped, 7);
    clients.insert(flowing, 8);
    assert_eq!(clients.get(v4), Some(&4));
    assert_eq!(clients.get(v6), Some(&6));
    assert_eq!(clients.get(scoped), Some(&7));
    assert_eq!(clients.get(flowing), Some(&8));
}
