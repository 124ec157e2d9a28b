use deskunion::client::{fits, ClientManager, ConfigClient, MAX_CLIENTS};
use deskunion::ipc::{ClientConfig, ClientHandle, ClientState, Position};
use deskunion::net::{IpAddr, SocketAddr};

fn addr_v4(a: u8, b: u8, c: u8, d: u8, port: u16) -> SocketAddr {
    SocketAddr::new(IpAddr::V4(u32::from_be_bytes([a, b, c, d])), port)
}

fn paired_manager(fingerprint: &str) -> (ClientManager, ClientHandle) {
    let mut manager = ClientManager::default();
    let handle = manager.add_client();
    manager.set_config(
        handle,
        ClientConfig {
            fingerprint: Some(fingerprint.to_owned()),
            ..Default::default()
        },
    );
    (manager, handle)
}

#[test]
fn fingerprint_lookup_finds_paired_client() {
    let (manager, handle) = paired_manager("aa:bb");
    assert_eq!(manager.get_client_by_fingerprint("aa:bb"), Some(handle));
    assert_eq!(manager.get_client_by_fingerprint("cc:dd"), None);
}

#[test]
fn active_addr_reverse_lookup() {
    let (mut manager, handle) = paired_manager("aa:bb");
    let addr = addr_v4(10, 0, 2, 15, 4242);
    assert_eq!(manager.get_client_by_active_addr(addr), None);
    manager.set_active_addr(handle, Some(addr));
    assert_eq!(manager.get_client_by_active_addr(addr), Some(handle));
    manager.set_active_addr(handle, None);
    assert_eq!(manager.get_client_by_active_addr(addr), None);
}

/// a connected-but-unpaired device is parked: it has no client
/// handle, so no capture barrier can ever be created for it and
/// `Enter` can never be routed to it, until the user assigns a
/// position, which binds fingerprint -> handle -> active addr.
#[test]
fn parked_device_cannot_be_entered() {
    let mut manager = ClientManager::default();
    let addr = addr_v4(10, 0, 2, 15, 4242);
    manager.park("aa:bb".to_owned(), addr);

    // no handle exists for the parked fingerprint ...
    assert_eq!(manager.get_client_by_fingerprint("aa:bb"), None);
    // ... and no client is bound to its address
    assert_eq!(manager.get_client_by_active_addr(addr), None);

    // assigning a position pairs the device: the parked connection
    // becomes the new client's active address
    let handle = manager.add_client();
    manager.set_config(
        handle,
        ClientConfig {
            fingerprint: Some("aa:bb".to_owned()),
            ..Default::default()
        },
    );
    let parked_addr = manager.unpark("aa:bb");
    assert_eq!(parked_addr, Some(addr));
    manager.set_active_addr(handle, parked_addr);
    manager.activate_client(handle);
    assert_eq!(manager.get_client_by_fingerprint("aa:bb"), Some(handle));
    assert_eq!(manager.get_client_by_active_addr(addr), Some(handle));
}

fn occupy(manager: &mut ClientManager, pos: Position) {
    let handle = manager.add_client();
    manager.set_config(
        handle,
        ClientConfig {
            pos,
            ..Default::default()
        },
    );
}

/// auto-pairing picks the right edge first and only falls back to
/// the manual prompt once all four edges are configured
#[test]
fn first_free_position_prefers_right_then_falls_back() {
    let mut manager = ClientManager::default();
    assert_eq!(manager.first_free_position(), Some(Position::Right));
    occupy(&mut manager, Position::Right);
    assert_eq!(manager.first_free_position(), Some(Position::Left));
    occupy(&mut manager, Position::Left);
    assert_eq!(manager.first_free_position(), Some(Position::Top));
    occupy(&mut manager, Position::Top);
    assert_eq!(manager.first_free_position(), Some(Position::Bottom));
    occupy(&mut manager, Position::Bottom);
    assert_eq!(manager.first_free_position(), None);
}

/// an inactive client still blocks its edge: pairing a new device
/// there would silently deactivate the existing one
#[test]
fn first_free_position_counts_inactive_clients() {
    let mut manager = ClientManager::default();
    let handle = manager.add_client();
    manager.set_config(
        handle,
        ClientConfig {
            pos: Position::Right,
            ..Default::default()
        },
    );
    manager.deactivate_client(handle);
    assert_eq!(manager.first_free_position(), Some(Position::Left));
}

#[test]
fn unpark_addr_only_removes_parked_devices() {
    let (mut manager, handle) = paired_manager("aa:bb");
    let addr = addr_v4(10, 0, 2, 15, 4242);
    manager.set_active_addr(handle, Some(addr));
    // a paired connection's address must not be confused with a
    // parked one on disconnect
    assert_eq!(manager.unpark_addr(addr), None);
    assert_eq!(manager.get_client_by_active_addr(addr), Some(handle));

    let parked_addr = addr_v4(10, 0, 2, 16, 4242);
    manager.park("cc:dd".to_owned(), parked_addr);
    assert_eq!(manager.unpark_addr(parked_addr).as_deref(), Some("cc:dd"));
    assert_eq!(manager.unpark("cc:dd"), None);
}

#[test]
fn handles_are_used_again_last_freed_first() {
    let mut m = ClientManager::default();
    assert_eq!((m.add_client(), m.add_client(), m.add_client()), (0, 1, 2));
    assert!(m.remove_client(0).is_some());
    assert!(m.remove_client(2).is_some());
    assert!(m.remove_client(2).is_none());
    assert_eq!(m.registered_clients(), vec![1]);
    assert_eq!(m.add_client(), 2);
    assert_eq!(m.add_client(), 0);
    assert_eq!(m.add_client(), 3);
    assert_eq!(m.registered_clients(), vec![0, 1, 2, 3]);
    assert!(m.has_room(1));
    assert!(fits(MAX_CLIENTS - 1, 1) && !fits(MAX_CLIENTS, 1));
    assert!(!m.has_room(MAX_CLIENTS + 1));
}

#[test]
fn config_file_entry_becomes_a_client() {
    let ip = IpAddr::V4(0x0a00_020f);
    let mut m = ClientManager::default();
    let h = m.add_with_config(ConfigClient {
        ips: vec![ip],
        hostname: Some("lab".to_owned()),
        port: 4243,
        pos: Position::Top,
        active: true,
        enter_hook: Some("notify".to_owned()),
        fingerprint: None,
    });
    let (config, state) = m.get_state(h).expect("client");
    assert_eq!(config.fix_ips, vec![ip]);
    assert_eq!(config.cmd.as_deref(), Some("notify"));
    assert!(state.active && state.ips.contains(ip) && !state.alive);
    assert_eq!(m.active_clients(), vec![h]);
    assert_eq!(m.client_at(Position::Top), Some(h));
    assert_eq!(m.get_client(SocketAddr::new(ip, 1)), Some(h));
    assert_eq!(m.clients().len(), 1);
    assert_eq!(m.get_client_states()[0].0, h);
    assert_eq!(m.get_enter_cmd(h).as_deref(), Some("notify"));
}

#[test]
fn host_name_change_forgets_what_was_resolved() {
    let mut m = ClientManager::default();
    let h = m.add_client();
    let (fix, dns) = (IpAddr::V4(1), IpAddr::V6(2));
    m.set_fix_ips(h, vec![fix]);
    m.set_dns_ips(h, vec![dns]);
    m.set_active_addr(h, Some(SocketAddr::new(dns, 4242)));
    assert!(m.get_state(h).expect("client").1.ips.contains(dns));
    assert!(m.set_hostname(h, Some("a".to_owned())));
    assert!(!m.set_hostname(h, Some("a".to_owned())));
    let state = m.get_state(h).expect("client").1;
    assert!(state.ips.contains(fix) && !state.ips.contains(dns));
    assert_eq!(m.active_addr(h), None);
    assert_eq!(m.get_hostname(h).as_deref(), Some("a"));
}

#[test]
fn port_change_rebuilds_the_connection_address() {
    let mut m = ClientManager::default();
    let h = m.add_client();
    m.set_active_addr(
        h,
        Some(SocketAddr::V6 {
            ip: 1,
            port: 4242,
            flowinfo: 7,
            scope_id: 3,
        }),
    );
    m.set_port(h, 4242);
    assert_eq!(m.active_addr(h), Some(SocketAddr::V6 { ip: 1, port: 4242, flowinfo: 7, scope_id: 3 }));
    m.set_port(h, 5000);
    assert_eq!(m.active_addr(h), Some(SocketAddr::new(IpAddr::V6(1), 5000)));
}

#[test]
fn moving_an_active_client_moves_the_capture() {
    let mut m = ClientManager::default();
    let h = m.add_client();
    assert!(!m.set_pos(h, Position::Right));
    assert!(m.activate_client(h));
    assert!(!m.activate_client(h));
    assert!(!m.set_pos(h, Position::Right));
    assert!(m.set_pos(h, Position::Top));
    assert_eq!(m.get_pos(h), Some(Position::Top));
    assert_eq!(m.get_pos(99), None);
}

#[test]
fn unknown_handles_change_nothing() {
    let mut m = ClientManager::default();
    m.set_state(5, ClientState::default());
    m.set_alive(5, true);
    m.set_resolving(5, true);
    m.set_peer_commit(5, Some(*b"abcdefgh"));
    m.set_enter_hook(5, None);
    assert!(!m.alive(5) && !m.deactivate_client(5));
    assert!(m.registered_clients().is_empty());
}

#[test]
fn room_counts_the_clients_that_are_there() {
    let mut m = ClientManager::default();
    assert!(m.has_room(MAX_CLIENTS) && !m.has_room(MAX_CLIENTS + 1));
    let a = m.add_client();
    m.add_client();
    assert!(m.has_room(MAX_CLIENTS - 2) && !m.has_room(MAX_CLIENTS - 1));
    // a slot that is vacant again is room
    m.remove_client(a);
    assert!(m.has_room(MAX_CLIENTS - 1) && !m.has_room(MAX_CLIENTS));
}

#[test]
fn an_address_named_twice_counts_once() {
    let (a, b) = (IpAddr::V4(1), IpAddr::V6(2));
    let mut m = ClientManager::default();
    let h = m.add_with_config(ConfigClient {
        ips: vec![a, b, a],
        hostname: None,
        port: 4242,
        pos: Position::Left,
        active: false,
        enter_hook: None,
        fingerprint: None,
    });
    let (config, state) = m.get_state(h).expect("client");
    assert_eq!(config.fix_ips, vec![a, b]);
    assert_eq!(state.ips.to_vec().len(), 2);
}
