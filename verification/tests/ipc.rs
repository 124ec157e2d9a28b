use deskunion::ipc::{
    old_socket, retain_live, ClientConfig, OldSocket, OperationMode, Position, DEFAULT_PORT,
};
use deskunion::net::{addr_string, dedup_ips, sort_ips, AddrMap, IpAddr, IpSet, SocketAddr};
use deskunion::proto::{EventType, ProtoEvent, ProtocolError};
use deskunion::text::{decimal_text, fingerprint_string, join, TextMap};

#[test]
fn operation_mode_defaults_to_unconfigured() {
    assert_eq!(OperationMode::default(), OperationMode::Unconfigured);
}

#[test]
fn positions_are_written_and_read() {
    for (pos, text) in [
        (Position::Left, "left"),
        (Position::Right, "right"),
        (Position::Top, "top"),
        (Position::Bottom, "bottom"),
    ] {
        assert_eq!(pos.as_str(), text);
        assert_eq!(pos.to_string(), text);
        assert!(matches!(Position::from_str(text), Ok(p) if p == pos));
        assert_eq!(Position::try_from(text), Ok(pos));
        assert_eq!(pos.opposite().opposite(), pos);
        assert_ne!(pos.opposite(), pos);
    }
    assert_eq!(Position::try_from("Left"), Err(()));
    match Position::from_str("middle") {
        Err(e) => assert_eq!(e.to_string(), "not a valid position: middle"),
        Ok(p) => panic!("read {p:?}"),
    }
    assert_eq!(Position::default(), Position::Left);
}

#[test]
fn configurations_start_out_on_the_default_port() {
    let c = ClientConfig::default();
    assert_eq!(c.port, DEFAULT_PORT);
    assert!(c.hostname.is_none() && c.fix_ips.is_empty() && c.fingerprint.is_none());
}

#[test]
fn an_old_socket_tells_whether_someone_answers() {
    assert_eq!(old_socket(false, false), OldSocket::Bind);
    assert_eq!(old_socket(true, false), OldSocket::RemoveAndBind);
    assert_eq!(old_socket(true, true), OldSocket::AlreadyRunning);
}

#[test]
fn dead_frontends_are_dropped_in_order() {
    let r = retain_live(vec!['a', 'b', 'c', 'd'], &vec![true, false, true, false]);
    assert_eq!(r, vec!['a', 'c']);
}

#[test]
fn addresses_are_sorted_and_unique() {
    let v = vec![IpAddr::V6(1), IpAddr::V4(9), IpAddr::V4(3), IpAddr::V4(9)];
    assert_eq!(
        sort_ips(&v),
        vec![IpAddr::V4(3), IpAddr::V4(9), IpAddr::V6(1)]
    );
    assert_eq!(
        dedup_ips(&v),
        vec![IpAddr::V6(1), IpAddr::V4(9), IpAddr::V4(3)]
    );
    let mut set = IpSet::new();
    set.insert_all(&v);
    set.insert(IpAddr::V4(3));
    assert_eq!(set.to_vec().len(), 3);
    assert!(set.contains(IpAddr::V6(1)) && !set.contains(IpAddr::V6(2)));
}

#[test]
fn address_maps_give_up_what_is_old() {
    let a = |p| SocketAddr::new(IpAddr::V4(1), p);
    let mut m = AddrMap::new();
    m.insert(a(1), 10);
    m.insert(a(2), 20);
    m.insert(a(1), 30);
    assert_eq!(m.get(a(1)), Some(30));
    assert_eq!(m.take_below(30), vec![a(2)]);
    assert_eq!(m.values(), vec![30]);
    assert_eq!(m.remove(a(1)), Some(30));
    assert_eq!(m.remove(a(1)), None);
}

#[test]
fn text_maps_hold_one_value_per_key() {
    let mut m: TextMap<u32> = TextMap::new();
    m.insert("a".to_owned(), 1);
    m.insert("b".to_owned(), 2);
    m.insert("a".to_owned(), 3);
    assert_eq!(m.len(), 2);
    assert_eq!(m.get("a"), Some(&3));
    assert_eq!(m.remove("b"), Some(2));
    assert!(!m.contains_key("b"));
    assert_eq!(m.entry(0), (&"a".to_owned(), &3));
}

#[test]
fn numbers_and_lists_as_text() {
    assert_eq!(decimal_text(0), "0");
    assert_eq!(decimal_text(u64::MAX), "18446744073709551615");
    assert_eq!(
        join(&vec!["a".to_owned(), "b".to_owned(), "c".to_owned()], ", "),
        "a, b, c"
    );
    assert_eq!(join(&vec![], ", "), "");
}

#[test]
fn malformed_events_are_refused() {
    assert_eq!(EventType::from_byte(12), Some(EventType::Audio));
    assert_eq!(EventType::from_byte(14), Some(EventType::AudioBatch));
    assert_eq!(EventType::from_byte(15), None);
    let mut buf = [0u8; 21];
    buf[0] = 15;
    assert!(matches!(
        ProtoEvent::decode(&buf),
        Err(ProtocolError::InvalidEventId(15))
    ));
    buf[0] = EventType::Enter.to_byte();
    buf[1] = 9;
    assert!(matches!(
        ProtoEvent::decode(&buf),
        Err(ProtocolError::InvalidPosition(9))
    ));
}

#[test]
fn addresses_as_text() {
    let a = SocketAddr::new(IpAddr::V4(0xC0A8_B20A), 4242);
    assert_eq!(addr_string(a, ""), "192.168.178.10:4242");
    let b = SocketAddr::new(IpAddr::V6(1), 80);
    assert_eq!(addr_string(b, "[::1]:80"), "[::1]:80");
}

#[test]
fn fingerprints_as_text() {
    assert_eq!(fingerprint_string(&vec![0xbc, 0x05, 0xab, 0x7a]), "bc:05:ab:7a");
    assert_eq!(fingerprint_string(&vec![]), "");
}
