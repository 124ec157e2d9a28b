use deskunion::connect::{
    audio_control_datagram, batch_packets, batch_step, count_sent, gather_batch, local_bind_addr,
    on_server_datagram, proves_alive, tries_again, unspecified_addr, Attempts, BatchStep,
    ConnectError, ConnectionEvent, DialAction, DialStep, Dialer, ServerStep, ServerTarget,
    AUDIO_BATCH_FRAMES, AUTHORIZATION_WAIT_MS,
};
use deskunion::datagram::{decode, AudioControlCmd, Datagram};
use deskunion::emulation::{
    to_ipc_pos, DialTask, DialWork, EmulateStep, EmulationEvent, EmulationRequest, EmulationTask,
    ProxyRequest, PEER_IDLE_TIMEOUT_MS,
};
use deskunion::ipc;
use deskunion::net::{IpAddr, SocketAddr};
use deskunion::proto::{
    InputEvent, KeyboardEvent, PointerEvent, Position, ProtoEvent, ProtocolError,
};
use std::collections::VecDeque;

const LOCALHOST_V4: IpAddr = IpAddr::V4(0x7f00_0001);
const LOCALHOST_V6: IpAddr = IpAddr::V6(1);

fn addr(port: u16) -> SocketAddr {
    SocketAddr::new(LOCALHOST_V4, port)
}

/// the dialing socket must not sit on the wildcard: a machine that only
/// dials out should not be asked for network permission
#[test]
fn dial_socket_binds_the_routed_interface() {
    let v4 = local_bind_addr(addr(4242), Some(addr(33_333)));
    assert_eq!(v4.ip(), LOCALHOST_V4);
    assert_eq!(v4, SocketAddr::new(LOCALHOST_V4, 0));
    assert_ne!(v4.ip(), IpAddr::V4(0));
}

/// ... and it must match the peer's address family
#[test]
fn dial_socket_matches_the_peer_address_family() {
    let peer = SocketAddr::new(LOCALHOST_V6, 4242);
    let v6 = local_bind_addr(peer, Some(SocketAddr::new(LOCALHOST_V6, 33_333)));
    assert!(matches!(v6, SocketAddr::V6 { .. }), "{v6:?} should be IPv6");
    assert_eq!(v6.ip(), LOCALHOST_V6);
    // with no route known the wildcard of the same family is taken
    assert_eq!(
        local_bind_addr(peer, None),
        SocketAddr::new(IpAddr::V6(0), 0)
    );
    assert_eq!(unspecified_addr(addr(1)), SocketAddr::new(IpAddr::V4(0), 0));
}

#[test]
fn batching_drains_the_queue_without_waiting_for_more() {
    // one follow-up already queued, so a full batch of
    // AUDIO_BATCH_FRAMES is never reachable without waiting
    let mut queue = VecDeque::new();
    queue.push_back((1, 20, vec![0u8; 40]));
    let mut sent = 0u64;
    let batch = gather_batch((0, 0, vec![0u8; 40]), &mut queue);
    // exactly one datagram, which holds both frames in order
    let packets = batch_packets(&batch);
    assert_eq!(packets.len(), 1);
    match decode(&packets[0].bytes).expect("decode") {
        Datagram::AudioBatch(frames) => {
            assert_eq!(frames.len(), 2);
            assert_eq!((frames[0].seq, frames[0].ts_ms), (0, 0));
            assert_eq!((frames[1].seq, frames[1].ts_ms), (1, 20));
            for f in &frames {
                assert_eq!(packets[0].bytes[f.payload_range.clone()], [0u8; 40]);
            }
        }
        other => panic!("expected a batch, got {other:?}"),
    }
    for p in &packets {
        assert!(count_sent(&mut sent, p.frames, true));
    }
    assert_eq!(sent, 2, "the queued follow-up should have been drained");
    assert!(queue.is_empty());
}

#[test]
fn batches_hold_a_few_frames_in_order() {
    let mut queue = VecDeque::new();
    for seq in 1..6 {
        queue.push_back((seq, seq * 20, vec![seq as u8]));
    }
    let batch = gather_batch((0, 0, vec![0]), &mut queue);
    assert_eq!(batch.len(), AUDIO_BATCH_FRAMES);
    assert_eq!((batch[1].0, batch[2].0), (1, 2));
    assert_eq!(queue.len(), 3);
    let mut sent = 5;
    assert!(!count_sent(&mut sent, 3, true));
    assert_eq!(sent, 8);
    assert!(!count_sent(&mut sent, 3, false));
    assert_eq!(sent, 8);
}

#[test]
fn oversized_batches_are_sent_singly() {
    let long = vec![7u8; 700];
    let packets = batch_packets(&vec![(0, 0, long.clone()), (1, 20, long), (2, 40, vec![9; 1190])]);
    // the last one is too long even alone
    assert_eq!(packets.len(), 2);
    for (i, p) in packets.iter().enumerate() {
        assert_eq!(p.frames, 1);
        match decode(&p.bytes).expect("decode") {
            Datagram::Audio {
                seq, payload_range, ..
            } => {
                assert_eq!(seq, i as u32);
                assert_eq!(p.bytes[payload_range], [7u8; 700]);
            }
            other => panic!("expected a frame, got {other:?}"),
        }
    }
    assert!(batch_packets(&vec![(0, 0, vec![1]), (1, 20, vec![])]).is_empty());
    assert_eq!(batch_step(Ok(200)), BatchStep::Together(200));
    let small = ProtocolError::BufferTooSmall {
        needed: 1300,
        have: 1200,
    };
    assert_eq!(batch_step(Err(small)), BatchStep::Singly);
    assert_eq!(
        batch_step(Err(ProtocolError::InvalidAudioLength(0))),
        BatchStep::Drop(ProtocolError::InvalidAudioLength(0))
    );
}

#[test]
fn the_most_telling_failure_is_kept() {
    let mut a = Attempts::new();
    a.failed(ConnectError::Timeout);
    a.failed(ConnectError::AuthorizationRequired);
    a.failed(ConnectError::Timeout);
    assert!(matches!(a.exhausted(), ConnectError::AuthorizationRequired));
    assert!(matches!(
        Attempts::new().exhausted(),
        ConnectError::NotConnected
    ));
    let mut b = Attempts::new();
    b.failed(ConnectError::Bind("in use".to_owned()));
    b.failed(ConnectError::Dtls("alert".to_owned()));
    assert_eq!(b.exhausted().to_string(), "alert");
    assert_eq!(ConnectError::NotConnected.to_string(), "not connected");
    assert_eq!(ConnectError::Timeout.to_string(), "Connection timed out");
    assert_eq!(ConnectError::Webrtc("x".to_owned()).to_string(), "x");
}

#[test]
fn only_a_pending_authorization_is_waited_for() {
    let e = ConnectError::AuthorizationRequired;
    assert!(tries_again(&e, 100, 0));
    assert!(!tries_again(&e, AUTHORIZATION_WAIT_MS, 0));
    assert!(!tries_again(&ConnectError::Timeout, 100, 0));
}

#[test]
fn a_ping_or_a_greeting_proves_a_live_server() {
    let (buf, len) = ProtoEvent::Ping.encode();
    assert!(proves_alive(&buf[..len]));
    let (buf, len) = ProtoEvent::Hello { commit: [1; 8] }.encode();
    assert!(proves_alive(&buf[..len]));
    let (buf, len) = ProtoEvent::Pong(true).encode();
    assert!(!proves_alive(&buf[..len]));
    assert!(!proves_alive(&[250]));
    assert!(!proves_alive(&[]));
}

#[test]
fn server_messages_are_passed_on() {
    let (buf, len) = ProtoEvent::Ping.encode();
    assert!(matches!(
        on_server_datagram(addr(1), &buf[..len]),
        ServerStep::Tell(ConnectionEvent::Message {
            event: ProtoEvent::Ping,
            ..
        })
    ));
    let commit = [b'a', b'b', b'c', b'd', b'e', b'f', b'0', b'1'];
    let (buf, len) = ProtoEvent::Hello { commit }.encode();
    assert!(matches!(on_server_datagram(addr(1), &buf[..len]), ServerStep::Greeted(c) if c == commit));
}

#[test]
fn audio_is_announced_in_the_wire_format() {
    assert_eq!(audio_control_datagram(true), [13, 1, 0, 0, 0xBB, 0x80, 2]);
    assert_eq!(audio_control_datagram(false), [13, 0, 0, 0, 0, 0, 0]);
    assert!(matches!(
        decode(&audio_control_datagram(true)),
        Ok(Datagram::AudioControl(AudioControlCmd::Start {
            sample_rate: 48_000,
            channels: 2
        }))
    ));
    assert!(matches!(
        decode(&audio_control_datagram(false)),
        Ok(Datagram::AudioControl(AudioControlCmd::Stop))
    ));
}

fn target(port: u16) -> ServerTarget {
    ServerTarget {
        ips: vec![LOCALHOST_V4, LOCALHOST_V6],
        port,
    }
}

#[test]
fn dialing_follows_the_configured_server() {
    assert_eq!(
        target(7).addrs(),
        vec![addr(7), SocketAddr::new(LOCALHOST_V6, 7)]
    );
    assert!(target(7).same(&target(7)) && !target(7).same(&target(8)));

    let mut d = Dialer::new();
    assert!(d.set_server(None).is_empty());
    assert_eq!(d.set_server(Some(target(7))), vec![DialAction::StartDialing]);
    // the same server again changes nothing
    assert!(d.set_server(Some(target(7))).is_empty());
    assert!(d.ensure_connecting());
    // dialing is under way: not started a second time
    d.set_server(Some(target(8)));
    assert!(!d.ensure_connecting());
    // the server changed while the first one was dialed
    assert_eq!(
        d.dialed(&target(7), Some(addr(7))),
        DialStep::CloseAndRetry
    );
    assert_eq!(d.dialed(&target(8), None), DialStep::RetryLater);
    assert_eq!(
        d.dialed(&target(8), Some(addr(8))),
        DialStep::Serve(addr(8))
    );
    d.dialing_ended();
    assert!(!d.ensure_connecting());
    assert!(d.is_connected(addr(8)) && !d.is_connected(addr(7)));
    // the connection is lost: the server is dialed again
    assert!(d.session_ended(addr(8)));
    assert!(!d.is_connected(addr(8)));
    // no server any more: nothing is dialed
    d.set_server(None);
    assert!(!d.session_ended(addr(8)));
    assert!(d.next_target().is_none());
}

#[test]
fn switching_servers_stops_the_audio_first() {
    let mut d = Dialer::new();
    d.set_server(Some(target(7)));
    d.dialed(&target(7), Some(addr(7)));
    d.dialing_ended();
    let actions = d.set_server(Some(target(8)));
    assert_eq!(
        actions,
        vec![
            DialAction::SendAudioStop(addr(7)),
            DialAction::Close(addr(7)),
            DialAction::StartDialing
        ]
    );
}

const KEY: InputEvent = InputEvent::Keyboard(KeyboardEvent::Key {
    time: 0,
    key: 30,
    state: 1,
});

#[test]
fn server_requests_are_answered() {
    let mut t = DialTask::new();
    let msg = |event| ConnectionEvent::Message {
        addr: addr(1),
        event,
    };
    // input is dropped while emulation is off, and probes say so
    assert!(t
        .handle_connection_event(msg(ProtoEvent::Input(KEY)), None, 0)
        .is_empty());
    let w = t.handle_connection_event(msg(ProtoEvent::Ping), None, 0);
    assert!(matches!(w[..], [DialWork::Reply(_, ProtoEvent::Pong(false))]));
    t.handle_proxy_event(&EmulationEvent::EmulationEnabled);
    let w = t.handle_connection_event(msg(ProtoEvent::Input(KEY)), None, 0);
    assert!(matches!(w[..], [DialWork::Proxy(ProxyRequest::Input(e, _))] if e == KEY));
    let w = t.handle_connection_event(
        msg(ProtoEvent::Enter(Position::Left)),
        Some("aa".to_owned()),
        0,
    );
    assert!(matches!(
        w[..],
        [
            DialWork::Tell(EmulationEvent::ReleaseNotify),
            DialWork::Reply(_, ProtoEvent::Ack(0)),
            DialWork::Tell(EmulationEvent::Entered {
                pos: ipc::Position::Left,
                ..
            })
        ]
    ));
    let w = t.handle_connection_event(msg(ProtoEvent::Leave(0)), None, 0);
    assert!(matches!(
        w[..],
        [
            DialWork::Proxy(ProxyRequest::Remove(_)),
            DialWork::Reply(_, ProtoEvent::Ack(0))
        ]
    ));
    t.handle_proxy_event(&EmulationEvent::EmulationDisabled);
    let w = t.handle_connection_event(msg(ProtoEvent::Ping), None, 0);
    assert!(matches!(w[..], [DialWork::Reply(_, ProtoEvent::Pong(false))]));
}

#[test]
fn only_a_long_silence_closes_the_connection() {
    let mut t = DialTask::new();
    t.handle_connection_event(
        ConnectionEvent::Connected {
            addr: addr(1),
            fingerprint: "aa".to_owned(),
        },
        None,
        1_000,
    );
    assert!(t.tick(1_000 + PEER_IDLE_TIMEOUT_MS).is_empty());
    t.handle_connection_event(ConnectionEvent::PeerAlive { addr: addr(1) }, None, 2_000);
    assert!(t.tick(1_001 + PEER_IDLE_TIMEOUT_MS).is_empty());
    let w = t.tick(2_001 + PEER_IDLE_TIMEOUT_MS);
    assert!(matches!(
        w[..],
        [
            DialWork::Proxy(ProxyRequest::Remove(_)),
            DialWork::Close(_),
            DialWork::Tell(EmulationEvent::Disconnected { .. })
        ]
    ));
    // closed once
    assert!(t.tick(u64::MAX).is_empty());
}

#[test]
fn requests_to_the_dialing_side() {
    let t = DialTask::new();
    assert!(matches!(
        t.handle_request(EmulationRequest::Release(addr(1))),
        DialWork::Reply(_, ProtoEvent::Leave(0))
    ));
    assert!(matches!(
        t.handle_request(EmulationRequest::SetEnabled(true)),
        DialWork::Proxy(ProxyRequest::SetEnabled(true))
    ));
    assert!(matches!(
        t.handle_request(EmulationRequest::SetServer(None)),
        DialWork::SetServer(None)
    ));
    assert!(matches!(
        t.handle_request(EmulationRequest::Terminate),
        DialWork::Terminate
    ));
}

#[test]
fn edges_keep_their_name_on_both_sides() {
    assert_eq!(to_ipc_pos(Position::Left), ipc::Position::Left);
    assert_eq!(to_ipc_pos(Position::Right), ipc::Position::Right);
    assert_eq!(to_ipc_pos(Position::Top), ipc::Position::Top);
    assert_eq!(to_ipc_pos(Position::Bottom), ipc::Position::Bottom);
}

#[test]
fn every_peer_has_an_emulation_handle_of_its_own() {
    let mut t = EmulationTask::new(true);
    let motion = InputEvent::Pointer(PointerEvent::Motion {
        time: 0,
        dx: 1.0f64.to_bits(),
        dy: 0,
    });
    assert_eq!(
        t.handle_request(ProxyRequest::Input(motion, addr(1)), true),
        EmulateStep::Consume {
            event: motion,
            handle: 0,
            create: true
        }
    );
    assert_eq!(
        t.handle_request(ProxyRequest::Input(KEY, addr(1)), true),
        EmulateStep::Consume {
            event: KEY,
            handle: 0,
            create: false
        }
    );
    assert_eq!(
        t.handle_request(ProxyRequest::Input(KEY, addr(2)), true),
        EmulateStep::Consume {
            event: KEY,
            handle: 1,
            create: true
        }
    );
    assert_eq!(t.handles().len(), 2);
    assert!(t.has_number_for(ProxyRequest::Input(KEY, addr(9)), true));
    assert!(t.has_number_for(ProxyRequest::Terminate, true));
    assert_eq!(
        t.handle_request(ProxyRequest::Remove(addr(1)), true),
        EmulateStep::Destroy(0)
    );
    assert_eq!(
        t.handle_request(ProxyRequest::Remove(addr(1)), true),
        EmulateStep::Nothing
    );
    // input that comes before emulation runs is dropped
    assert_eq!(
        t.handle_request(ProxyRequest::Input(KEY, addr(3)), false),
        EmulateStep::Nothing
    );
    assert_eq!(
        t.handle_request(ProxyRequest::SetEnabled(false), true),
        EmulateStep::Stop
    );
    assert!(!t.enabled());
    t.emulation_ended();
    assert_eq!(
        t.handle_request(ProxyRequest::Reenable, false),
        EmulateStep::Begin
    );
    assert!(t.enabled());
    assert_eq!(
        t.handle_request(ProxyRequest::Terminate, true),
        EmulateStep::Exit
    );
}
