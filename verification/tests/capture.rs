use deskunion::capture::{
    to_proto_pos, CaptureAction, CaptureEvent, CaptureNext, CaptureRequest, CaptureTask,
    CaptureType, ICaptureEvent, RequestStep, SessionStep, REJECT_QUIET_MS, SEND_LOG_QUIET_MS,
};
use deskunion::client::ClientManager;
use deskunion::ipc::Position;
use deskunion::listen::ListenEvent;
use deskunion::net::{IpAddr, SocketAddr};
use deskunion::proto::{self, InputEvent, KeyboardEvent, ProtoEvent};

const COMMIT: [u8; 8] = *b"0123abcd";

fn addr(port: u16) -> SocketAddr {
    SocketAddr::new(IpAddr::V4(0x0a00_0001), port)
}

fn key(state: u8) -> InputEvent {
    InputEvent::Keyboard(KeyboardEvent::Key {
        time: 0,
        key: 30,
        state,
    })
}

fn msg(event: ProtoEvent) -> ListenEvent {
    ListenEvent::Msg {
        event,
        addr: addr(1),
    }
}

/// a manager whose first client is connected from `addr(1)`
fn connected() -> (ClientManager, u64) {
    let mut m = ClientManager::default();
    let h = m.add_client();
    m.set_active_addr(h, Some(addr(1)));
    (m, h)
}

#[test]
fn no_input_before_the_answer() {
    let (mut m, h) = connected();
    let mut t = CaptureTask::new(true, true, vec![]);
    t.handle_request(
        CaptureRequest::Create(h, Position::Left, CaptureType::Default),
        false,
    );
    assert!(t.has_barrier(h) && !t.has_barrier(h + 1));
    let enter = ProtoEvent::Enter(proto::Position::Right);
    let (told, next) = t.handle_capture_event(h, CaptureEvent::Begin, false);
    assert_eq!(told.len(), 2);
    assert!(matches!(told[0], ICaptureEvent::CaptureBegin(x) if x == h));
    assert!(matches!(told[1], ICaptureEvent::ClientEntered(x) if x == h));
    assert_eq!(next, CaptureNext::Send(h, enter));
    let (told, next) = t.handle_capture_event(h, CaptureEvent::Input(key(1)), false);
    assert!(told.is_empty());
    assert_eq!(next, CaptureNext::Send(h, enter));
    // an answer of another device changes nothing
    t.handle_session_event(
        &mut m,
        ListenEvent::Msg {
            event: ProtoEvent::Ack(0),
            addr: addr(2),
        },
        0,
        COMMIT,
    );
    let (_, next) = t.handle_capture_event(h, CaptureEvent::Input(key(1)), false);
    assert_eq!(next, CaptureNext::Send(h, enter));
    t.handle_session_event(&mut m, msg(ProtoEvent::Ack(0)), 0, COMMIT);
    let (_, next) = t.handle_capture_event(h, CaptureEvent::Input(key(1)), false);
    assert_eq!(next, CaptureNext::Send(h, ProtoEvent::Input(key(1))));
    // crossing again is no new entry
    let (told, _) = t.handle_capture_event(h, CaptureEvent::Begin, false);
    assert_eq!(told.len(), 1);
    assert!(matches!(
        t.handle_session_event(&mut m, msg(ProtoEvent::Leave(0)), 0, COMMIT),
        SessionStep::Release
    ));
}

#[test]
fn releasing_lifts_every_key() {
    let mut t = CaptureTask::new(true, true, vec![]);
    let actions = t.release_capture(&vec![1, 2]);
    assert!(matches!(actions[..], [CaptureAction::BackendRelease]));
    t.handle_request(
        CaptureRequest::Create(4, Position::Top, CaptureType::Default),
        true,
    );
    t.handle_capture_event(4, CaptureEvent::Begin, false);
    assert!(t.has_active_client());
    let actions = t.release_capture(&vec![30, 42]);
    assert_eq!(actions.len(), 5);
    for (action, k) in actions.iter().zip([30, 42]) {
        assert!(matches!(
            action,
            CaptureAction::Send(4, ProtoEvent::Input(InputEvent::Keyboard(
                KeyboardEvent::Key { time: 0, key, state: 0 }
            ))) if *key == k
        ));
    }
    assert!(matches!(
        actions[2],
        CaptureAction::Send(
            4,
            ProtoEvent::Input(InputEvent::Keyboard(KeyboardEvent::Modifiers {
                depressed: 0,
                latched: 0,
                locked: 0,
                group: 0
            }))
        )
    ));
    assert!(matches!(
        actions[3],
        CaptureAction::Send(4, ProtoEvent::Leave(0))
    ));
    assert!(matches!(actions[4], CaptureAction::BackendRelease));
    assert!(!t.has_active_client());
}

#[test]
fn the_release_keys_come_first() {
    let mut t = CaptureTask::new(true, true, vec![29]);
    let (told, next) = t.handle_capture_event(9, CaptureEvent::Begin, true);
    assert!(told.is_empty());
    assert_eq!(next, CaptureNext::ReleaseCapture);
}

#[test]
fn incoming_barriers_only_let_go() {
    let mut t = CaptureTask::new(true, true, vec![]);
    t.handle_request(
        CaptureRequest::Create(1, Position::Left, CaptureType::EnterOnly),
        true,
    );
    let (told, next) = t.handle_capture_event(1, CaptureEvent::Begin, false);
    assert!(matches!(told[..], [ICaptureEvent::CaptureBegin(1)]));
    assert_eq!(next, CaptureNext::BackendRelease);
    assert!(!t.has_active_client());
    // a client at the same edge keeps the capture
    t.handle_request(
        CaptureRequest::Create(2, Position::Left, CaptureType::Default),
        true,
    );
    let (_, next) = t.handle_capture_event(1, CaptureEvent::Begin, false);
    assert_eq!(next, CaptureNext::Nothing);
    t.handle_request(CaptureRequest::Destroy(2), true);
    assert_eq!(
        t.barriers(),
        &vec![(1, Position::Left, CaptureType::EnterOnly)]
    );
}

#[test]
fn rejections_are_debounced() {
    let mut m = ClientManager::default();
    let mut t = CaptureTask::new(true, false, vec![]);
    let mut reject = |f: &str, now| {
        t.handle_listen_event(
            &mut m,
            ListenEvent::Rejected {
                fingerprint: f.to_owned(),
            },
            now,
            COMMIT,
        )
        .len()
    };
    assert_eq!(reject("aa", 0), 1);
    assert_eq!(reject("aa", REJECT_QUIET_MS - 1), 0);
    assert_eq!(reject("bb", REJECT_QUIET_MS - 1), 1);
    // every attempt puts the next report off
    assert_eq!(reject("aa", 2 * REJECT_QUIET_MS - 2), 0);
    assert_eq!(reject("aa", 3 * REJECT_QUIET_MS - 2), 1);
}

#[test]
fn devices_are_paired_by_fingerprint() {
    let mut m = ClientManager::default();
    let h = m.add_client();
    let (mut config, state) = m.get_state(h).expect("client");
    config.fingerprint = Some("aa".to_owned());
    m.set_config(h, config);
    m.set_state(h, state);
    let mut t = CaptureTask::new(true, false, vec![]);
    let accept = |f: &str, port| ListenEvent::Accept {
        addr: addr(port),
        fingerprint: f.to_owned(),
    };
    let a = t.handle_listen_event(&mut m, accept("aa", 1), 0, COMMIT);
    assert!(
        matches!(a[..], [CaptureAction::Tell(ICaptureEvent::ClientStateChanged(x))] if x == h)
    );
    assert_eq!(m.active_addr(h), Some(addr(1)));
    assert!(!m.alive(h));
    // a device without an entry waits
    let a = t.handle_listen_event(&mut m, accept("bb", 2), 0, COMMIT);
    assert!(matches!(
        a[..],
        [CaptureAction::Tell(ICaptureEvent::DeviceConnected { .. })]
    ));
    let a = t.handle_listen_event(&mut m, ListenEvent::Disconnected { addr: addr(2) }, 0, COMMIT);
    assert!(matches!(
        a[..],
        [CaptureAction::Tell(ICaptureEvent::DeviceDisconnected { .. })]
    ));
    let a = t.handle_listen_event(&mut m, ListenEvent::Disconnected { addr: addr(2) }, 0, COMMIT);
    assert!(a.is_empty());
    // liveness is told when it changes
    assert_eq!(
        t.handle_listen_event(&mut m, msg(ProtoEvent::Pong(true)), 0, COMMIT)
            .len(),
        1
    );
    assert!(m.alive(h));
    assert!(t
        .handle_listen_event(&mut m, msg(ProtoEvent::Pong(true)), 0, COMMIT)
        .is_empty());
    // a greeting is returned
    let a = t.handle_listen_event(
        &mut m,
        msg(ProtoEvent::Hello { commit: [7; 8] }),
        0,
        COMMIT,
    );
    assert!(matches!(
        a[..],
        [
            CaptureAction::Reply(_, ProtoEvent::Hello { commit: COMMIT }),
            CaptureAction::Tell(ICaptureEvent::ClientStateChanged(_))
        ]
    ));
    assert_eq!(m.get_state(h).expect("client").1.peer_commit, Some([7; 8]));
    t.handle_listen_event(&mut m, ListenEvent::Disconnected { addr: addr(1) }, 0, COMMIT);
    assert_eq!(m.active_addr(h), None);
    assert_eq!(m.get_state(h).expect("client").1.peer_commit, None);
}

#[test]
fn listening_starts_and_stops_once() {
    let mut t = CaptureTask::new(false, false, vec![]);
    assert_eq!(
        t.handle_request(CaptureRequest::ChangePort(7), false),
        RequestStep::PortTaken(7)
    );
    assert_eq!(
        t.handle_request(CaptureRequest::StartListening(5), false),
        RequestStep::CreateListener(5)
    );
    let e = t.listener_created(5, Some("in use".to_owned()));
    assert!(matches!(e, ICaptureEvent::PortChanged(Err(_))));
    assert_eq!(
        t.handle_request(CaptureRequest::StartListening(5), false),
        RequestStep::CreateListener(5)
    );
    let e = t.listener_created(5, None);
    assert!(matches!(e, ICaptureEvent::PortChanged(Ok(5))));
    assert_eq!(
        t.handle_request(CaptureRequest::StartListening(5), false),
        RequestStep::Done
    );
    assert_eq!(
        t.handle_request(CaptureRequest::ChangePort(7), true),
        RequestStep::MoveListener(7)
    );
    assert_eq!(
        t.handle_request(CaptureRequest::StopListening, false),
        RequestStep::CloseListener
    );
    assert_eq!(
        t.handle_request(CaptureRequest::StopListening, false),
        RequestStep::Done
    );
}

#[test]
fn capture_is_switched_on_and_off() {
    let mut t = CaptureTask::new(true, false, vec![]);
    assert_eq!(
        t.handle_request(CaptureRequest::Release, false),
        RequestStep::Done
    );
    assert_eq!(
        t.handle_request(CaptureRequest::Reenable, false),
        RequestStep::BeginCapture
    );
    assert!(t.enabled());
    assert_eq!(
        t.handle_request(CaptureRequest::SetEnabled(true), true),
        RequestStep::Done
    );
    assert_eq!(
        t.handle_request(CaptureRequest::SetEnabled(false), true),
        RequestStep::EndCapture
    );
    assert!(!t.enabled());
    t.handle_request(CaptureRequest::SetReleaseBind(vec![1, 2]), true);
    assert_eq!(t.release_bind(), &vec![1, 2]);
    t.capture_ended();
    assert!(!t.enabled());
}

#[test]
fn failed_sends_are_logged_now_and_then() {
    let mut t = CaptureTask::new(true, true, vec![]);
    assert!(t.send_failed(10));
    assert!(!t.send_failed(10 + SEND_LOG_QUIET_MS));
    assert!(t.send_failed(11 + SEND_LOG_QUIET_MS));
}

#[test]
fn edges_on_the_wire() {
    assert_eq!(to_proto_pos(Position::Left), proto::Position::Left);
    assert_eq!(to_proto_pos(Position::Right), proto::Position::Right);
    assert_eq!(to_proto_pos(Position::Top), proto::Position::Top);
    assert_eq!(to_proto_pos(Position::Bottom), proto::Position::Bottom);
}
