use deskunion::audio::AudioSettings;
use deskunion::capture::{CaptureType, ICaptureEvent};
use deskunion::client::ConfigClient;
use deskunion::emulation::EmulationEvent;
use deskunion::ipc::{
    ClientConfig, FrontendEvent, FrontendRequest, OperationMode, Position, Status,
};
use deskunion::net::{IpAddr, SocketAddr};
use deskunion::service::{
    effective_mode, start_plan, Action, DnsEvent, SavedConfig, ServerEndpoint, Service, StartPlan,
    ENTER_HANDLE_BEGIN, SERVER_HANDLE,
};
use deskunion::text::TextMap;

fn addr(port: u16) -> SocketAddr {
    SocketAddr::new(IpAddr::V4(0x0a00_0001), port)
}

fn entry(pos: Position, active: bool) -> ConfigClient {
    ConfigClient {
        ips: vec![],
        hostname: None,
        port: 4242,
        pos,
        active,
        enter_hook: Some("notify".to_owned()),
        fingerprint: None,
    }
}

fn saved(mode: OperationMode, clients: Vec<ConfigClient>) -> SavedConfig {
    SavedConfig {
        mode: Some(mode),
        clients,
        keys: TextMap::new(),
        audio: AudioSettings {
            send: false,
            receive: false,
            bitrate: 96_000,
            buffer_ms: 80,
            capture_device: None,
            playback_device: None,
        },
        endpoint: ServerEndpoint {
            hostname: Some("desk".to_owned()),
            ips: vec![IpAddr::V4(9)],
            port: 4242,
        },
    }
}

fn service(mode: OperationMode, clients: Vec<ConfigClient>) -> Service {
    Service::new(saved(mode, clients), 4242, "ff:ee".to_owned())
}

fn ask(s: &mut Service, r: FrontendRequest) -> Vec<Action> {
    s.handle_frontend_request(r);
    s.take_actions()
}

#[test]
fn the_role_decides_what_starts() {
    let plan = |listen, capture, emulate| StartPlan {
        listen,
        capture,
        emulate,
    };
    assert_eq!(
        start_plan(OperationMode::Server),
        plan(true, true, false)
    );
    assert_eq!(
        start_plan(OperationMode::Client),
        plan(false, false, true)
    );
    assert_eq!(
        start_plan(OperationMode::Unconfigured),
        plan(false, false, false)
    );
}

#[test]
fn one_active_client_per_edge_after_startup() {
    let mut s = service(
        OperationMode::Server,
        vec![entry(Position::Left, true), entry(Position::Left, true)],
    );
    s.startup();
    assert_eq!(s.clients().active_clients(), vec![1]);
    let actions = s.take_actions();
    assert!(matches!(
        actions[0],
        Action::CaptureCreate(0, Position::Left, CaptureType::Default)
    ));
    assert!(actions
        .iter()
        .any(|a| matches!(a, Action::CaptureDestroy(0))));
}

#[test]
fn activating_takes_over_the_edge() {
    let mut s = service(OperationMode::Server, vec![]);
    ask(&mut s, FrontendRequest::Create);
    ask(&mut s, FrontendRequest::Create);
    ask(&mut s, FrontendRequest::Activate(0, true));
    let a = ask(&mut s, FrontendRequest::Activate(1, true));
    assert!(matches!(
        a[..],
        [
            Action::CaptureDestroy(0),
            Action::Notify(FrontendEvent::State(0, _, _)),
            Action::CaptureCreate(1, Position::Left, CaptureType::Default),
            Action::Notify(FrontendEvent::State(1, _, _)),
            Action::SaveConfig(_)
        ]
    ));
    // moving the other one there takes it over again
    let a = ask(&mut s, FrontendRequest::UpdatePosition(0, Position::Left));
    assert!(matches!(
        a[..],
        [
            Action::Notify(FrontendEvent::State(0, _, _)),
            Action::SaveConfig(_)
        ]
    ));
    assert_eq!(s.clients().active_clients(), vec![1]);
    let a = ask(&mut s, FrontendRequest::UpdatePosition(1, Position::Top));
    assert!(matches!(a[0], Action::CaptureDestroy(1)));
    assert!(matches!(
        a[2],
        Action::CaptureCreate(1, Position::Top, CaptureType::Default)
    ));
    let a = ask(&mut s, FrontendRequest::Delete(1));
    assert!(matches!(
        a[..],
        [
            Action::CaptureDestroy(1),
            Action::Notify(FrontendEvent::Deleted(1)),
            Action::SaveConfig(_)
        ]
    ));
    let a = ask(&mut s, FrontendRequest::UpdatePort(7, 1));
    assert!(matches!(
        a[0],
        Action::Notify(FrontendEvent::NoSuchClient(7))
    ));
}

#[test]
fn clients_of_a_client_have_no_barriers() {
    let mut s = service(OperationMode::Client, vec![]);
    let a = ask(
        &mut s,
        FrontendRequest::CreateConfigured {
            config: ClientConfig::default(),
            active: true,
        },
    );
    assert!(!a.iter().any(|a| matches!(a, Action::CaptureCreate(..))));
    assert_eq!(s.clients().active_clients(), vec![0]);
}

#[test]
fn new_devices_get_the_first_free_edge() {
    let mut s = service(OperationMode::Server, vec![entry(Position::Left, true)]);
    for (i, pos) in [Position::Right, Position::Top, Position::Bottom]
        .into_iter()
        .enumerate()
    {
        let f = format!("f{i}");
        s.clients_mut().park(f.clone(), addr(i as u16));
        s.handle_capture_event(ICaptureEvent::DeviceConnected {
            addr: addr(i as u16),
            fingerprint: f.clone(),
        });
        let h = s
            .clients()
            .get_client_by_fingerprint(&f)
            .expect("a client was paired");
        assert_eq!(s.clients().get_pos(h), Some(pos));
        // the waiting connection is now the client's
        assert_eq!(s.clients().active_addr(h), Some(addr(i as u16)));
    }
    s.take_actions();
    // no edge is free: the user is asked
    s.handle_capture_event(ICaptureEvent::DeviceConnected {
        addr: addr(9),
        fingerprint: "f9".to_owned(),
    });
    assert!(matches!(
        s.take_actions()[..],
        [Action::Notify(FrontendEvent::DeviceConnected { .. })]
    ));
}

#[test]
fn entering_devices_leave_by_a_barrier_of_their_own() {
    let mut s = service(OperationMode::Client, vec![]);
    let enter = |port, pos| EmulationEvent::Entered {
        addr: addr(port),
        pos,
        fingerprint: "aa".to_owned(),
    };
    s.handle_emulation_event(enter(1, Position::Left));
    let a = s.take_actions();
    assert!(matches!(a[0], Action::CaptureSetEnabled(true)));
    assert!(matches!(
        a[1],
        Action::CaptureCreate(h, Position::Left, CaptureType::EnterOnly) if h == ENTER_HANDLE_BEGIN
    ));
    // the same device at the same edge: nothing new
    s.handle_emulation_event(enter(1, Position::Left));
    assert!(s.take_actions().is_empty());
    // at another edge it gets another barrier
    s.handle_emulation_event(enter(1, Position::Top));
    let a = s.take_actions();
    assert!(matches!(a[0], Action::CaptureDestroy(h) if h == ENTER_HANDLE_BEGIN));
    s.handle_capture_event(ICaptureEvent::CaptureBegin(ENTER_HANDLE_BEGIN + 1));
    assert!(matches!(s.take_actions()[..], [Action::SendLeave(a)] if a == addr(1)));
    s.handle_emulation_event(EmulationEvent::Disconnected { addr: addr(1) });
    let a = s.take_actions();
    assert!(matches!(a[0], Action::CaptureDestroy(h) if h == ENTER_HANDLE_BEGIN + 1));
    assert!(matches!(a[1], Action::CaptureSetEnabled(false)));
    // a server has no devices that enter
    let mut s = service(OperationMode::Server, vec![]);
    s.handle_emulation_event(enter(1, Position::Left));
    assert!(s.take_actions().is_empty());
}

#[test]
fn the_server_is_dialed_once_it_is_known() {
    let mut s = service(OperationMode::Client, vec![]);
    s.startup();
    assert!(matches!(
        &s.take_actions()[..],
        [Action::Resolve(h, name)] if *h == SERVER_HANDLE && name == "desk"
    ));
    // emulation is still off
    s.handle_resolver_event(DnsEvent::Resolved(
        SERVER_HANDLE,
        Some(vec![IpAddr::V6(1), IpAddr::V4(3)]),
    ));
    assert!(s.take_actions().is_empty());
    s.handle_emulation_event(EmulationEvent::EmulationEnabled);
    let a = s.take_actions();
    match &a[0] {
        Action::SetServer(Some(t)) => {
            assert_eq!(t.port, 4242);
            assert_eq!(t.ips, vec![IpAddr::V4(3), IpAddr::V4(9), IpAddr::V6(1)]);
        }
        other => panic!("expected a dial, got {other:?}"),
    }
    assert!(matches!(
        a[1],
        Action::Notify(FrontendEvent::EmulationStatus(Status::Enabled))
    ));
    s.handle_emulation_event(EmulationEvent::EmulationDisabled);
    assert!(matches!(s.take_actions()[0], Action::SetServer(None)));
}

#[test]
fn changing_the_role_starts_nothing() {
    let mut s = service(OperationMode::Client, vec![entry(Position::Left, true)]);
    s.handle_emulation_event(EmulationEvent::Entered {
        addr: addr(1),
        pos: Position::Left,
        fingerprint: "aa".to_owned(),
    });
    s.take_actions();
    let a = ask(
        &mut s,
        FrontendRequest::SetOperationMode(OperationMode::Server),
    );
    assert_eq!(s.operation_mode(), OperationMode::Server);
    assert!(a.iter().any(|a| matches!(a, Action::StartListening { .. })));
    assert!(a
        .iter()
        .any(|a| matches!(a, Action::CaptureCreate(0, Position::Left, _))));
    assert!(a
        .iter()
        .any(|a| matches!(a, Action::Notify(FrontendEvent::IncomingDisconnected(_)))));
    assert!(!a.iter().any(|a| matches!(
        a,
        Action::CaptureReenable
            | Action::EmulationReenable
            | Action::CaptureSetEnabled(true)
            | Action::SetServer(Some(_))
    )));
    // the same role again is only announced
    let a = ask(
        &mut s,
        FrontendRequest::SetOperationMode(OperationMode::Server),
    );
    assert!(matches!(
        a[..],
        [Action::Notify(FrontendEvent::OperationMode(
            OperationMode::Server
        ))]
    ));
    let a = ask(&mut s, FrontendRequest::SetServiceRunning(true));
    assert!(matches!(a[..], [Action::CaptureReenable]));
    let a = ask(&mut s, FrontendRequest::EnableEmulation);
    assert!(a.is_empty());
}

#[test]
fn a_changed_file_replaces_the_clients() {
    let mut s = service(OperationMode::Server, vec![entry(Position::Left, true)]);
    s.startup();
    s.take_actions();
    s.handle_config_change(
        saved(
            OperationMode::Server,
            vec![entry(Position::Top, true), entry(Position::Top, false)],
        ),
        vec![1, 2],
    );
    let a = s.take_actions();
    assert!(matches!(a[0], Action::CaptureDestroy(0)));
    assert!(a
        .iter()
        .any(|a| matches!(a, Action::SetReleaseBind(b) if *b == vec![1, 2])));
    assert_eq!(s.clients().registered_clients().len(), 2);
    assert_eq!(s.clients().active_clients(), vec![0]);
    assert_eq!(s.clients().get_pos(0), Some(Position::Top));
}

#[test]
fn settings_are_kept_and_announced() {
    let mut s = service(OperationMode::Server, vec![entry(Position::Left, true)]);
    let a = ask(&mut s, FrontendRequest::SetAudioSend(true));
    match &a[..] {
        [Action::SaveConfig(c), Action::Notify(FrontendEvent::AudioStatus { send: true, .. })] => {
            assert!(c.audio.send);
            assert_eq!(c.clients.len(), 1);
            assert!(c.clients[0].active);
        }
        other => panic!("unexpected {other:?}"),
    }
    assert!(s.audio_settings().send);
    ask(
        &mut s,
        FrontendRequest::AuthorizeKey("laptop".to_owned(), "aa".to_owned()),
    );
    assert!(s.is_authorized("aa"));
    ask(
        &mut s,
        FrontendRequest::RemoveAuthorizedKey("aa".to_owned()),
    );
    assert!(!s.is_authorized("aa"));
    // entering runs the hook
    s.handle_capture_event(ICaptureEvent::ClientEntered(0));
    assert!(matches!(&s.take_actions()[..], [Action::SpawnHook(c)] if c == "notify"));
    let a = ask(&mut s, FrontendRequest::ChangePort(4242));
    assert!(matches!(
        a[..],
        [Action::Notify(FrontendEvent::PortChanged(4242, None))]
    ));
    let a = ask(&mut s, FrontendRequest::ChangePort(5000));
    assert!(matches!(a[..], [Action::RequestPortChange(5000)]));
    assert_eq!(ask(&mut s, FrontendRequest::Sync).len(), 9);
    s.audio_devices(vec![], vec![]);
    assert!(matches!(
        s.take_actions()[..],
        [Action::Notify(FrontendEvent::AudioDevices { .. })]
    ));
}

#[test]
fn resolved_addresses_reach_the_client() {
    let mut s = service(OperationMode::Server, vec![entry(Position::Left, false)]);
    let a = ask(
        &mut s,
        FrontendRequest::UpdateHostname(0, Some("box".to_owned())),
    );
    assert!(matches!(&a[0], Action::Resolve(0, n) if n == "box"));
    s.handle_resolver_event(DnsEvent::Resolving(0));
    assert!(s.clients().get_state(0).expect("client").1.resolving);
    s.handle_resolver_event(DnsEvent::Resolved(0, Some(vec![IpAddr::V4(5)])));
    let state = s.clients().get_state(0).expect("client").1;
    assert!(!state.resolving);
    assert!(state.ips.contains(IpAddr::V4(5)));
    ask(
        &mut s,
        FrontendRequest::UpdateFixIps(0, vec![IpAddr::V4(6)]),
    );
    let state = s.clients().get_state(0).expect("client").1;
    assert!(state.ips.contains(IpAddr::V4(5)) && state.ips.contains(IpAddr::V4(6)));
}

#[test]
fn the_role_is_inferred_where_the_file_names_none() {
    let at = |hostname: Option<&str>, ips| ServerEndpoint {
        hostname: hostname.map(str::to_owned),
        ips,
        port: 4242,
    };
    let nowhere = at(None, vec![]);
    assert_eq!(effective_mode(None, 1, &at(Some("desk"), vec![])), OperationMode::Server);
    assert_eq!(effective_mode(None, 0, &at(Some("desk"), vec![])), OperationMode::Client);
    assert_eq!(effective_mode(None, 0, &at(None, vec![IpAddr::V4(1)])), OperationMode::Client);
    assert_eq!(effective_mode(None, 0, &nowhere), OperationMode::Unconfigured);
    // a role that is named counts, whatever the file holds
    assert_eq!(
        effective_mode(Some(OperationMode::Client), 3, &nowhere),
        OperationMode::Client
    );
}

#[test]
fn room_is_needed_only_for_new_clients() {
    let s = service(OperationMode::Server, vec![]);
    assert!(s.has_room_for_request(&FrontendRequest::Create));
    assert!(s.has_room_for_request(&FrontendRequest::Sync));
    assert!(s.has_room_for_event(&ICaptureEvent::CaptureEnabled));
    assert!(s.has_room_for_event(&ICaptureEvent::DeviceConnected {
        addr: addr(1),
        fingerprint: "aa".to_owned(),
    }));
}

/// a file that names no role goes on naming none until the user selects one
#[test]
fn saving_names_no_role() {
    let mut config = saved(OperationMode::Server, vec![]);
    config.mode = None;
    config.endpoint.hostname = None;
    config.endpoint.ips.clear();
    let mut s = Service::new(config, 4242, "ff:ee".to_owned());
    assert_eq!(s.operation_mode(), OperationMode::Unconfigured);
    let a = ask(&mut s, FrontendRequest::Create);
    match a.last() {
        Some(Action::SaveConfig(c)) => {
            assert_eq!((c.mode, c.clients.len()), (None, 1));
            // the next start infers a server
            assert_eq!(
                effective_mode(c.mode, c.clients.len(), &c.endpoint),
                OperationMode::Server
            );
        }
        other => panic!("expected a save, got {other:?}"),
    }
    // the running service keeps its role
    assert_eq!(s.operation_mode(), OperationMode::Unconfigured);
    let a = ask(
        &mut s,
        FrontendRequest::SetOperationMode(OperationMode::Client),
    );
    assert!(a
        .iter()
        .any(|a| matches!(a, Action::SaveConfig(c) if c.mode == Some(OperationMode::Client))));
}

#[test]
fn the_role_is_inferred_at_the_start_and_on_a_change() {
    let mut config = saved(OperationMode::Server, vec![entry(Position::Left, true)]);
    config.mode = None;
    let mut s = Service::new(config, 4242, "ff:ee".to_owned());
    assert_eq!(s.operation_mode(), OperationMode::Server);
    let mut changed = saved(OperationMode::Server, vec![]);
    changed.mode = None;
    s.handle_config_change(changed, vec![]);
    assert_eq!(s.operation_mode(), OperationMode::Client);
    assert!(s
        .take_actions()
        .iter()
        .any(|a| matches!(a, Action::Notify(FrontendEvent::OperationMode(OperationMode::Client)))));
}

#[test]
fn barriers_are_left_for_devices() {
    let s = service(OperationMode::Client, vec![]);
    assert!(s.has_barriers());
    assert!(s.has_barrier_for(&EmulationEvent::EmulationEnabled));
    assert!(s.has_barrier_for(&EmulationEvent::Entered {
        addr: addr(1),
        pos: Position::Left,
        fingerprint: "aa".to_owned(),
    }));
}
