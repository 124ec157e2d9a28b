use deskunion::gui::arrangement::{nearest_position, ScreenArrangement};
use deskunion::gui::audio_page::{
    audio_bitrate_index, audio_device_label, audio_device_model, selected_audio_device,
    selected_bitrate,
};
use deskunion::gui::forms::{
    authorized_key, pairing_config, parse_port, port_entry_text, port_on_focus_loss,
    position_from_selected, selected_from_position, trim,
};
use deskunion::gui::logs::{describe, is_gtk_theme_parser_warning, LogCategory, LogState, MAX_LOG_ENTRIES};
use deskunion::gui::rows::{
    dns_css_class, dns_tooltip, peer_commit_to_string, same_text_addr, version_css_class, version_subtitle, AudioStreamRowModel, ClientRowInput, ClientRowModel, IncomingDeviceRowInput,
    IncomingDeviceRowModel, KeyRowModel, ParkedDeviceRowInput, ParkedDeviceRowModel,
};
use deskunion::gui::window::{
    capture_row_button_label, capture_row_subtitle, capture_row_title, AppAction, AppModel, AppMsg, ClientRowOutput, Page,
    ScreenItem,
};
use deskunion::ipc::{
    AudioDeviceInfo, ClientConfig, ClientState, FrontendEvent, FrontendRequest, Position, Status,
    DEFAULT_PORT,
};
use deskunion::net::{IpAddr, SocketAddr};
use deskunion::text::TextMap;

fn addr(port: u16) -> SocketAddr {
    SocketAddr::new(IpAddr::V4(0x0a00_0001), port)
}

#[test]
fn positions_match_combo_order() {
    assert_eq!(position_from_selected(0), Position::Left);
    assert_eq!(position_from_selected(1), Position::Right);
    assert_eq!(position_from_selected(2), Position::Top);
    assert_eq!(position_from_selected(3), Position::Bottom);
    for i in 0..4 {
        assert_eq!(selected_from_position(position_from_selected(i)), i);
    }
}

/// the edge that a point in an area is nearest to
fn nearest(x: f64, y: f64, width: f64, height: f64) -> Position {
    let dx = x - width / 2.0;
    let dy = y - height / 2.0;
    nearest_position(dx.abs() > dy.abs(), dx > 0.0, dy > 0.0)
}

#[test]
fn nearest_position_uses_the_dominant_axis() {
    assert_eq!(nearest(10.0, 100.0, 400.0, 200.0), Position::Left);
    assert_eq!(nearest(390.0, 100.0, 400.0, 200.0), Position::Right);
    assert_eq!(nearest(200.0, 5.0, 400.0, 200.0), Position::Top);
    assert_eq!(nearest(200.0, 195.0, 400.0, 200.0), Position::Bottom);
}

#[test]
fn ports_are_read_as_typed() {
    assert_eq!(parse_port("4242"), Some(4242));
    assert_eq!(parse_port("65535"), Some(65535));
    assert_eq!(parse_port("65536"), None);
    assert_eq!(parse_port("+80"), Some(80));
    assert_eq!(parse_port(""), None);
    assert_eq!(parse_port("12a"), None);
    assert_eq!(parse_port("-1"), None);
    assert_eq!(port_entry_text(DEFAULT_PORT), "");
    assert_eq!(port_entry_text(80), "80");
    assert_eq!(port_on_focus_loss(""), Some(DEFAULT_PORT));
    assert_eq!(port_on_focus_loss("81"), Some(81));
    assert_eq!(port_on_focus_loss("x"), None);
}

#[test]
fn pairing_needs_a_fingerprint() {
    assert_eq!(trim("  a b\t\n"), "a b");
    match pairing_config("  ", "name", 1) {
        Err(e) => assert_eq!(e, "Enter the device's certificate fingerprint."),
        Ok(c) => panic!("paired {c:?}"),
    }
    let c = pairing_config(" aa:bb ", "  ", 2).expect("a fingerprint is there");
    assert_eq!(c.fingerprint.as_deref(), Some("aa:bb"));
    assert_eq!(c.hostname, None);
    assert_eq!(c.pos, Position::Top);
    let c = pairing_config("aa", " box ", 9).expect("a fingerprint is there");
    assert_eq!(c.hostname.as_deref(), Some("box"));
    assert_eq!(
        authorized_key(" my box ", " aa "),
        ("my box".to_owned(), "aa".to_owned())
    );
}

fn device(name: &str, is_monitor: bool) -> AudioDeviceInfo {
    AudioDeviceInfo {
        id: format!("id-{name}"),
        name: name.to_owned(),
        is_monitor,
        is_default: false,
    }
}

#[test]
fn audio_pickers() {
    assert_eq!(audio_bitrate_index(128_000), 2);
    assert_eq!(audio_bitrate_index(1), 1);
    assert_eq!(selected_bitrate(4), Some(256_000));
    assert_eq!(selected_bitrate(5), None);
    assert_eq!(audio_device_label(&device("A", true)), "A (system audio)");
    let devices = vec![device("A", true), device("B", false)];
    assert_eq!(
        audio_device_model(&devices),
        vec!["System Default", "A (system audio)", "B"]
    );
    assert_eq!(selected_audio_device(&devices, 0), None);
    assert_eq!(
        selected_audio_device(&devices, 2).as_deref(),
        Some("id-B")
    );
    assert_eq!(selected_audio_device(&devices, 3), None);
}

#[test]
fn events_are_described() {
    let d = |e, a| describe(&e, a);
    let (c, text) = d(
        FrontendEvent::DeviceConnected {
            addr: addr(1),
            fingerprint: "aa".to_owned(),
        },
        "10.0.0.1:1",
    )
    .expect("logged");
    assert_eq!(c, LogCategory::Connections);
    assert!(text.contains("10.0.0.1:1"));
    let (c, text) = d(FrontendEvent::Error("boom".to_owned()), "").expect("logged");
    assert_eq!((c, text.as_str()), (LogCategory::Errors, "error: boom"));
    assert!(d(FrontendEvent::PublicKeyFingerprint("aa".to_owned()), "").is_none());
}

#[test]
fn the_log_keeps_the_newest_entries() {
    let mut log = LogState::new();
    for i in 0..MAX_LOG_ENTRIES + 2 {
        let dropped = log.append(LogCategory::Audio, &format!("m{i}"), "12:00");
        assert_eq!(dropped, i >= MAX_LOG_ENTRIES);
    }
    assert_eq!(log.len(), MAX_LOG_ENTRIES);
    assert_eq!(log.entry(0).0, "12:00  [audio]  m2");
    log.clear();
    log.append(LogCategory::Errors, "bad", "1");
    log.append(LogCategory::Connections, "up", "2");
    log.apply_filter(Some(LogCategory::Errors));
    log.append(LogCategory::Connections, "down", "3");
    assert_eq!(log.copy_visible(), "1  [error]  bad");
    assert_eq!(log.entry(0), ("1  [error]  bad", true, true));
    log.apply_filter(None);
    assert_eq!(
        log.copy_visible(),
        "1  [error]  bad\n2  [conn]  up\n3  [conn]  down"
    );
}

#[test]
fn client_rows_follow_the_client() {
    let mut config = ClientConfig::default();
    config.hostname = Some("box".to_owned());
    let mut r = ClientRowModel::new(3, config, ClientState::default());
    assert_eq!(r.display_title(), "box");
    assert!(!r.connected());
    assert_eq!(r.connection_subtitle(""), "");
    let mut state = ClientState::default();
    state.active = true;
    state.active_addr = Some(addr(4242));
    r.update(ClientRowInput::SetState(state));
    assert!(r.active() && r.connected());
    assert_eq!(
        r.connection_subtitle("10.0.0.1:4242"),
        "10.0.0.1 · TLS active"
    );
    r.update(ClientRowInput::SetAudioStats {
        active: true,
        latency_ms: Some(60),
    });
    assert_eq!(
        r.connection_subtitle("10.0.0.1:4242"),
        "10.0.0.1 · latency 60 ms · TLS active · sending audio"
    );
    r.update(ClientRowInput::SetPosition(Position::Top));
    assert_eq!(r.position(), Position::Top);
    r.update(ClientRowInput::SetConfig(ClientConfig::default()));
    assert_eq!(r.hostname(), None);
    assert!(r.display_title().contains("no hostname!"));
    assert_eq!((r.handle(), r.port(), r.port_text().as_str()), (3, DEFAULT_PORT, ""));
}

#[test]
fn device_rows() {
    let mut r = IncomingDeviceRowModel::new(1, addr(1), None, "aa".to_owned());
    assert_eq!(r.subtitle(), "Connected · aa");
    r.update(IncomingDeviceRowInput::Entered {
        position: Position::Left,
        fingerprint: "bb".to_owned(),
    });
    assert_eq!(r.subtitle(), "Connected · left · bb");
    let mut r = ParkedDeviceRowModel::new("aa".to_owned());
    assert_eq!(r.position(), Position::Right);
    r.update(ParkedDeviceRowInput::SetPosition(Position::Top));
    assert_eq!(r.position(), Position::Top);
    assert_eq!(r.subtitle(), "aa · waiting for a screen position");
    let r = AudioStreamRowModel {
        id: 0,
        addr: addr(1),
        latency_ms: 80,
        packets_lost: 3,
        level: 0,
    };
    assert_eq!(r.subtitle(), "80 ms · 3 lost");
    let r = KeyRowModel::new("laptop".to_owned(), "aa".to_owned());
    assert_eq!((r.description(), r.fingerprint()), ("laptop", "aa"));
    assert!(same_text_addr(addr(1), addr(1)) && !same_text_addr(addr(1), addr(2)));
}

fn window() -> AppModel {
    let mut m = AppModel::new("host".to_owned());
    assert!(matches!(
        m.take_actions()[..],
        [AppAction::Request(FrontendRequest::EnumerateAudioDevices)]
    ));
    m
}

fn created(h: u64, pos: Position) -> FrontendEvent {
    let mut config = ClientConfig::default();
    config.pos = pos;
    FrontendEvent::Created(h, config, ClientState::default())
}

#[test]
fn one_row_per_client() {
    let mut m = window();
    m.frontend(created(1, Position::Left), "", "");
    m.frontend(created(2, Position::Right), "", "");
    m.frontend(created(1, Position::Top), "", "");
    assert_eq!(m.client_rows().len(), 2);
    assert_eq!(m.client_rows()[0].position(), Position::Top);
    let items = m.screen_items();
    assert_eq!((items[1].handle, items[1].position), (2, Position::Right));
    m.update(AppMsg::ClientRow(ClientRowOutput::Delete(1)));
    m.update(AppMsg::ClientRow(ClientRowOutput::Delete(5)));
    assert!(matches!(
        m.take_actions()[..],
        [AppAction::Request(FrontendRequest::Delete(2))]
    ));
    m.frontend(FrontendEvent::Deleted(2), "", "");
    m.frontend(FrontendEvent::Deleted(2), "", "");
    assert_eq!(m.client_rows().len(), 1);
    m.update(AppMsg::ScreenPositionChanged(1, "bottom".to_owned()));
    m.update(AppMsg::ScreenPositionChanged(1, "inside".to_owned()));
    assert!(matches!(
        m.take_actions()[..],
        [AppAction::Request(FrontendRequest::UpdatePosition(
            1,
            Position::Bottom
        ))]
    ));
}

#[test]
fn streams_have_a_row_while_they_last() {
    let mut m = window();
    let stream = |port, active, latency_ms| FrontendEvent::AudioStream {
        addr: addr(port),
        active,
        latency_ms,
        packets_lost: 0,
        level: 0,
    };
    m.frontend(stream(1, true, 10), "", "");
    m.frontend(stream(2, true, 20), "", "");
    m.frontend(stream(1, true, 30), "", "");
    assert_eq!(m.stream_rows().len(), 2);
    assert_eq!(m.stream_rows()[0].latency_ms, 30);
    m.frontend(stream(1, false, 0), "", "");
    m.frontend(stream(1, false, 0), "", "");
    assert_eq!(m.stream_rows().len(), 1);
    assert_eq!(m.stream_rows()[0].addr, addr(2));
    m.frontend(
        FrontendEvent::DeviceEntered {
            fingerprint: "aa".to_owned(),
            addr: addr(3),
            pos: Position::Left,
        },
        "",
        "",
    );
    assert_eq!(m.incoming_rows().len(), 1);
    m.frontend(FrontendEvent::IncomingDisconnected(addr(3)), "", "");
    assert!(m.incoming_rows().is_empty());
    assert!(m.has_row_numbers());
    assert!(m.has_row_number_for(&FrontendEvent::Deleted(1)));
    assert!(m.has_row_number_for(&stream(7, true, 1)));
}

#[test]
fn the_port_entry() {
    let mut m = window();
    m.update(AppMsg::PortEntryChanged("80".to_owned()));
    assert!(m.port_editing());
    m.update(AppMsg::PortEditApply);
    m.frontend(
        FrontendEvent::PortChanged(80, Some("moved".to_owned())),
        "",
        "",
    );
    assert!(!m.port_editing());
    let a = m.take_actions();
    assert!(matches!(
        a[0],
        AppAction::Request(FrontendRequest::ChangePort(80))
    ));
    assert!(matches!(&a[1], AppAction::SetPortEntry(t) if t == "80"));
    assert!(matches!(&a[2], AppAction::Toast(t) if t == "moved"));
    m.update(AppMsg::PortEntryChanged("nonsense".to_owned()));
    m.update(AppMsg::PortEditApply);
    assert!(
        matches!(m.take_actions()[..], [AppAction::Request(FrontendRequest::ChangePort(p))] if p == DEFAULT_PORT)
    );
}

#[test]
fn authorizing_a_device() {
    let mut m = window();
    m.frontend(
        FrontendEvent::ConnectionAttempt {
            fingerprint: "aa".to_owned(),
        },
        "",
        "",
    );
    m.update(AppMsg::AuthorizationConfirmed("aa".to_owned()));
    m.update(AppMsg::FingerprintConfirmed(
        "laptop".to_owned(),
        "aa".to_owned(),
    ));
    let a = m.take_actions();
    assert!(matches!(&a[0], AppAction::OpenAuthorization(f) if f == "aa"));
    assert!(matches!(a[1], AppAction::CloseAuthorization));
    assert!(matches!(&a[2], AppAction::OpenFingerprint(Some(f)) if f == "aa"));
    assert!(matches!(a[3], AppAction::CloseFingerprint));
    assert!(
        matches!(&a[4], AppAction::Request(FrontendRequest::AuthorizeKey(d, f)) if d == "laptop" && f == "aa")
    );
    let mut keys = TextMap::new();
    keys.insert("aa".to_owned(), "laptop".to_owned());
    m.frontend(FrontendEvent::AuthorizedUpdated(keys), "", "");
    assert_eq!(m.authorized_rows()[0].description(), "laptop");
    m.update(AppMsg::DeleteKey(0));
    assert!(
        matches!(&m.take_actions()[..], [AppAction::Request(FrontendRequest::RemoveAuthorizedKey(f))] if f == "aa")
    );
}

#[test]
fn pages_and_status() {
    let mut m = window();
    assert_eq!(m.page(), Page::Screens);
    m.update(AppMsg::NavigateTo(Page::from_nav_index(2)));
    assert_eq!(m.page().title(), "Logs");
    assert_eq!(Page::from_nav_index(7).name(), "settings");
    assert_eq!(m.status_text(), "Capture & emulation disabled");
    assert!(m.capture_row_visible(false) && m.emulation_row_visible(false));
    m.frontend(FrontendEvent::CaptureStatus(Status::Enabled), "", "t");
    assert_eq!(m.status_text(), "Emulation disabled");
    assert!(!m.capture_row_visible(false) && m.capture_row_visible(true));
    assert!(!m.emulation_row_visible(true));
    assert_eq!(m.log().len(), 1);
    m.update(AppMsg::LogClear);
    assert_eq!(m.log().len(), 0);
    m.update(AppMsg::ToggleCapture {
        needs_permission: true,
        granted: true,
    });
    assert!(matches!(
        m.take_actions()[..],
        [AppAction::Relaunch, AppAction::Quit]
    ));
    m.update(AppMsg::AudioBitrateChanged(2));
    assert!(matches!(
        m.take_actions()[..],
        [AppAction::Request(FrontendRequest::UpdateAudioSettings {
            bitrate: 128_000,
            buffer_ms: 80
        })]
    ));
    assert_eq!(capture_row_title(true, true), "relaunch required");
    assert_eq!(capture_row_title(true, false), "input capture is disabled");
    assert_eq!(capture_row_title(false, true), "input capture is disabled");
    assert_eq!(capture_row_button_label(true, true), "Relaunch");
    assert_eq!(capture_row_button_label(true, false), "Grant");
    assert_eq!(capture_row_button_label(false, false), "Reenable");
    assert_eq!(
        capture_row_subtitle(false, false),
        "required for outgoing and incoming connections"
    );
}

fn screen(handle: u64, position: Position) -> ScreenItem {
    ScreenItem {
        handle,
        hostname: None,
        position,
        active: true,
        audio_active: false,
    }
}

#[test]
fn dragging_a_screen_moves_it() {
    let mut a = ScreenArrangement::new();
    a.set_items(vec![screen(7, Position::Left), screen(8, Position::Left)]);
    assert_eq!(a.draw_order(), vec![0, 1]);
    // the one drawn last lies on top
    assert_eq!(a.hit_test(&vec![true, true]), Some(1));
    assert!(a.on_motion(Some(0)));
    assert!(!a.on_motion(Some(0)));
    a.on_drag_begin(Some(0));
    assert_eq!(a.draw_order(), vec![1, 0]);
    assert_eq!(a.selected(), Some(7));
    a.on_drag_update(Position::Bottom);
    assert_eq!(a.drop_position(), Some(Position::Bottom));
    assert_eq!(a.on_drag_end(true, None), Some((7, Position::Bottom)));
    assert_eq!(a.items()[0].position, Position::Bottom);
    assert_eq!(a.dragging(), None);
    // a short drag is a click
    a.on_drag_begin(Some(1));
    a.on_drag_update(Position::Top);
    assert_eq!(a.on_drag_end(false, Some(1)), None);
    assert_eq!(a.items()[1].position, Position::Left);
    assert_eq!(a.hovered(), Some(1));
    a.on_leave();
    assert_eq!(a.hovered(), None);
    assert_eq!(a.on_drag_end(true, None), None);
    // a screen that is gone is no longer selected
    a.set_items(vec![screen(7, Position::Left)]);
    assert_eq!(a.selected(), None);
}

#[test]
fn screens_at_one_edge_are_stacked() {
    let mut a = ScreenArrangement::new();
    a.set_items(vec![
        screen(1, Position::Left),
        screen(2, Position::Right),
        screen(3, Position::Left),
    ]);
    assert_eq!((a.base_rect(0).x, a.base_rect(0).y), (-190, -38));
    assert_eq!((a.base_rect(1).x, a.base_rect(1).y), (90, -32));
    assert_eq!((a.base_rect(2).x, a.base_rect(2).y), (-190, -26));
    assert_eq!(a.bounds(), (-190, 190, -133, 133));
    assert!(a.set_host_label("host"));
    assert!(!a.set_host_label("host"));
    assert_eq!(a.host_label(), "host");
}

#[test]
fn versions_are_compared() {
    assert_eq!(
        peer_commit_to_string(Some(*b"0123abcd")).as_deref(),
        Some("0123abcd")
    );
    assert_eq!(
        peer_commit_to_string(Some(*"\u{e9}\u{20ac}abc".as_bytes().first_chunk().expect("8 bytes")))
            .as_deref(),
        Some("\u{e9}\u{20ac}abc")
    );
    assert_eq!(peer_commit_to_string(Some([0xff; 8])), None);
    assert_eq!(peer_commit_to_string(None), None);
    let peer = |s: &str| Some(s.to_owned());
    assert_eq!(
        version_subtitle(&None, "abc"),
        "Peer version: unknown · Ours: abc"
    );
    assert_eq!(
        version_subtitle(&peer("abc"), "abc"),
        "Peer version: abc · matched"
    );
    assert_eq!(
        version_subtitle(&peer("def"), "abc"),
        "Peer version: def · Ours: abc"
    );
    assert_eq!(version_css_class(&None, "abc"), "peer-unknown");
    assert_eq!(version_css_class(&peer("abc"), "abc"), "peer-match");
    assert_eq!(version_css_class(&peer("def"), "abc"), "peer-mismatch");
    assert_eq!(
        dns_tooltip(&vec![]),
        "no ip addresses associated with this client"
    );
    let ips = vec!["10.0.0.1".to_owned(), "::1".to_owned()];
    assert_eq!(dns_tooltip(&ips), "10.0.0.1\n::1");
    assert_eq!(dns_css_class(&ips), "success");
    assert_eq!(dns_css_class(&vec![]), "warning");
}

#[test]
fn theme_warnings_are_recognised() {
    let field = |k: &str, v: &str| (k.to_owned(), Some(v.to_owned()));
    let warning = "Theme parser warning: gtk.css:12:3";
    assert!(is_gtk_theme_parser_warning(&vec![
        field("GLIB_DOMAIN", "Gtk"),
        field("MESSAGE", warning),
    ]));
    assert!(!is_gtk_theme_parser_warning(&vec![
        field("GLIB_DOMAIN", "Gdk"),
        field("MESSAGE", warning),
    ]));
    assert!(!is_gtk_theme_parser_warning(&vec![
        field("GLIB_DOMAIN", "Gtk"),
        field("MESSAGE", "something else"),
    ]));
    // the last value counts
    assert!(!is_gtk_theme_parser_warning(&vec![
        field("GLIB_DOMAIN", "Gtk"),
        field("MESSAGE", warning),
        ("MESSAGE".to_owned(), None),
    ]));
}

#[test]
fn a_listing_updates_and_appends() {
    let mut m = window();
    m.frontend(created(1, Position::Left), "", "");
    m.frontend(created(2, Position::Right), "", "");
    let entry = |h, pos| {
        let mut config = ClientConfig::default();
        config.pos = pos;
        (h, config, ClientState::default())
    };
    m.frontend(
        FrontendEvent::Enumerate(vec![
            entry(5, Position::Top),
            entry(2, Position::Bottom),
            entry(3, Position::Top),
            entry(5, Position::Right),
        ]),
        "",
        "",
    );
    let rows: Vec<_> = m.client_rows().iter().map(|r| (r.handle(), r.position())).collect();
    assert_eq!(
        rows,
        vec![
            (1, Position::Left),
            (2, Position::Bottom),
            (5, Position::Right),
            (3, Position::Top)
        ]
    );
    // a state of a client without a row adds none
    let (h, c, st) = entry(9, Position::Left);
    m.frontend(FrontendEvent::State(h, c, st), "", "");
    assert_eq!(m.client_rows().len(), 4);
}
