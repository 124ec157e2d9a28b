use deskunion::audio::framing::AudioStats;
use deskunion::audio::{AudioSettings, SAMPLE_RATE};
use deskunion::client::ClientManager;
use deskunion::datagram::batch::AudioFrameRef;
use deskunion::datagram::{encode_into, AudioControlCmd, DatagramRef, MAX_DATAGRAM_SIZE};
use deskunion::listen::{
    announced_or_default_format, find_route, send_result, wants_receiver, Admission, AudioRxState,
    ConnTable, FrameFate, ListenEvent, MissCounter, ProbeStep, Prober, ReadStep, Reader, SendError,
    LIVENESS_MAX_MISSES,
};
use deskunion::net::{AddrSet, IpAddr, SocketAddr};
use deskunion::proto::ProtoEvent;
use deskunion::text::TextMap;

fn addr(port: u16) -> SocketAddr {
    SocketAddr::new(IpAddr::V4(0x7f00_0001), port)
}

fn encode(dg: DatagramRef) -> Vec<u8> {
    let mut buf = [0u8; MAX_DATAGRAM_SIZE];
    let len = encode_into(dg, &mut buf).expect("encode");
    buf[..len].to_vec()
}

#[test]
fn keepalive_tolerates_scattered_losses() {
    let mut keepalive = MissCounter::default();
    // scattered single misses never reach the limit
    for _ in 0..10 {
        assert!(!keepalive.miss());
        keepalive.reset();
    }
    // LIVENESS_MAX_MISSES - 1 consecutive misses still survive
    let mut keepalive = MissCounter::default();
    for _ in 0..LIVENESS_MAX_MISSES - 1 {
        assert!(!keepalive.miss());
    }
    // the next consecutive miss declares the peer dead
    assert!(keepalive.miss());
}

#[test]
fn keepalive_resets_on_any_response() {
    let mut keepalive = MissCounter::default();
    for _ in 0..LIVENESS_MAX_MISSES - 1 {
        keepalive.miss();
    }
    keepalive.reset();
    assert_eq!(keepalive.count(), 0);
    // a full new budget of misses is required after a response
    for _ in 0..LIVENESS_MAX_MISSES - 1 {
        assert!(!keepalive.miss());
    }
    assert!(keepalive.miss());
}

#[test]
fn lazy_receiver_format_defaults_to_wire_format() {
    // without an announced `Start`, the lazily created receiver on
    // the listener side must use the wire format (48 kHz stereo)
    assert_eq!(announced_or_default_format(None), (SAMPLE_RATE, 2));
    // an announced `Start` format is honored instead
    assert_eq!(announced_or_default_format(Some((44_100, 1))), (44_100, 1));
}

/// a connection whose fingerprint is authorized but not paired to a
/// client entry has no `active_addr`, so the capture side cannot
/// route `Enter` (or any other event) to it: it stays parked until
/// the user assigns a position
#[test]
fn unpaired_device_cannot_be_addressed() {
    let mut clients = ClientManager::default();
    let mut conns: ConnTable<&str> = ConnTable::new();
    clients.park("aa:bb".to_owned(), addr(4242));
    conns.push(addr(4242), "conn");
    assert_eq!(
        find_route(&clients, &conns, 0),
        Err(SendError::NotConnected(0))
    );
}

#[test]
fn routes_lead_to_live_paired_connections() {
    let mut clients = ClientManager::default();
    let mut conns: ConnTable<&str> = ConnTable::new();
    let h = clients.add_client();
    clients.set_active_addr(h, Some(addr(1)));
    assert_eq!(
        find_route(&clients, &conns, h),
        Err(SendError::EmulationDisabled(h))
    );
    clients.set_alive(h, true);
    assert_eq!(
        find_route(&clients, &conns, h),
        Err(SendError::NotConnected(h))
    );
    conns.push(addr(2), "other");
    conns.push(addr(1), "ours");
    conns.push(addr(1), "again");
    assert_eq!(find_route(&clients, &conns, h), Ok(1));
    assert_eq!(*conns.get(1).1, "ours");
    assert_eq!(conns.find_all(addr(1)), vec![1, 2]);
    conns.remove(addr(1));
    assert_eq!(conns.len(), 2);
    assert_eq!(*conns.get(1).1, "again");
    assert_eq!(send_result(h, true), Ok(()));
    assert_eq!(send_result(h, false), Err(SendError::NotConnected(h)));
    assert_eq!(
        SendError::NotConnected(3).to_string(),
        "client 3 is not connected"
    );
    assert_eq!(
        SendError::EmulationDisabled(12).to_string(),
        "emulation is disabled on client 12"
    );
}

#[test]
fn rejected_fingerprints_are_reported_in_order() {
    let mut keys: TextMap<String> = TextMap::new();
    keys.insert("good".to_owned(), "laptop".to_owned());
    let mut admission = Admission::new();
    assert!(admission.verify(&keys, "good".to_owned()));
    assert!(!admission.verify(&keys, "bad".to_owned()));
    assert!(!admission.verify(&keys, "worse".to_owned()));
    assert!(
        matches!(admission.rejected(), Some(ListenEvent::Rejected { fingerprint }) if fingerprint == "bad")
    );
    assert!(
        matches!(admission.rejected(), Some(ListenEvent::Rejected { fingerprint }) if fingerprint == "worse")
    );
    assert!(admission.rejected().is_none());
}

#[test]
fn probes_end_after_lasting_silence() {
    let mut heard = AddrSet::new();
    let mut p = Prober::new(addr(1));
    assert_eq!(p.sent(true), ProbeStep::Wait);
    assert_eq!(p.sent(false), ProbeStep::Close);
    for _ in 0..5 {
        p.begin(&mut heard);
        assert_eq!(p.elapsed(&mut heard), ProbeStep::Probe);
    }
    // any datagram from the peer counts
    heard.insert(addr(1));
    heard.insert(addr(2));
    assert_eq!(p.elapsed(&mut heard), ProbeStep::Probe);
    assert!(!heard.contains(addr(1)) && heard.contains(addr(2)));
    for _ in 0..5 {
        assert_eq!(p.elapsed(&mut heard), ProbeStep::Probe);
    }
    assert_eq!(p.elapsed(&mut heard), ProbeStep::Close);
}

fn settings(receive: bool) -> AudioSettings {
    AudioSettings {
        send: false,
        receive,
        bitrate: 96_000,
        buffer_ms: 80,
        capture_device: None,
        playback_device: None,
    }
}

#[test]
fn announcements_and_stops() {
    assert!(wants_receiver(&settings(true)) && !wants_receiver(&settings(false)));
    let mut rx = AudioRxState::default();
    let start = AudioControlCmd::Start {
        sample_rate: 44_100,
        channels: 1,
    };
    assert_eq!(rx.on_control(start, addr(1)).0, Some((44_100, 1)));
    assert!(rx.control_started(true, addr(1)).is_some());
    // repeated while the stream is on: nothing to start
    let (again, event) = rx.on_control(start, addr(1));
    assert!(again.is_none() && event.is_none());
    assert_eq!(rx.on_frame(), FrameFate::Play { first: true });
    assert_eq!(rx.on_frame(), FrameFate::Play { first: false });
    let (none, event) = rx.on_control(AudioControlCmd::Stop, addr(1));
    assert!(none.is_none());
    assert!(matches!(
        event,
        Some(ListenEvent::AudioStream { active: false, .. })
    ));
    assert_eq!(rx.ensure_receiver(), Some((SAMPLE_RATE, 2)));
    assert!(rx.lazy_started(false, addr(1)).is_none());
    // a failure is not tried again for every frame
    assert_eq!(rx.ensure_receiver(), None);
    assert_eq!(rx.on_frame(), FrameFate::Discard { log: Some(1) });
    assert_eq!(rx.on_frame(), FrameFate::Discard { log: None });
    assert_eq!((rx.received(), rx.dropped()), (2, 2));
    assert!(!rx.has_receiver());
}

#[test]
fn reader_follows_a_stream() {
    let mut heard = AddrSet::new();
    let mut r = Reader::new(addr(9), 0);
    let ping = encode(DatagramRef::Event(ProtoEvent::Pong(true)));
    assert!(matches!(
        r.on_datagram(&ping, 10, &mut heard),
        ReadStep::Deliver(ListenEvent::Msg {
            event: ProtoEvent::Pong(true),
            ..
        })
    ));
    assert!(heard.contains(addr(9)));
    assert!(matches!(
        r.on_datagram(&[200], 11, &mut heard),
        ReadStep::Skip(_)
    ));
    let audio = encode(DatagramRef::Audio {
        seq: 5,
        ts_ms: 0,
        payload: &[1, 2],
    });
    match r.on_datagram(&audio, 12, &mut heard) {
        ReadStep::Audio {
            start,
            seq,
            payload,
        } => {
            assert_eq!(start, Some((SAMPLE_RATE, 2)));
            assert_eq!((seq, &audio[payload]), (5, &[1u8, 2][..]));
        }
        other => panic!("expected audio, got {other:?}"),
    }
    assert!(r.lazy_started(true).is_some());
    assert_eq!(r.on_frame(), FrameFate::Play { first: true });
    let start = encode(DatagramRef::AudioControl(AudioControlCmd::Start {
        sample_rate: 48_000,
        channels: 2,
    }));
    assert!(matches!(
        r.on_datagram(&start, 500, &mut heard),
        ReadStep::Control {
            start: None,
            event: None
        }
    ));
    // the announcement put off the report
    assert!(!r.stats_due(1_200) && r.stats_due(1_500));
    let stats = AudioStats {
        latency_ms: 80,
        packets_lost: 3,
        level: 0,
    };
    assert!(matches!(
        r.report(true, stats, 1_500),
        Some(ListenEvent::AudioStream {
            active: true,
            latency_ms: 80,
            packets_lost: 3,
            ..
        })
    ));
    assert!(matches!(
        r.report(false, stats, 2_500),
        Some(ListenEvent::AudioStream { active: false, .. })
    ));
    assert!(r.report(true, stats, 3_500).is_none());
    assert!(r.control_started(true).is_some());
    let events = r.closed(&mut heard);
    assert_eq!(events.len(), 2);
    assert!(matches!(events[1], ListenEvent::Disconnected { .. }));
    assert!(!heard.contains(addr(9)));
    assert_eq!((r.received(), r.dropped()), (1, 0));
}

#[test]
fn reader_plays_a_batch_in_order() {
    let mut heard = AddrSet::new();
    let mut r = Reader::new(addr(9), 0);
    let frames = [
        AudioFrameRef {
            seq: 4,
            ts_ms: 80,
            payload: &[1, 2],
        },
        AudioFrameRef {
            seq: 5,
            ts_ms: 100,
            payload: &[3],
        },
    ];
    let batch = encode(DatagramRef::AudioBatch(&frames));
    match r.on_datagram(&batch, 1, &mut heard) {
        ReadStep::Batch { start, frames } => {
            assert_eq!(start, Some((SAMPLE_RATE, 2)));
            assert_eq!(frames.len(), 2);
            assert_eq!((frames[0].seq, &batch[frames[0].payload_range.clone()]), (4, &[1u8, 2][..]));
            assert_eq!((frames[1].seq, &batch[frames[1].payload_range.clone()]), (5, &[3u8][..]));
        }
        other => panic!("expected a batch, got {other:?}"),
    }
    assert!(r.lazy_started(true).is_some());
    // playback is on: the next one starts nothing
    assert!(matches!(
        r.on_datagram(&batch, 2, &mut heard),
        ReadStep::Batch { start: None, .. }
    ));
}
