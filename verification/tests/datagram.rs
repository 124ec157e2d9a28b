use deskunion::datagram::batch::AudioFrameRef;
use deskunion::datagram::{
    decode, encode_into, AudioControlCmd, Datagram, DatagramRef, AUDIO_CONTROL_SIZE,
    AUDIO_HEADER_SIZE, MAX_DATAGRAM_SIZE,
};
use deskunion::proto::{
    EventType, InputEvent, KeyboardEvent, PointerEvent, Position, ProtoEvent, ProtocolError,
    MAX_EVENT_SIZE,
};

fn encode(dg: DatagramRef) -> Vec<u8> {
    let mut buf = [0u8; MAX_DATAGRAM_SIZE];
    let len = encode_into(dg, &mut buf).expect("encode");
    buf[..len].to_vec()
}

#[test]
fn audio_roundtrip() {
    for size in [1usize, 240, MAX_DATAGRAM_SIZE - AUDIO_HEADER_SIZE] {
        let payload = vec![0xAB; size];
        let buf = encode(DatagramRef::Audio {
            seq: 42,
            ts_ms: 1337,
            payload: &payload,
        });
        let decoded = match decode(&buf).expect("decode") {
            Datagram::Audio {
                seq,
                ts_ms,
                payload_range,
            } => {
                assert_eq!(seq, 42);
                assert_eq!(ts_ms, 1337);
                buf[payload_range].to_vec()
            }
            other => panic!("expected audio, got {other:?}"),
        };
        assert_eq!(decoded, payload);
    }
}

#[test]
fn audio_control_roundtrip() {
    for cmd in [
        AudioControlCmd::Stop,
        AudioControlCmd::Start {
            sample_rate: 48000,
            channels: 2,
        },
    ] {
        let buf = encode(DatagramRef::AudioControl(cmd));
        assert_eq!(buf.len(), AUDIO_CONTROL_SIZE);
        match decode(&buf).expect("decode") {
            Datagram::AudioControl(decoded) => assert_eq!(decoded, cmd),
            other => panic!("expected audio control, got {other:?}"),
        }
    }
}

#[test]
fn truncated_audio_header() {
    let buf = encode(DatagramRef::Audio {
        seq: 1,
        ts_ms: 1,
        payload: &[1, 2, 3],
    });
    for cut in 0..AUDIO_HEADER_SIZE {
        assert!(matches!(
            decode(&buf[..cut]),
            Err(ProtocolError::Truncated(_))
        ));
    }
}

#[test]
fn truncated_audio_payload() {
    let buf = encode(DatagramRef::Audio {
        seq: 1,
        ts_ms: 1,
        payload: &[1, 2, 3],
    });
    assert!(matches!(
        decode(&buf[..buf.len() - 1]),
        Err(ProtocolError::Truncated(_))
    ));
}

#[test]
fn zero_length_audio_is_rejected() {
    let mut buf = [0u8; AUDIO_HEADER_SIZE];
    buf[0] = EventType::Audio.to_byte();
    buf[9..11].copy_from_slice(&0u16.to_be_bytes());
    assert!(matches!(
        decode(&buf),
        Err(ProtocolError::InvalidAudioLength(0))
    ));
}

#[test]
fn unknown_event_type_is_an_error() {
    // read loops treat this as "skip datagram": the mechanism
    // that keeps the protocol forward-compatible
    let buf = [200u8; MAX_DATAGRAM_SIZE];
    assert!(matches!(
        decode(&buf),
        Err(ProtocolError::InvalidEventId(_))
    ));
}

#[test]
fn invalid_audio_control_command() {
    let mut buf = [0u8; AUDIO_CONTROL_SIZE];
    buf[0] = EventType::AudioControl.to_byte();
    buf[1] = 99;
    assert!(matches!(
        decode(&buf),
        Err(ProtocolError::InvalidAudioControlCmd(99))
    ));
}

#[test]
fn legacy_events_decode_identically() {
    // regression guard: the wire format of events must not
    // change when routed through decode()/encode_into()
    let events = [
        ProtoEvent::Ping,
        ProtoEvent::Pong(true),
        ProtoEvent::Leave(0xDEADBEEF),
        ProtoEvent::Ack(42),
        ProtoEvent::Enter(Position::Top),
        ProtoEvent::Hello {
            commit: *b"abcdefgh",
        },
    ];
    for event in events {
        let (legacy_buf, legacy_len): ([u8; MAX_EVENT_SIZE], usize) = event.encode();
        let mut buf = [0u8; MAX_DATAGRAM_SIZE];
        let len = encode_into(DatagramRef::Event(event), &mut buf).expect("encode");
        assert_eq!(&buf[..len], &legacy_buf[..legacy_len]);
        match decode(&buf[..len]).expect("decode") {
            Datagram::Event(decoded) => {
                assert_eq!(decoded, event);
                assert_eq!(format!("{decoded:?}"), format!("{event:?}"));
            }
            other => panic!("expected event, got {other:?}"),
        }
    }
}

#[test]
fn legacy_short_buffer_zero_pads_instead_of_erroring() {
    // a real `Ping` datagram is 1 byte on the wire (UDP preserves
    // message boundaries, so decode() sees exactly that). Missing
    // trailing fields must zero-pad, not reject the packet.
    let buf = [EventType::Ping.to_byte(); 1];
    assert!(matches!(
        decode(&buf),
        Ok(Datagram::Event(ProtoEvent::Ping))
    ));
}

#[test]
fn encode_into_small_buffer() {
    let mut buf = [0u8; 4];
    assert!(matches!(
        encode_into(
            DatagramRef::Audio {
                seq: 1,
                ts_ms: 1,
                payload: &[0; 32]
            },
            &mut buf
        ),
        Err(ProtocolError::BufferTooSmall {
            needed: 43,
            have: 4
        })
    ));
    assert_eq!(buf, [0u8; 4]);
}

#[test]
fn input_events_roundtrip() {
    let events = [
        ProtoEvent::Input(InputEvent::Pointer(PointerEvent::Motion {
            time: 7,
            dx: 1.5f64.to_bits(),
            dy: (-2.25f64).to_bits(),
        })),
        ProtoEvent::Input(InputEvent::Pointer(PointerEvent::Button {
            time: 1,
            button: 0x110,
            state: 1,
        })),
        ProtoEvent::Input(InputEvent::Pointer(PointerEvent::Axis {
            time: 1,
            axis: 1,
            value: 0.1f64.to_bits(),
        })),
        ProtoEvent::Input(InputEvent::Pointer(PointerEvent::AxisDiscrete120 {
            axis: 0,
            value: (-120i32) as u32,
        })),
        ProtoEvent::Input(InputEvent::Keyboard(KeyboardEvent::Key {
            time: 3,
            key: 30,
            state: 1,
        })),
        ProtoEvent::Input(InputEvent::Keyboard(KeyboardEvent::Modifiers {
            depressed: 1,
            latched: 2,
            locked: 3,
            group: 4,
        })),
    ];
    for event in events {
        let buf = encode(DatagramRef::Event(event));
        match decode(&buf).expect("decode") {
            Datagram::Event(decoded) => assert_eq!(decoded, event),
            other => panic!("expected event, got {other:?}"),
        }
    }
}

#[test]
fn wire_bytes_are_big_endian() {
    let buf = encode(DatagramRef::Audio {
        seq: 0x01020304,
        ts_ms: 0x05060708,
        payload: &[9, 10],
    });
    assert_eq!(buf[1..], [1, 2, 3, 4, 5, 6, 7, 8, 0, 2, 9, 10]);
    let buf = encode(DatagramRef::Event(ProtoEvent::Leave(0xDEADBEEF)));
    assert_eq!(buf[1..], [0xDE, 0xAD, 0xBE, 0xEF]);
}

#[test]
fn unencodable_payloads_are_refused_before_the_buffer_is_looked_at() {
    let mut buf = [0u8; 4];
    assert_eq!(
        encode_into(
            DatagramRef::Audio {
                seq: 0,
                ts_ms: 0,
                payload: &[]
            },
            &mut buf
        ),
        Err(ProtocolError::InvalidAudioLength(0))
    );
    let long = vec![0u8; 65536];
    assert_eq!(
        encode_into(
            DatagramRef::Audio {
                seq: 0,
                ts_ms: 0,
                payload: &long
            },
            &mut buf
        ),
        Err(ProtocolError::InvalidAudioLength(u16::MAX))
    );
}

#[test]
fn bad_edge_and_empty_datagram_are_errors() {
    let buf = [EventType::Enter.to_byte(), 4];
    assert!(matches!(
        decode(&buf),
        Err(ProtocolError::InvalidPosition(4))
    ));
    assert!(matches!(decode(&[]), Err(ProtocolError::Truncated(0))));
}

fn frame(seq: u32, payload: &[u8]) -> AudioFrameRef<'_> {
    AudioFrameRef {
        seq,
        ts_ms: seq * 20,
        payload,
    }
}

#[test]
fn batch_roundtrip() {
    let frames = [frame(7, &[1, 2, 3]), frame(8, &[4]), frame(u32::MAX / 20, &[5; 300])];
    let buf = encode(DatagramRef::AudioBatch(&frames));
    assert_eq!(buf.len(), 2 + 3 * 10 + 3 + 1 + 300);
    assert_eq!(&buf[..6], &[14, 3, 0, 0, 0, 7]);
    match decode(&buf).expect("decode") {
        Datagram::AudioBatch(got) => {
            assert_eq!(got.len(), 3);
            for (got, sent) in got.iter().zip(&frames) {
                assert_eq!((got.seq, got.ts_ms), (sent.seq, sent.ts_ms));
                assert_eq!(&buf[got.payload_range.clone()], sent.payload);
            }
        }
        other => panic!("expected a batch, got {other:?}"),
    }
    for cut in 0..buf.len() {
        assert!(matches!(decode(&buf[..cut]), Err(ProtocolError::Truncated(n)) if n == cut));
    }
}

#[test]
fn batches_that_cannot_be_carried() {
    let mut out = [0u8; MAX_DATAGRAM_SIZE];
    assert_eq!(
        encode_into(DatagramRef::AudioBatch(&[]), &mut out),
        Err(ProtocolError::InvalidBatchSize(0))
    );
    let many = vec![frame(0, &[1]); 256];
    assert_eq!(
        encode_into(DatagramRef::AudioBatch(&many), &mut out),
        Err(ProtocolError::InvalidBatchSize(256))
    );
    assert_eq!(
        encode_into(DatagramRef::AudioBatch(&[frame(0, &[1]), frame(1, &[])]), &mut out),
        Err(ProtocolError::InvalidAudioLength(0))
    );
    let long = vec![0u8; 600];
    assert_eq!(
        encode_into(DatagramRef::AudioBatch(&[frame(0, &long), frame(1, &long)]), &mut out),
        Err(ProtocolError::BufferTooSmall {
            needed: 1222,
            have: MAX_DATAGRAM_SIZE
        })
    );
    assert_eq!(out, [0u8; MAX_DATAGRAM_SIZE]);
    assert!(matches!(
        decode(&[14, 0]),
        Err(ProtocolError::InvalidBatchSize(0))
    ));
}
