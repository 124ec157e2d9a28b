//! Control and input events and their fixed-size wire format.
//!
//! The first byte of an event is its [`EventType`]; the fields follow in
//! big-endian order. Pointer coordinates are IEEE 754 doubles, held here as
//! their 64-bit patterns.

use crate::wire::{at32, at64, be32, be64, get_u32, get_u64, put_bytes, put_u32, put_u64};
use crate::wire::{lemma_at32_be32, lemma_at64_be64, lemma_be32_len, lemma_be64_len};
use vstd::prelude::*;

verus! {

/// The most bytes an encoded event takes: a type, a time stamp and two doubles.
pub const MAX_EVENT_SIZE: usize = 21;

/// Why a datagram was not decoded or not encoded.
#[derive(Clone, Copy, Debug, PartialEq, Eq, Structural)]
pub enum ProtocolError {
    /// the first byte names no known event type
    InvalidEventId(u8),
    /// the byte names no screen edge
    InvalidPosition(u8),
    /// the datagram ends early; carries its length
    Truncated(usize),
    /// an audio payload of this length cannot be carried
    InvalidAudioLength(u16),
    /// a batch of this many audio frames cannot be carried
    InvalidBatchSize(usize),
    /// the byte names no audio stream command
    InvalidAudioControlCmd(u8),
    /// the output buffer is too short
    BufferTooSmall { needed: usize, have: usize },
}

/// A screen edge as it stands on the wire.
#[derive(Clone, Copy, Debug, PartialEq, Eq, Structural)]
pub enum Position {
    Left,
    Right,
    Top,
    Bottom,
}

/// The byte that stands for a screen edge.
pub open spec fn position_byte(pos: Position) -> u8 {
    match pos {
        Position::Left => 0,
        Position::Right => 1,
        Position::Top => 2,
        Position::Bottom => 3,
    }
}

/// The screen edge that a byte stands for.
pub open spec fn byte_position(b: u8) -> Option<Position> {
    if b == 0 {
        Some(Position::Left)
    } else if b == 1 {
        Some(Position::Right)
    } else if b == 2 {
        Some(Position::Top)
    } else if b == 3 {
        Some(Position::Bottom)
    } else {
        None
    }
}

/// What a datagram's first byte says it is.
#[derive(Clone, Copy, Debug, PartialEq, Eq, Structural)]
pub enum EventType {
    PointerMotion,
    PointerButton,
    PointerAxis,
    PointerAxisValue120,
    KeyboardKey,
    KeyboardModifiers,
    Ping,
    Pong,
    Enter,
    Leave,
    Ack,
    Hello,
    Audio,
    AudioControl,
    AudioBatch,
}

/// The byte that stands for an event type.
pub open spec fn type_byte(t: EventType) -> u8 {
    match t {
        EventType::PointerMotion => 0,
        EventType::PointerButton => 1,
        EventType::PointerAxis => 2,
        EventType::PointerAxisValue120 => 3,
        EventType::KeyboardKey => 4,
        EventType::KeyboardModifiers => 5,
        EventType::Ping => 6,
        EventType::Pong => 7,
        EventType::Enter => 8,
        EventType::Leave => 9,
        EventType::Ack => 10,
        EventType::Hello => 11,
        EventType::Audio => 12,
        EventType::AudioControl => 13,
        EventType::AudioBatch => 14,
    }
}

/// The event type that a byte stands for.
pub open spec fn byte_type(b: u8) -> Option<EventType> {
    match b {
        0 => Some(EventType::PointerMotion),
        1 => Some(EventType::PointerButton),
        2 => Some(EventType::PointerAxis),
        3 => Some(EventType::PointerAxisValue120),
        4 => Some(EventType::KeyboardKey),
        5 => Some(EventType::KeyboardModifiers),
        6 => Some(EventType::Ping),
        7 => Some(EventType::Pong),
        8 => Some(EventType::Enter),
        9 => Some(EventType::Leave),
        10 => Some(EventType::Ack),
        11 => Some(EventType::Hello),
        12 => Some(EventType::Audio),
        13 => Some(EventType::AudioControl),
        14 => Some(EventType::AudioBatch),
        _ => None,
    }
}

/// Every event type is the one its byte stands for.
pub proof fn lemma_type_byte_roundtrip(t: EventType)
    ensures
        byte_type(type_byte(t)) == Some(t),
{
}

/// Every edge is the one its byte stands for.
pub proof fn lemma_position_byte_roundtrip(pos: Position)
    ensures
        byte_position(position_byte(pos)) == Some(pos),
{
}

impl EventType {
    /// The byte that stands for this event type.
    pub fn to_byte(self) -> (b: u8)
        ensures
            b == type_byte(self),
    {
        match self {
            EventType::PointerMotion => 0,
            EventType::PointerButton => 1,
            EventType::PointerAxis => 2,
            EventType::PointerAxisValue120 => 3,
            EventType::KeyboardKey => 4,
            EventType::KeyboardModifiers => 5,
            EventType::Ping => 6,
            EventType::Pong => 7,
            EventType::Enter => 8,
            EventType::Leave => 9,
            EventType::Ack => 10,
            EventType::Hello => 11,
            EventType::Audio => 12,
            EventType::AudioControl => 13,
            EventType::AudioBatch => 14,
        }
    }

    /// The event type that a byte stands for, if any does.
    pub fn from_byte(b: u8) -> (t: Option<EventType>)
        ensures
            t == byte_type(b),
    {
        match b {
            0 => Some(EventType::PointerMotion),
            1 => Some(EventType::PointerButton),
            2 => Some(EventType::PointerAxis),
            3 => Some(EventType::PointerAxisValue120),
            4 => Some(EventType::KeyboardKey),
            5 => Some(EventType::KeyboardModifiers),
            6 => Some(EventType::Ping),
            7 => Some(EventType::Pong),
            8 => Some(EventType::Enter),
            9 => Some(EventType::Leave),
            10 => Some(EventType::Ack),
            11 => Some(EventType::Hello),
            12 => Some(EventType::Audio),
            13 => Some(EventType::AudioControl),
            14 => Some(EventType::AudioBatch),
            _ => None,
        }
    }
}

/// Pointer input. Coordinates are bit patterns of doubles, the discrete
/// scroll value that of a signed 32-bit number.
#[allow(inconsistent_fields)]
#[derive(Clone, Copy, Debug, PartialEq, Eq, Structural)]
pub enum PointerEvent {
    Motion { time: u32, dx: u64, dy: u64 },
    Button { time: u32, button: u32, state: u32 },
    Axis { time: u32, axis: u8, value: u64 },
    AxisDiscrete120 { axis: u8, value: u32 },
}

/// Keyboard input.
#[derive(Clone, Copy, Debug, PartialEq, Eq, Structural)]
pub enum KeyboardEvent {
    Key { time: u32, key: u32, state: u8 },
    Modifiers { depressed: u32, latched: u32, locked: u32, group: u32 },
}

/// An input event of either kind.
#[derive(Clone, Copy, Debug, PartialEq, Eq, Structural)]
pub enum InputEvent {
    Pointer(PointerEvent),
    Keyboard(KeyboardEvent),
}

/// A control or input event exchanged between two machines.
#[derive(Clone, Copy, Debug, PartialEq, Eq)]
pub enum ProtoEvent {
    /// the pointer enters the peer's screen at an edge
    Enter(Position),
    /// the pointer leaves the peer's screen
    Leave(u32),
    /// acknowledges an [`ProtoEvent::Enter`] or [`ProtoEvent::Leave`]
    Ack(u32),
    /// input to emulate
    Input(InputEvent),
    /// keepalive request
    Ping,
    /// keepalive reply; tells whether emulation is on
    Pong(bool),
    /// the first eight characters of the peer's build commit
    Hello { commit: [u8; 8] },
}

/// The event type of an event.
pub open spec fn event_type(e: ProtoEvent) -> EventType {
    match e {
        ProtoEvent::Enter(_) => EventType::Enter,
        ProtoEvent::Leave(_) => EventType::Leave,
        ProtoEvent::Ack(_) => EventType::Ack,
        ProtoEvent::Input(InputEvent::Pointer(p)) => match p {
            PointerEvent::Motion { .. } => EventType::PointerMotion,
            PointerEvent::Button { .. } => EventType::PointerButton,
            PointerEvent::Axis { .. } => EventType::PointerAxis,
            PointerEvent::AxisDiscrete120 { .. } => EventType::PointerAxisValue120,
        },
        ProtoEvent::Input(InputEvent::Keyboard(k)) => match k {
            KeyboardEvent::Key { .. } => EventType::KeyboardKey,
            KeyboardEvent::Modifiers { .. } => EventType::KeyboardModifiers,
        },
        ProtoEvent::Ping => EventType::Ping,
        ProtoEvent::Pong(_) => EventType::Pong,
        ProtoEvent::Hello { .. } => EventType::Hello,
    }
}

/// The fields of an event in wire order.
pub open spec fn event_fields(e: ProtoEvent) -> Seq<u8> {
    match e {
        ProtoEvent::Enter(pos) => seq![position_byte(pos)],
        ProtoEvent::Leave(serial) => be32(serial),
        ProtoEvent::Ack(serial) => be32(serial),
        ProtoEvent::Input(InputEvent::Pointer(p)) => match p {
            PointerEvent::Motion { time, dx, dy } => be32(time) + be64(dx) + be64(dy),
            PointerEvent::Button { time, button, state } => be32(time) + be32(button) + be32(state),
            PointerEvent::Axis { time, axis, value } => be32(time) + seq![axis] + be64(value),
            PointerEvent::AxisDiscrete120 { axis, value } => seq![axis] + be32(value),
        },
        ProtoEvent::Input(InputEvent::Keyboard(k)) => match k {
            KeyboardEvent::Key { time, key, state } => be32(time) + be32(key) + seq![state],
            KeyboardEvent::Modifiers { depressed, latched, locked, group } => be32(depressed)
                + be32(latched) + be32(locked) + be32(group),
        },
        ProtoEvent::Ping => seq![],
        ProtoEvent::Pong(alive) => seq![if alive { 1u8 } else { 0u8 }],
        ProtoEvent::Hello { commit } => commit@,
    }
}

/// The wire bytes of an event.
pub open spec fn event_bytes(e: ProtoEvent) -> Seq<u8> {
    seq![type_byte(event_type(e))] + event_fields(e)
}

/// The first [`MAX_EVENT_SIZE`] bytes of `s`, filled up with zeros.
pub open spec fn padded(s: Seq<u8>) -> Seq<u8> {
    Seq::new(MAX_EVENT_SIZE as nat, |i: int| if i < s.len() { s[i] } else { 0u8 })
}

/// What the fields of an event of type `t` say, in a padded buffer.
/// `None` where the type is not that of an event, or the edge is unknown.
pub open spec fn parse_fields(t: EventType, s: Seq<u8>) -> Option<ProtoEvent> {
    match t {
        EventType::PointerMotion => Some(ProtoEvent::Input(InputEvent::Pointer(
            PointerEvent::Motion { time: at32(s, 1), dx: at64(s, 5), dy: at64(s, 13) },
        ))),
        EventType::PointerButton => Some(ProtoEvent::Input(InputEvent::Pointer(
            PointerEvent::Button { time: at32(s, 1), button: at32(s, 5), state: at32(s, 9) },
        ))),
        EventType::PointerAxis => Some(ProtoEvent::Input(InputEvent::Pointer(
            PointerEvent::Axis { time: at32(s, 1), axis: s[5], value: at64(s, 6) },
        ))),
        EventType::PointerAxisValue120 => Some(ProtoEvent::Input(InputEvent::Pointer(
            PointerEvent::AxisDiscrete120 { axis: s[1], value: at32(s, 2) },
        ))),
        EventType::KeyboardKey => Some(ProtoEvent::Input(InputEvent::Keyboard(
            KeyboardEvent::Key { time: at32(s, 1), key: at32(s, 5), state: s[9] },
        ))),
        EventType::KeyboardModifiers => Some(ProtoEvent::Input(InputEvent::Keyboard(
            KeyboardEvent::Modifiers {
                depressed: at32(s, 1),
                latched: at32(s, 5),
                locked: at32(s, 9),
                group: at32(s, 13),
            },
        ))),
        EventType::Ping => Some(ProtoEvent::Ping),
        EventType::Pong => Some(ProtoEvent::Pong(s[1] != 0)),
        EventType::Enter => match byte_position(s[1]) {
            Some(pos) => Some(ProtoEvent::Enter(pos)),
            None => None,
        },
        EventType::Leave => Some(ProtoEvent::Leave(at32(s, 1))),
        EventType::Ack => Some(ProtoEvent::Ack(at32(s, 1))),
        EventType::Hello => Some(ProtoEvent::Hello {
            commit: [s[1], s[2], s[3], s[4], s[5], s[6], s[7], s[8]],
        }),
        EventType::Audio => None,
        EventType::AudioControl => None,
        EventType::AudioBatch => None,
    }
}

/// The event in a full-size buffer, or why there is none.
pub open spec fn parse_event(s: Seq<u8>) -> Result<ProtoEvent, ProtocolError> {
    match byte_type(s[0]) {
        None => Err(ProtocolError::InvalidEventId(s[0])),
        Some(t) => match parse_fields(t, s) {
            Some(e) => Ok(e),
            None if t is Enter => Err(ProtocolError::InvalidPosition(s[1])),
            None => Err(ProtocolError::InvalidEventId(s[0])),
        },
    }
}

/// A full-size buffer that starts with the bytes of an event reads as that
/// event, whatever follows them.
pub proof fn lemma_event_roundtrip(e: ProtoEvent, s: Seq<u8>)
    requires
        s.len() == MAX_EVENT_SIZE,
        event_bytes(e).is_prefix_of(s),
    ensures
        parse_event(s) == Ok::<ProtoEvent, ProtocolError>(e),
{
    assert(forall|i: int| 0 <= i < event_bytes(e).len() ==> s[i] == event_bytes(e)[i]);
    lemma_type_byte_roundtrip(event_type(e));
    broadcast use {lemma_be32_len, lemma_be64_len};
    let f = event_fields(e);
    assert(forall|i: int| 0 <= i < f.len() ==> event_bytes(e)[i + 1] == f[i]);
    match e {
        ProtoEvent::Leave(v) => {
            assert(s.subrange(1, 5) =~= be32(v));
            lemma_at32_be32(s, 1, v);
        },
        ProtoEvent::Ack(v) => {
            assert(s.subrange(1, 5) =~= be32(v));
            lemma_at32_be32(s, 1, v);
        },
        ProtoEvent::Input(InputEvent::Pointer(p)) => match p {
            PointerEvent::Motion { time, dx, dy } => {
                assert(s.subrange(1, 5) =~= be32(time));
                assert(s.subrange(5, 13) =~= be64(dx));
                assert(s.subrange(13, 21) =~= be64(dy));
                lemma_at32_be32(s, 1, time);
                lemma_at64_be64(s, 5, dx);
                lemma_at64_be64(s, 13, dy);
            },
            PointerEvent::Button { time, button, state } => {
                assert(s.subrange(1, 5) =~= be32(time));
                assert(s.subrange(5, 9) =~= be32(button));
                assert(s.subrange(9, 13) =~= be32(state));
                lemma_at32_be32(s, 1, time);
                lemma_at32_be32(s, 5, button);
                lemma_at32_be32(s, 9, state);
            },
            PointerEvent::Axis { time, axis, value } => {
                assert(s.subrange(1, 5) =~= be32(time));
                assert(s.subrange(6, 14) =~= be64(value));
                assert(f[4] == axis);
                lemma_at32_be32(s, 1, time);
                lemma_at64_be64(s, 6, value);
            },
            PointerEvent::AxisDiscrete120 { axis, value } => {
                assert(s.subrange(2, 6) =~= be32(value));
                assert(f[0] == axis);
                lemma_at32_be32(s, 2, value);
            },
        },
        ProtoEvent::Input(InputEvent::Keyboard(k)) => match k {
            KeyboardEvent::Key { time, key, state } => {
                assert(s.subrange(1, 5) =~= be32(time));
                assert(s.subrange(5, 9) =~= be32(key));
                assert(f[8] == state);
                lemma_at32_be32(s, 1, time);
                lemma_at32_be32(s, 5, key);
            },
            KeyboardEvent::Modifiers { depressed, latched, locked, group } => {
                assert(s.subrange(1, 5) =~= be32(depressed));
                assert(s.subrange(5, 9) =~= be32(latched));
                assert(s.subrange(9, 13) =~= be32(locked));
                assert(s.subrange(13, 17) =~= be32(group));
                lemma_at32_be32(s, 1, depressed);
                lemma_at32_be32(s, 5, latched);
                lemma_at32_be32(s, 9, locked);
                lemma_at32_be32(s, 13, group);
            },
        },
        ProtoEvent::Hello { commit } => {
            let read = [s[1], s[2], s[3], s[4], s[5], s[6], s[7], s[8]];
            assert forall|i: int| 0 <= i < 8 implies read[i] == commit[i] by {
                assert(f[i] == commit[i]);
                assert(s[i + 1] == f[i]);
            }
            assert(read@ =~= commit@);
            assert(read == commit);
        },
        ProtoEvent::Enter(pos) => {
            assert(f[0] == position_byte(pos));
        },
        ProtoEvent::Pong(alive) => {
            assert(f[0] == if alive { 1u8 } else { 0u8 });
        },
        ProtoEvent::Ping => {},
    }
}

impl Position {
    /// The byte that stands for this edge.
    pub fn to_byte(self) -> (b: u8)
        ensures
            b == position_byte(self),
    {
        match self {
            Position::Left => 0,
            Position::Right => 1,
            Position::Top => 2,
            Position::Bottom => 3,
        }
    }

    /// The edge that a byte stands for, if any does.
    pub fn from_byte(b: u8) -> (pos: Option<Position>)
        ensures
            pos == byte_position(b),
    {
        match b {
            0 => Some(Position::Left),
            1 => Some(Position::Right),
            2 => Some(Position::Top),
            3 => Some(Position::Bottom),
            _ => None,
        }
    }
}

impl ProtoEvent {
    /// The event type of this event.
    pub fn event_type(self) -> (t: EventType)
        ensures
            t == event_type(self),
    {
        match self {
            ProtoEvent::Enter(_) => EventType::Enter,
            ProtoEvent::Leave(_) => EventType::Leave,
            ProtoEvent::Ack(_) => EventType::Ack,
            ProtoEvent::Input(InputEvent::Pointer(p)) => match p {
                PointerEvent::Motion { .. } => EventType::PointerMotion,
                PointerEvent::Button { .. } => EventType::PointerButton,
                PointerEvent::Axis { .. } => EventType::PointerAxis,
                PointerEvent::AxisDiscrete120 { .. } => EventType::PointerAxisValue120,
            },
            ProtoEvent::Input(InputEvent::Keyboard(k)) => match k {
                KeyboardEvent::Key { .. } => EventType::KeyboardKey,
                KeyboardEvent::Modifiers { .. } => EventType::KeyboardModifiers,
            },
            ProtoEvent::Ping => EventType::Ping,
            ProtoEvent::Pong(_) => EventType::Pong,
            ProtoEvent::Hello { .. } => EventType::Hello,
        }
    }

    /// Encodes the event at the front of a zeroed buffer, and tells how many
    /// bytes it takes.
    pub fn encode(self) -> (r: ([u8; MAX_EVENT_SIZE], usize))
        ensures
            r.1 == event_bytes(self).len(),
            r.1 <= MAX_EVENT_SIZE,
            r.0@ == padded(event_bytes(self)),
    {
        broadcast use {lemma_be32_len, lemma_be64_len};
        let mut buf: [u8; MAX_EVENT_SIZE] = [0u8; MAX_EVENT_SIZE];
        buf[0] = self.event_type().to_byte();
        let ghost start = buf@;
        let len: usize = match self {
            ProtoEvent::Enter(pos) => {
                buf[1] = pos.to_byte();
                2
            },
            ProtoEvent::Leave(serial) => {
                put_u32(&mut buf, 1, serial);
                5
            },
            ProtoEvent::Ack(serial) => {
                put_u32(&mut buf, 1, serial);
                5
            },
            ProtoEvent::Input(InputEvent::Pointer(p)) => match p {
                PointerEvent::Motion { time, dx, dy } => {
                    put_u32(&mut buf, 1, time);
                    put_u64(&mut buf, 5, dx);
                    put_u64(&mut buf, 13, dy);
                    21
                },
                PointerEvent::Button { time, button, state } => {
                    put_u32(&mut buf, 1, time);
                    put_u32(&mut buf, 5, button);
                    put_u32(&mut buf, 9, state);
                    13
                },
                PointerEvent::Axis { time, axis, value } => {
                    put_u32(&mut buf, 1, time);
                    buf[5] = axis;
                    put_u64(&mut buf, 6, value);
                    14
                },
                PointerEvent::AxisDiscrete120 { axis, value } => {
                    buf[1] = axis;
                    put_u32(&mut buf, 2, value);
                    6
                },
            },
            ProtoEvent::Input(InputEvent::Keyboard(k)) => match k {
                KeyboardEvent::Key { time, key, state } => {
                    put_u32(&mut buf, 1, time);
                    put_u32(&mut buf, 5, key);
                    buf[9] = state;
                    10
                },
                KeyboardEvent::Modifiers { depressed, latched, locked, group } => {
                    put_u32(&mut buf, 1, depressed);
                    put_u32(&mut buf, 5, latched);
                    put_u32(&mut buf, 9, locked);
                    put_u32(&mut buf, 13, group);
                    17
                },
            },
            ProtoEvent::Ping => 1,
            ProtoEvent::Pong(alive) => {
                buf[1] = if alive { 1 } else { 0 };
                2
            },
            ProtoEvent::Hello { commit } => {
                put_bytes(&mut buf, 1, &commit);
                9
            },
        };
        assert(buf@ =~= padded(event_bytes(self)));
        (buf, len)
    }

    /// Decodes the event in a full-size buffer.
    pub fn decode(buf: &[u8; MAX_EVENT_SIZE]) -> (r: Result<ProtoEvent, ProtocolError>)
        ensures
            r == parse_event(buf@),
    {
        let t = match EventType::from_byte(buf[0]) {
            Some(t) => t,
            None => return Err(ProtocolError::InvalidEventId(buf[0])),
        };
        let s: &[u8] = buf.as_slice();
        let e = match t {
            EventType::PointerMotion => ProtoEvent::Input(
                InputEvent::Pointer(
                    PointerEvent::Motion {
                        time: get_u32(s, 1),
                        dx: get_u64(s, 5),
                        dy: get_u64(s, 13),
                    },
                ),
            ),
            EventType::PointerButton => ProtoEvent::Input(
                InputEvent::Pointer(
                    PointerEvent::Button {
                        time: get_u32(s, 1),
                        button: get_u32(s, 5),
                        state: get_u32(s, 9),
                    },
                ),
            ),
            EventType::PointerAxis => ProtoEvent::Input(
                InputEvent::Pointer(
                    PointerEvent::Axis { time: get_u32(s, 1), axis: s[5], value: get_u64(s, 6) },
                ),
            ),
            EventType::PointerAxisValue120 => ProtoEvent::Input(
                InputEvent::Pointer(
                    PointerEvent::AxisDiscrete120 { axis: s[1], value: get_u32(s, 2) },
                ),
            ),
            EventType::KeyboardKey => ProtoEvent::Input(
                InputEvent::Keyboard(
                    KeyboardEvent::Key { time: get_u32(s, 1), key: get_u32(s, 5), state: s[9] },
                ),
            ),
            EventType::KeyboardModifiers => ProtoEvent::Input(
                InputEvent::Keyboard(
                    KeyboardEvent::Modifiers {
                        depressed: get_u32(s, 1),
                        latched: get_u32(s, 5),
                        locked: get_u32(s, 9),
                        group: get_u32(s, 13),
                    },
                ),
            ),
            EventType::Ping => ProtoEvent::Ping,
            EventType::Pong => ProtoEvent::Pong(s[1] != 0),
            EventType::Enter => match Position::from_byte(s[1]) {
                Some(pos) => ProtoEvent::Enter(pos),
                None => return Err(ProtocolError::InvalidPosition(s[1])),
            },
            EventType::Leave => ProtoEvent::Leave(get_u32(s, 1)),
            EventType::Ack => ProtoEvent::Ack(get_u32(s, 1)),
            EventType::Hello => ProtoEvent::Hello {
                commit: [s[1], s[2], s[3], s[4], s[5], s[6], s[7], s[8]],
            },
            EventType::Audio => return Err(ProtocolError::InvalidEventId(buf[0])),
            EventType::AudioControl => return Err(ProtocolError::InvalidEventId(buf[0])),
            EventType::AudioBatch => return Err(ProtocolError::InvalidEventId(buf[0])),
        };
        Ok(e)
    }
}

} // verus!
