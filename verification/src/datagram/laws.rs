//! What stands on the wire, byte by byte, and what is read back from it.

use super::batch::{
    decode_batch, encode_batch, frame_bytes, frame_error, frame_views, frames_bytes, frames_error,
    lemma_no_frame_error, received_frames, AudioFrame, AudioFrameRef, FrameView, BATCH_HEADER_SIZE,
};
use super::{
    datagram_bytes, decode, encode_into, lemma_decode_encode, AudioControlCmd, Datagram,
    DatagramRef,
};
use crate::proto::{
    event_bytes, lemma_event_roundtrip, EventType, InputEvent, KeyboardEvent, PointerEvent,
    Position, ProtoEvent, ProtocolError,
};
use crate::wire::{
    at16, at32, at64, get_u16, get_u32, get_u64, put_bytes, put_u16, put_u32, put_u64,
};
use vstd::prelude::*;

verus! {

/// The number that `n` bytes from `i` on stand for, the first counting most.
pub open spec fn num(s: Seq<u8>, i: int, n: nat) -> int
    decreases n,
{
    if n == 0 {
        0
    } else {
        num(s, i, (n - 1) as nat) * 256 + s[i + n - 1]
    }
}

/// Numbers are read with the first byte counting most.
pub proof fn lemma_numbers(s: Seq<u8>, i: int)
    ensures
        at16(s, i) == num(s, i, 2),
        at32(s, i) == num(s, i, 4),
        at64(s, i) == num(s, i, 8),
{
    reveal(at32);
    reveal(at64);
    reveal_with_fuel(num, 9);
    assert(at64(s, i) == at32(s, i) * 0x1_0000_0000 + at32(s, i + 4));
}

/// The byte of an edge on the wire.
pub open spec fn edge_byte(pos: Position) -> u8 {
    match pos {
        Position::Left => 0,
        Position::Right => 1,
        Position::Top => 2,
        Position::Bottom => 3,
    }
}

/// Edges and event types have one byte each, and what has none is refused.
pub proof fn lemma_bytes_stand_for_one_thing(
    pos: Position,
    t: EventType,
    b: u8,
    pos_byte: u8,
    type_byte: u8,
    edge: Option<Position>,
    kind: Option<EventType>,
)
    requires
        call_ensures(Position::to_byte, (pos,), pos_byte),
        call_ensures(EventType::to_byte, (t,), type_byte),
        call_ensures(Position::from_byte, (b,), edge),
        call_ensures(EventType::from_byte, (b,), kind),
    ensures
        pos_byte == edge_byte(pos),
        type_byte <= 14,
        edge is Some <==> b <= 3,
        kind is Some <==> b <= 14,
        edge == Some(pos) <==> b == pos_byte,
        kind == Some(t) <==> b == type_byte,
{
}

/// An event on the wire: its type, then its fields, in order and without gaps,
/// then zeros.
pub proof fn lemma_event_on_the_wire(e: ProtoEvent, r: ([u8; 21], usize))
    requires
        call_ensures(ProtoEvent::encode, (e,), r),
    ensures
        ({
            let b = r.0@;
            let n = r.1;
            &&& forall|i: int| n <= i < 21 ==> b[i] == 0
            &&& match e {
                ProtoEvent::Input(InputEvent::Pointer(PointerEvent::Motion { time, dx, dy })) => n
                    == 21 && b[0] == 0 && num(b, 1, 4) == time && num(b, 5, 8) == dx && num(
                    b,
                    13,
                    8,
                ) == dy,
                ProtoEvent::Input(
                    InputEvent::Pointer(PointerEvent::Button { time, button, state }),
                ) => n == 13 && b[0] == 1 && num(b, 1, 4) == time && num(b, 5, 4) == button && num(
                    b,
                    9,
                    4,
                ) == state,
                ProtoEvent::Input(
                    InputEvent::Pointer(PointerEvent::Axis { time, axis, value }),
                ) => n == 14 && b[0] == 2 && num(b, 1, 4) == time && b[5] == axis && num(b, 6, 8)
                    == value,
                ProtoEvent::Input(
                    InputEvent::Pointer(PointerEvent::AxisDiscrete120 { axis, value }),
                ) => n == 6 && b[0] == 3 && b[1] == axis && num(b, 2, 4) == value,
                ProtoEvent::Input(
                    InputEvent::Keyboard(KeyboardEvent::Key { time, key, state }),
                ) => n == 10 && b[0] == 4 && num(b, 1, 4) == time && num(b, 5, 4) == key && b[9]
                    == state,
                ProtoEvent::Input(
                    InputEvent::Keyboard(
                        KeyboardEvent::Modifiers { depressed, latched, locked, group },
                    ),
                ) => n == 17 && b[0] == 5 && num(b, 1, 4) == depressed && num(b, 5, 4) == latched
                    && num(b, 9, 4) == locked && num(b, 13, 4) == group,
                ProtoEvent::Ping => n == 1 && b[0] == 6,
                ProtoEvent::Pong(alive) => n == 2 && b[0] == 7 && b[1] == if alive {
                    1u8
                } else {
                    0u8
                },
                ProtoEvent::Enter(pos) => n == 2 && b[0] == 8 && b[1] == edge_byte(pos),
                ProtoEvent::Leave(serial) => n == 5 && b[0] == 9 && num(b, 1, 4) == serial,
                ProtoEvent::Ack(serial) => n == 5 && b[0] == 10 && num(b, 1, 4) == serial,
                ProtoEvent::Hello { commit } => n == 9 && b[0] == 11 && b.subrange(1, 9)
                    == commit@,
            }
        }),
{
    broadcast use {crate::wire::lemma_be32_len, crate::wire::lemma_be64_len};

    let b = r.0@;
    let w = event_bytes(e);
    assert(w.len() == r.1);
    assert(forall|i: int| 0 <= i < w.len() ==> b[i] == w[i]);
    assert(w.is_prefix_of(b));
    lemma_event_roundtrip(e, b);
    lemma_numbers(b, 1);
    lemma_numbers(b, 2);
    lemma_numbers(b, 5);
    lemma_numbers(b, 6);
    lemma_numbers(b, 9);
    lemma_numbers(b, 13);
    if let ProtoEvent::Hello { commit } = e {
        assert(b.subrange(1, 9) =~= commit@);
    }
}

/// Every event is read back as it was written.
pub proof fn lemma_event_comes_back(
    e: ProtoEvent,
    w: ([u8; 21], usize),
    r: Result<ProtoEvent, ProtocolError>,
)
    requires
        call_ensures(ProtoEvent::encode, (e,), w),
        call_ensures(ProtoEvent::decode, (&w.0,), r),
    ensures
        r == Ok::<ProtoEvent, ProtocolError>(e),
{
    let b = event_bytes(e);
    assert(forall|i: int| 0 <= i < b.len() ==> w.0@[i] == b[i]);
    assert(b.is_prefix_of(w.0@));
    lemma_event_roundtrip(e, w.0@);
}

/// What is no event is refused with the byte that gives it away, and nothing
/// else is refused.
pub proof fn lemma_what_is_no_event(b: &[u8; 21], r: Result<ProtoEvent, ProtocolError>)
    requires
        call_ensures(ProtoEvent::decode, (b,), r),
    ensures
        r == Err::<ProtoEvent, ProtocolError>(ProtocolError::InvalidEventId(b@[0])) <==> b@[0]
            > 11,
        r == Err::<ProtoEvent, ProtocolError>(ProtocolError::InvalidPosition(b@[1])) <==> b@[0] == 8
            && b@[1] > 3,
        r is Err <==> b@[0] > 11 || (b@[0] == 8 && b@[1] > 3),
        b@[0] == 7 ==> r == Ok::<ProtoEvent, ProtocolError>(ProtoEvent::Pong(b@[1] != 0)),
{
}

/// The bytes of a datagram stand at the front of the buffer, and what follows
/// them stays as it was.
pub proof fn lemma_front_is_written(dg: DatagramRef<'_>, out: &mut [u8], n: usize)
    requires
        old(out)@.len() <= usize::MAX,
        call_ensures(encode_into, (dg, out), Ok::<usize, ProtocolError>(n)),
    ensures
        final(out)@.len() == old(out)@.len(),
        n <= final(out)@.len(),
        final(out)@.skip(n as int) == old(out)@.skip(n as int),
        final(out)@.take(n as int) == datagram_bytes(dg),
        dg matches DatagramRef::Event(e) ==> final(out)@.take(n as int) == event_bytes(e),
{
    let b = final(out)@;
    let w = datagram_bytes(dg);
    assert(b =~= w + old(out)@.skip(w.len() as int));
    assert(b.skip(n as int) =~= old(out)@.skip(n as int));
    assert(b.take(n as int) =~= w);
}

/// An audio frame on the wire: type, sequence number, time stamp, length and
/// payload.
pub proof fn lemma_audio_on_the_wire(
    seq: u32,
    ts_ms: u32,
    payload: &[u8],
    out: &mut [u8],
    n: usize,
)
    requires
        old(out)@.len() <= usize::MAX,
        call_ensures(
            encode_into,
            (DatagramRef::Audio { seq, ts_ms, payload }, out),
            Ok::<usize, ProtocolError>(n),
        ),
    ensures
        ({
            let b = final(out)@;
            &&& n == 11 + payload@.len()
            &&& 0 < payload@.len() <= 65535
            &&& b[0] == 12
            &&& num(b, 1, 4) == seq
            &&& num(b, 5, 4) == ts_ms
            &&& num(b, 9, 2) == payload@.len()
            &&& b.subrange(11, n as int) == payload@
        }),
{
    broadcast use crate::wire::lemma_be32_len;

    let b = final(out)@;
    let dg = DatagramRef::Audio { seq, ts_ms, payload };
    let w = datagram_bytes(dg);
    lemma_front_is_written(dg, out, n);
    assert(w[0] == 12);
    assert(b.take(n as int)[0] == b[0]);
    assert(w.is_prefix_of(b)) by {
        assert(b.subrange(0, n as int) =~= b.take(n as int));
    }
    lemma_decode_encode(dg, old(out)@.len() as usize, b);
    lemma_numbers(b, 1);
    lemma_numbers(b, 5);
    lemma_numbers(b, 9);
}

/// A stream command on the wire: type, command, sample rate and channels.
pub proof fn lemma_control_on_the_wire(cmd: AudioControlCmd, out: &mut [u8], n: usize)
    requires
        old(out)@.len() <= usize::MAX,
        call_ensures(
            encode_into,
            (DatagramRef::AudioControl(cmd), out),
            Ok::<usize, ProtocolError>(n),
        ),
    ensures
        n == 7,
        final(out)@[0] == 13,
        match cmd {
            AudioControlCmd::Stop => final(out)@.take(7) == seq![13u8, 0, 0, 0, 0, 0, 0],
            AudioControlCmd::Start { sample_rate, channels } => final(out)@[1] == 1 && num(
                final(out)@,
                2,
                4,
            ) == sample_rate && final(out)@[6] == channels,
        },
{
    broadcast use crate::wire::lemma_be32_len;

    let b = final(out)@;
    let dg = DatagramRef::AudioControl(cmd);
    let w = datagram_bytes(dg);
    lemma_front_is_written(dg, out, n);
    assert(w[0] == 13);
    assert(forall|k: int| 0 <= k < 7 ==> b[k] == b.take(n as int)[k]);
    if cmd is Stop {
        reveal(crate::wire::be32);
        assert(w =~= seq![13u8, 0, 0, 0, 0, 0, 0]);
    } else {
        assert(w.is_prefix_of(b)) by {
            assert(b.subrange(0, n as int) =~= b.take(n as int));
        }
        lemma_decode_encode(dg, old(out)@.len() as usize, b);
        lemma_numbers(b, 2);
    }
}

/// A batch on the wire: type, how many frames there are, and the frames.
pub proof fn lemma_batch_on_the_wire(frames: &[AudioFrameRef<'_>], out: &mut [u8], n: usize)
    requires
        old(out)@.len() <= usize::MAX,
        call_ensures(
            encode_into,
            (DatagramRef::AudioBatch(frames), out),
            Ok::<usize, ProtocolError>(n),
        ),
    ensures
        0 < frames@.len() <= 255,
        n >= 2,
        final(out)@[0] == 14,
        final(out)@[1] == frames@.len(),
        final(out)@.subrange(2, n as int) == frames_bytes(frame_views(frames@)),
{
    let b = final(out)@;
    let dg = DatagramRef::AudioBatch(frames);
    lemma_front_is_written(dg, out, n);
    let w = datagram_bytes(dg);
    assert(forall|k: int| 0 <= k < n ==> b[k] == b.take(n as int)[k]);
    assert(w[0] == 14 && w[1] == frames@.len());
    assert(b.subrange(2, n as int) =~= frames_bytes(frame_views(frames@)));
}

/// A frame of a batch: sequence number, time stamp, length, payload, and the
/// next frame right behind it.
pub proof fn lemma_frames_on_the_wire(frames: Seq<FrameView>)
    requires
        frames.len() > 0,
        0 < frames[0].payload.len() <= 65535,
    ensures
        ({
            let b = frames_bytes(frames);
            let n = 10 + frames[0].payload.len();
            &&& b.len() >= n
            &&& num(b, 0, 4) == frames[0].seq
            &&& num(b, 4, 4) == frames[0].ts_ms
            &&& num(b, 8, 2) == frames[0].payload.len()
            &&& b.subrange(10, n as int) == frames[0].payload
            &&& b.skip(n as int) == frames_bytes(frames.skip(1))
            &&& frames.len() == 1 ==> b.len() == n
        }),
{
    broadcast use crate::wire::lemma_be32_len;

    let b = frames_bytes(frames);
    let f = frames[0];
    let w = frame_bytes(f);
    let n = 10 + f.payload.len();
    assert(w.len() == n);
    assert(b.subrange(0, 4) =~= crate::wire::be32(f.seq));
    assert(b.subrange(4, 8) =~= crate::wire::be32(f.ts_ms));
    assert(b.subrange(8, 10) =~= crate::wire::be16(f.payload.len() as u16));
    crate::wire::lemma_at32_be32(b, 0, f.seq);
    crate::wire::lemma_at32_be32(b, 4, f.ts_ms);
    crate::wire::lemma_at16_be16(b, 8, f.payload.len() as u16);
    lemma_numbers(b, 0);
    lemma_numbers(b, 4);
    lemma_numbers(b, 8);
    assert(b.subrange(10, n as int) =~= f.payload);
    assert(b.skip(n as int) =~= frames_bytes(frames.skip(1)));
    if frames.len() == 1 {
        assert(frames.skip(1).len() == 0);
    }
}

/// The frames that are received carry the numbers and times of those that
/// were sent.
pub proof fn lemma_received(frames: Seq<FrameView>, pos: int, i: int)
    requires
        0 <= i < frames.len(),
    ensures
        received_frames(frames, pos).len() == frames.len(),
        received_frames(frames, pos)[i].seq == frames[i].seq,
        received_frames(frames, pos)[i].ts_ms == frames[i].ts_ms,
    decreases frames.len(),
{
    let end = pos + 10 + frames[0].payload.len();
    let rest = received_frames(frames.skip(1), end);
    if i > 0 {
        lemma_received(frames.skip(1), end, i - 1);
        assert(frames.skip(1)[i - 1] == frames[i]);
        assert(received_frames(frames, pos)[i] == rest[i - 1]);
    } else if frames.len() > 1 {
        lemma_received(frames.skip(1), end, 0);
    } else {
        assert(rest.len() == 0);
    }
}

/// Every datagram is read back as it was written, whatever follows it: the
/// same event or command, or the same audio frames, whose payloads stand where
/// the receiver is told to find them.
pub proof fn lemma_datagram_comes_back(
    dg: DatagramRef<'_>,
    out: &mut [u8],
    n: usize,
    buf: &[u8],
    r: Result<Datagram, ProtocolError>,
    i: int,
)
    requires
        call_ensures(encode_into, (dg, out), Ok::<usize, ProtocolError>(n)),
        n <= buf@.len() <= usize::MAX,
        n <= final(out)@.len(),
        buf@.take(n as int) == final(out)@.take(n as int),
        call_ensures(decode, (buf,), r),
    ensures
        match dg {
            DatagramRef::Event(e) => r matches Ok(Datagram::Event(d)) && d == e,
            DatagramRef::AudioControl(cmd) => r matches Ok(Datagram::AudioControl(d)) && d == cmd,
            DatagramRef::Audio { seq, ts_ms, payload } => r matches Ok(
                Datagram::Audio { seq: s, ts_ms: t, payload_range: p },
            ) && s == seq && t == ts_ms && p.start <= p.end <= buf@.len() && buf@.subrange(
                p.start as int,
                p.end as int,
            ) == payload@,
            DatagramRef::AudioBatch(frames) => r matches Ok(Datagram::AudioBatch(got)) && {
                &&& got@.len() == frames@.len()
                &&& 0 <= i < got@.len() ==> {
                    let p = got@[i].payload_range;
                    &&& got@[i].seq == frames@[i].seq
                    &&& got@[i].ts_ms == frames@[i].ts_ms
                    &&& p.start <= p.end <= buf@.len()
                    &&& buf@.subrange(p.start as int, p.end as int) == frames@[i].payload@
                }
            },
        },
{
    let w = datagram_bytes(dg);
    assert(final(out)@ =~= w + old(out)@.skip(w.len() as int));
    assert(final(out)@.take(n as int) =~= w);
    assert(w.is_prefix_of(buf@)) by {
        assert(w == buf@.take(n as int));
        assert(buf@.subrange(0, w.len() as int) =~= w);
    }
    lemma_decode_encode(dg, old(out)@.len() as usize, buf@);
    if let DatagramRef::AudioBatch(frames) = dg {
        if 0 <= i < frames@.len() {
            lemma_received(frame_views(frames@), BATCH_HEADER_SIZE as int, i);
            assert(frame_views(frames@)[i] == frames@[i]@);
        }
    }
}

/// What can be written is written; the rest is refused with its reason, and
/// leaves the buffer as it was.
pub proof fn lemma_what_can_be_written(
    dg: DatagramRef<'_>,
    out: &mut [u8],
    r: Result<usize, ProtocolError>,
)
    requires
        old(out)@.len() <= usize::MAX,
        call_ensures(encode_into, (dg, out), r),
    ensures
        r is Err ==> final(out)@ == old(out)@,
        dg matches DatagramRef::Audio { payload, .. } ==> r == if payload@.len() == 0 {
            Err(ProtocolError::InvalidAudioLength(0))
        } else if payload@.len() > 65535 {
            Err(ProtocolError::InvalidAudioLength(65535))
        } else if old(out)@.len() < 11 + payload@.len() {
            Err(
                ProtocolError::BufferTooSmall {
                    needed: (11 + payload@.len()) as usize,
                    have: old(out)@.len() as usize,
                },
            )
        } else {
            Ok((11 + payload@.len()) as usize)
        },
        dg is AudioControl ==> r == if old(out)@.len() < 7 {
            Err(ProtocolError::BufferTooSmall { needed: 7, have: old(out)@.len() as usize })
        } else {
            Ok(7usize)
        },
        dg matches DatagramRef::Event(e) ==> (r is Ok <==> event_bytes(e).len() <= old(
            out,
        )@.len()),
        dg matches DatagramRef::AudioBatch(frames) ==> {
            &&& frames@.len() == 0 || frames@.len() > 255 ==> r == Err::<usize, ProtocolError>(
                ProtocolError::InvalidBatchSize(frames@.len() as usize),
            )
            &&& 0 < frames@.len() <= 255 && (forall|i: int|
                0 <= i < frames@.len() ==> 0 < (#[trigger] frames@[i]).payload@.len() <= 65535) ==> (
            r is Ok <==> 2 + frames_bytes(frame_views(frames@)).len() <= old(out)@.len())
            &&& frames@.len() > 0 && frames@[0].payload@.len() == 0 && frames@.len() <= 255 ==> r
                == Err::<usize, ProtocolError>(ProtocolError::InvalidAudioLength(0))
        },
{
    broadcast use crate::wire::lemma_be32_len;

    if let DatagramRef::AudioBatch(frames) = dg {
        let v = frame_views(frames@);
        if 0 < frames@.len() <= 255 && (forall|i: int|
            0 <= i < frames@.len() ==> 0 < (#[trigger] frames@[i]).payload@.len() <= 65535) {
            assert forall|i: int| 0 <= i < v.len() implies frame_error(#[trigger] v[i]) is None by {
                assert(v[i] == frames@[i]@);
                assert(0 < frames@[i].payload@.len() <= 65535);
            }
            lemma_no_frame_error(v);
        }
        if frames@.len() > 0 && frames@[0].payload@.len() == 0 {
            assert(v[0] == frames@[0]@);
            lemma_first_error(v);
        }
    }
}

/// A frame that cannot be carried is what is reported where it is the first.
proof fn lemma_first_error(frames: Seq<FrameView>)
    requires
        frames.len() > 0,
        frame_error(frames[0]) is Some,
    ensures
        frames_error(frames) == frame_error(frames[0]),
    decreases frames.len(),
{
    let init = frames.drop_last();
    if init.len() > 0 {
        lemma_first_error(init);
    } else {
        assert(frames_error(init) is None);
        assert(frames.last() == frames[0]);
    }
}

/// What cannot be read is refused with its reason: what is empty, of a kind
/// that is not known, or cut short.
pub proof fn lemma_what_cannot_be_read(buf: &[u8], r: Result<Datagram, ProtocolError>)
    requires
        buf@.len() <= usize::MAX,
        call_ensures(decode, (buf,), r),
    ensures
        ({
            let b = buf@;
            let n = b.len();
            &&& n == 0 ==> r == Err::<Datagram, ProtocolError>(ProtocolError::Truncated(0))
            &&& n > 0 && b[0] > 14 ==> r == Err::<Datagram, ProtocolError>(
                ProtocolError::InvalidEventId(b[0]),
            )
            &&& n > 0 && b[0] == 12 ==> match r {
                Ok(dg) => dg matches Datagram::Audio { seq, ts_ms, payload_range } && n >= 11
                    + num(b, 9, 2) && num(b, 9, 2) > 0 && seq == num(b, 1, 4) && ts_ms == num(
                    b,
                    5,
                    4,
                ) && payload_range.start == 11 && payload_range.end == 11 + num(b, 9, 2),
                Err(e) => if n < 11 {
                    e == ProtocolError::Truncated(n as usize)
                } else if num(b, 9, 2) == 0 {
                    e == ProtocolError::InvalidAudioLength(0)
                } else {
                    n < 11 + num(b, 9, 2) && e == ProtocolError::Truncated(n as usize)
                },
            }
            &&& n > 0 && b[0] == 13 ==> if n < 7 {
                r == Err::<Datagram, ProtocolError>(ProtocolError::Truncated(n as usize))
            } else if b[1] > 1 {
                r == Err::<Datagram, ProtocolError>(ProtocolError::InvalidAudioControlCmd(b[1]))
            } else if b[1] == 0 {
                r == Ok::<Datagram, ProtocolError>(Datagram::AudioControl(AudioControlCmd::Stop))
            } else {
                r matches Ok(
                    Datagram::AudioControl(AudioControlCmd::Start { sample_rate, channels }),
                ) && sample_rate == num(b, 2, 4) && channels == b[6]
            }
            &&& n > 0 && b[0] == 14 && n < 2 ==> r == Err::<Datagram, ProtocolError>(
                ProtocolError::Truncated(1),
            )
            &&& n > 1 && b[0] == 14 && b[1] == 0 ==> r == Err::<Datagram, ProtocolError>(
                ProtocolError::InvalidBatchSize(0),
            )
            &&& n > 0 && b[0] == 6 ==> r == Ok::<Datagram, ProtocolError>(
                Datagram::Event(ProtoEvent::Ping),
            )
            &&& n > 1 && b[0] == 8 && b[1] > 3 ==> r == Err::<Datagram, ProtocolError>(
                ProtocolError::InvalidPosition(b[1]),
            )
        }),
{
    lemma_numbers(buf@, 1);
    lemma_numbers(buf@, 2);
    lemma_numbers(buf@, 5);
    lemma_numbers(buf@, 9);
}

/// Numbers are read with the first byte counting most.
pub proof fn lemma_numbers_are_read(buf: &[u8], i: usize, a: u16, b: u32, c: u64)
    requires
        i + 8 <= buf@.len(),
        call_ensures(get_u16, (buf, i), a),
        call_ensures(get_u32, (buf, i), b),
        call_ensures(get_u64, (buf, i), c),
    ensures
        a == num(buf@, i as int, 2),
        b == num(buf@, i as int, 4),
        c == num(buf@, i as int, 8),
{
    lemma_numbers(buf@, i as int);
}

/// Bytes are written where they are to stand, and nowhere else.
pub proof fn lemma_bytes_are_written(out: &mut [u8], i: usize, t: &[u8], j: int)
    requires
        i + t@.len() <= old(out)@.len(),
        call_ensures(put_bytes, (out, i, t), ()),
    ensures
        final(out)@.len() == old(out)@.len(),
        i <= j < i + t@.len() ==> final(out)@[j] == t@[j - i],
        0 <= j < i || i + t@.len() <= j < old(out)@.len() ==> final(out)@[j] == old(out)@[j],
{
}

/// A 16-bit number is written in two bytes, and read back.
pub proof fn lemma_u16_is_written(out: &mut [u8], i: usize, v: u16, j: int)
    requires
        i + 2 <= old(out)@.len(),
        call_ensures(put_u16, (out, i, v), ()),
    ensures
        final(out)@.len() == old(out)@.len(),
        num(final(out)@, i as int, 2) == v,
        0 <= j < i || i + 2 <= j < old(out)@.len() ==> final(out)@[j] == old(out)@[j],
{
    let b = final(out)@;
    let k = i as int;
    assert(b.subrange(k, k + 2) =~= crate::wire::be16(v));
    crate::wire::lemma_at16_be16(b, k, v);
    lemma_numbers(b, k);
}

/// A 32-bit number is written in four bytes, and read back.
pub proof fn lemma_u32_is_written(out: &mut [u8], i: usize, v: u32, j: int)
    requires
        i + 4 <= old(out)@.len(),
        call_ensures(put_u32, (out, i, v), ()),
    ensures
        final(out)@.len() == old(out)@.len(),
        num(final(out)@, i as int, 4) == v,
        0 <= j < i || i + 4 <= j < old(out)@.len() ==> final(out)@[j] == old(out)@[j],
{
    broadcast use crate::wire::lemma_be32_len;

    let b = final(out)@;
    let k = i as int;
    assert(b.subrange(k, k + 4) =~= crate::wire::be32(v));
    crate::wire::lemma_at32_be32(b, k, v);
    lemma_numbers(b, k);
}

/// A 64-bit number is written in eight bytes, and read back.
pub proof fn lemma_u64_is_written(out: &mut [u8], i: usize, v: u64, j: int)
    requires
        i + 8 <= old(out)@.len(),
        call_ensures(put_u64, (out, i, v), ()),
    ensures
        final(out)@.len() == old(out)@.len(),
        num(final(out)@, i as int, 8) == v,
        0 <= j < i || i + 8 <= j < old(out)@.len() ==> final(out)@[j] == old(out)@[j],
{
    broadcast use crate::wire::lemma_be64_len;

    let b = final(out)@;
    let k = i as int;
    assert(b.subrange(k, k + 8) =~= crate::wire::be64(v));
    crate::wire::lemma_at64_be64(b, k, v);
    lemma_numbers(b, k);
}

/// The type of an event is that of its first byte.
pub proof fn lemma_event_types(e: ProtoEvent, t: EventType, b: u8, r: ([u8; 21], usize))
    requires
        call_ensures(ProtoEvent::event_type, (e,), t),
        call_ensures(EventType::to_byte, (t,), b),
        call_ensures(ProtoEvent::encode, (e,), r),
    ensures
        r.0@[0] == b,
        e is Ping ==> t == EventType::Ping,
        e is Pong ==> t == EventType::Pong,
        e is Enter ==> t == EventType::Enter,
        e is Leave ==> t == EventType::Leave,
        e is Ack ==> t == EventType::Ack,
        e is Hello ==> t == EventType::Hello,
        e matches ProtoEvent::Input(InputEvent::Keyboard(KeyboardEvent::Key { .. })) ==> t
            == EventType::KeyboardKey,
{
    assert(event_bytes(e)[0] == r.0@[0]);
}

/// A batch of its own is written and read as it is in a datagram.
pub proof fn lemma_batches_alone(
    frames: &[AudioFrameRef<'_>],
    out: &mut [u8],
    r: Result<usize, ProtocolError>,
    same: &mut [u8],
    q: Result<usize, ProtocolError>,
    buf: &[u8],
    got: Result<Vec<AudioFrame>, ProtocolError>,
    dg: Result<Datagram, ProtocolError>,
)
    requires
        old(out)@ == old(same)@,
        call_ensures(encode_batch, (frames, out), r),
        call_ensures(encode_into, (DatagramRef::AudioBatch(frames), same), q),
        buf@.len() > 0,
        buf@[0] == 14,
        call_ensures(decode_batch, (buf,), got),
        call_ensures(decode, (buf,), dg),
    ensures
        r == q,
        final(out)@ == final(same)@,
        got is Ok <==> dg is Ok,
        got is Err ==> dg is Err && dg->Err_0 == got->Err_0,
        got is Ok ==> (dg matches Ok(Datagram::AudioBatch(f)) && f@ == got->Ok_0@),
{
}

/// Of a batch with frames that cannot be carried, the first of them is what is
/// reported, and nothing is written.
pub proof fn lemma_bad_frames_are_reported(
    frames: &[AudioFrameRef<'_>],
    out: &mut [u8],
    r: Result<usize, ProtocolError>,
    i: int,
)
    requires
        0 <= i < frames@.len() <= 255,
        frames@[i].payload@.len() == 0 || frames@[i].payload@.len() > 65535,
        forall|j: int| 0 <= j < i ==> 0 < (#[trigger] frames@[j]).payload@.len() <= 65535,
        call_ensures(encode_into, (DatagramRef::AudioBatch(frames), out), r),
    ensures
        final(out)@ == old(out)@,
        r == Err::<usize, ProtocolError>(
            ProtocolError::InvalidAudioLength(
                if frames@[i].payload@.len() == 0 {
                    0
                } else {
                    65535
                },
            ),
        ),
{
    let v = frame_views(frames@);
    assert(v[i] == frames@[i]@);
    assert forall|j: int| 0 <= j < i implies frame_error(#[trigger] v[j]) is None by {
        assert(0 < frames@[j].payload@.len() <= 65535);
        assert(v[j] == frames@[j]@);
    }
    lemma_first_bad(v, i);
}

/// The first frame that cannot be carried is what is reported.
proof fn lemma_first_bad(frames: Seq<FrameView>, i: int)
    requires
        0 <= i < frames.len(),
        frame_error(frames[i]) is Some,
        forall|j: int| 0 <= j < i ==> frame_error(#[trigger] frames[j]) is None,
    ensures
        frames_error(frames) == frame_error(frames[i]),
    decreases frames.len(),
{
    let init = frames.drop_last();
    if i < init.len() {
        assert(init[i] == frames[i]);
        assert forall|j: int| 0 <= j < i implies frame_error(#[trigger] init[j]) is None by {
            assert(init[j] == frames[j]);
        }
        lemma_first_bad(init, i);
    } else {
        assert forall|j: int| 0 <= j < init.len() implies frame_error(#[trigger] init[j]) is None by {
            assert(init[j] == frames[j]);
        }
        lemma_no_frame_error(init);
    }
}

/// A batch whose first frame is cut short, or empty, cannot be read.
pub proof fn lemma_batches_that_cannot_be_read(buf: &[u8], r: Result<Datagram, ProtocolError>)
    requires
        1 < buf@.len() <= usize::MAX,
        buf@[0] == 14,
        buf@[1] > 0,
        call_ensures(decode, (buf,), r),
    ensures
        ({
            let b = buf@;
            let n = b.len();
            &&& n < 12 ==> r == Err::<Datagram, ProtocolError>(ProtocolError::Truncated(n as usize))
            &&& n >= 12 && num(b, 10, 2) == 0 ==> r == Err::<Datagram, ProtocolError>(
                ProtocolError::InvalidAudioLength(0),
            )
            &&& n >= 12 && num(b, 10, 2) > 0 && n < 12 + num(b, 10, 2) ==> r == Err::<
                Datagram,
                ProtocolError,
            >(ProtocolError::Truncated(n as usize))
            &&& n >= 12 && b[1] == 1 && num(b, 10, 2) > 0 && n >= 12 + num(b, 10, 2) ==> (r matches
                Ok(Datagram::AudioBatch(f)) && f@.len() == 1 && f@[0].seq == num(b, 2, 4)
                && f@[0].ts_ms == num(b, 6, 4) && f@[0].payload_range.start == 12
                && f@[0].payload_range.end == 12 + num(b, 10, 2))
        }),
{
    let b = buf@;
    lemma_numbers(b, 2);
    lemma_numbers(b, 6);
    lemma_numbers(b, 10);
    reveal_with_fuel(super::batch::parse_frames, 3);
    if b.len() >= 12 && b[1] == 1 && num(b, 10, 2) > 0 && b.len() >= 12 + num(b, 10, 2) {
        let f = super::batch::parse_frame(b, 2)->Ok_0;
        assert(seq![f] + seq![] =~= seq![f]);
    }
}

} // verus!
