//! Variable-length datagrams that travel alongside the fixed-size
//! [`ProtoEvent`]s on the same connection.
//!
//! The first byte of every datagram is an [`EventType`]. Event types keep
//! their fixed-size wire format and are decoded into [`Datagram::Event`].
//! `Audio`, `AudioBatch` and `AudioControl` are decoded without copying the
//! payload: the caller receives a range into its own receive buffer.

pub mod batch;
pub mod laws;

use self::batch::{batch_bytes, batch_error, decode_batch, encode_batch, frame_views, parse_batch};
use self::batch::{holds_payload, received_frames, AudioFrame, AudioFrameRef, BATCH_HEADER_SIZE};
use crate::proto::{byte_type, event_bytes, padded, parse_event, type_byte};
use crate::proto::{lemma_event_roundtrip, lemma_type_byte_roundtrip};
use crate::proto::{EventType, ProtoEvent, ProtocolError, MAX_EVENT_SIZE};
use crate::wire::{at16, at32, be16, be32, get_u16, get_u32, put_bytes, put_u16, put_u32, splice};
use crate::wire::{lemma_at16_be16, lemma_at32_be32, lemma_be32_len};
use std::ops::Range;
use vstd::prelude::*;

verus! {

/// Conservative upper bound for a single datagram, MTU minus DTLS/UDP/IP
/// overhead. Audio frames must stay below this.
pub const MAX_DATAGRAM_SIZE: usize = 1200;

/// Size of the audio header: type, sequence number, time stamp, length.
pub const AUDIO_HEADER_SIZE: usize = 11;

/// Size of an audio control datagram: type, command, sample rate, channels.
pub const AUDIO_CONTROL_SIZE: usize = 7;

/// Audio stream control, sent by the sending side before the first audio
/// frame and when the stream stops.
#[derive(Clone, Copy, Debug, PartialEq, Eq, Structural)]
pub enum AudioControlCmd {
    /// stop the stream; the receiver should drop its audio state
    Stop,
    /// start a stream with the given format
    Start { sample_rate: u32, channels: u8 },
}

/// A decoded datagram. Borrows nothing: the payload of an audio frame is
/// referenced by range into the caller's buffer.
#[derive(Debug)]
pub enum Datagram {
    /// fixed-size control or input event
    Event(ProtoEvent),
    /// audio frame
    Audio {
        /// wrapping sequence number; detects loss and reordering
        seq: u32,
        /// sender time stamp in milliseconds, for latency estimation
        ts_ms: u32,
        /// range of the payload within the decoded buffer
        payload_range: Range<usize>,
    },
    /// several audio frames, in the order they were sent
    AudioBatch(Vec<AudioFrame>),
    /// audio stream control
    AudioControl(AudioControlCmd),
}

/// A decoded datagram, as a value.
pub enum DatagramView {
    Event(ProtoEvent),
    Audio { seq: u32, ts_ms: u32, payload_range: Range<usize> },
    AudioBatch(Seq<AudioFrame>),
    AudioControl(AudioControlCmd),
}

impl View for Datagram {
    type V = DatagramView;

    open spec fn view(&self) -> DatagramView {
        match *self {
            Datagram::Event(e) => DatagramView::Event(e),
            Datagram::Audio { seq, ts_ms, payload_range } => DatagramView::Audio {
                seq,
                ts_ms,
                payload_range,
            },
            Datagram::AudioBatch(frames) => DatagramView::AudioBatch(frames@),
            Datagram::AudioControl(cmd) => DatagramView::AudioControl(cmd),
        }
    }
}

/// What came of decoding, as a value.
pub open spec fn decoded(r: Result<Datagram, ProtocolError>) -> Result<
    DatagramView,
    ProtocolError,
> {
    match r {
        Ok(dg) => Ok(dg@),
        Err(e) => Err(e),
    }
}

/// A copy of decoded frames.
fn clone_frames(frames: &Vec<AudioFrame>) -> (r: Vec<AudioFrame>)
    ensures
        r@ == frames@,
{
    let mut r: Vec<AudioFrame> = Vec::new();
    let mut i: usize = 0;
    while i < frames.len()
        invariant
            i <= frames@.len(),
            r@ =~= frames@.take(i as int),
        decreases frames@.len() - i,
    {
        r.push(frames[i].clone());
        i = i + 1;
    }
    assert(frames@.take(i as int) =~= frames@);
    r
}

impl Clone for Datagram {
    fn clone(&self) -> (r: Self)
        ensures
            r@ == self@,
    {
        match self {
            Datagram::Event(e) => Datagram::Event(*e),
            Datagram::Audio { seq, ts_ms, payload_range } => Datagram::Audio {
                seq: *seq,
                ts_ms: *ts_ms,
                payload_range: Range { start: payload_range.start, end: payload_range.end },
            },
            Datagram::AudioBatch(frames) => Datagram::AudioBatch(clone_frames(frames)),
            Datagram::AudioControl(cmd) => Datagram::AudioControl(*cmd),
        }
    }
}

/// Encoding counterpart of [`Datagram`]: audio payloads are passed by slice
/// so that encoding never allocates.
#[derive(Clone, Copy, Debug)]
pub enum DatagramRef<'a> {
    /// fixed-size control or input event
    Event(ProtoEvent),
    /// audio frame
    Audio {
        /// wrapping sequence number
        seq: u32,
        /// sender time stamp in milliseconds
        ts_ms: u32,
        /// payload; must fit [`MAX_DATAGRAM_SIZE`]
        payload: &'a [u8],
    },
    /// several audio frames
    AudioBatch(&'a [AudioFrameRef<'a>]),
    /// audio stream control
    AudioControl(AudioControlCmd),
}

/// The wire bytes of a datagram.
pub open spec fn datagram_bytes(dg: DatagramRef<'_>) -> Seq<u8> {
    match dg {
        DatagramRef::Event(e) => event_bytes(e),
        DatagramRef::Audio { seq, ts_ms, payload } => seq![type_byte(EventType::Audio)] + be32(seq)
            + be32(ts_ms) + be16(payload@.len() as u16) + payload@,
        DatagramRef::AudioBatch(frames) => batch_bytes(frame_views(frames@)),
        DatagramRef::AudioControl(AudioControlCmd::Stop) => seq![
            type_byte(EventType::AudioControl),
            0u8,
        ] + be32(0) + seq![0u8],
        DatagramRef::AudioControl(AudioControlCmd::Start { sample_rate, channels }) => seq![
            type_byte(EventType::AudioControl),
            1u8,
        ] + be32(sample_rate) + seq![channels],
    }
}

/// Why a datagram cannot be encoded into `have` bytes, if it cannot. A
/// payload that no datagram can carry is reported before a short buffer.
pub open spec fn encode_error(dg: DatagramRef<'_>, have: usize) -> Option<ProtocolError> {
    let too_small = if have < datagram_bytes(dg).len() {
        Some(
            ProtocolError::BufferTooSmall { needed: datagram_bytes(dg).len() as usize, have },
        )
    } else {
        None
    };
    match dg {
        DatagramRef::Audio { seq, ts_ms, payload } => if payload@.len() == 0 {
            Some(ProtocolError::InvalidAudioLength(0))
        } else if payload@.len() > u16::MAX {
            Some(ProtocolError::InvalidAudioLength(u16::MAX))
        } else {
            too_small
        },
        DatagramRef::AudioBatch(frames) => batch_error(frame_views(frames@), have),
        _ => too_small,
    }
}

/// The datagram in a received buffer, or why there is none.
pub open spec fn parse_datagram(s: Seq<u8>) -> Result<DatagramView, ProtocolError> {
    if s.len() == 0 {
        Err(ProtocolError::Truncated(0))
    } else {
        match byte_type(s[0]) {
            None => Err(ProtocolError::InvalidEventId(s[0])),
            Some(EventType::Audio) => parse_audio(s),
            Some(EventType::AudioBatch) => match parse_batch(s) {
                Ok(frames) => Ok(DatagramView::AudioBatch(frames)),
                Err(e) => Err(e),
            },
            Some(EventType::AudioControl) => parse_audio_control(s),
            Some(_) => match parse_event(padded(s)) {
                Ok(e) => Ok(DatagramView::Event(e)),
                Err(e) => Err(e),
            },
        }
    }
}

/// The audio frame in a received buffer: a header whose length field is not
/// zero, followed by at least that many bytes.
pub open spec fn parse_audio(s: Seq<u8>) -> Result<DatagramView, ProtocolError> {
    if s.len() < AUDIO_HEADER_SIZE {
        Err(ProtocolError::Truncated(s.len() as usize))
    } else if at16(s, 9) == 0 {
        Err(ProtocolError::InvalidAudioLength(0))
    } else if s.len() < AUDIO_HEADER_SIZE + at16(s, 9) {
        Err(ProtocolError::Truncated(s.len() as usize))
    } else {
        Ok(
            DatagramView::Audio {
                seq: at32(s, 1),
                ts_ms: at32(s, 5),
                payload_range: Range {
                    start: AUDIO_HEADER_SIZE,
                    end: (AUDIO_HEADER_SIZE + at16(s, 9)) as usize,
                },
            },
        )
    }
}

/// The stream command in a received buffer.
pub open spec fn parse_audio_control(s: Seq<u8>) -> Result<DatagramView, ProtocolError> {
    if s.len() < AUDIO_CONTROL_SIZE {
        Err(ProtocolError::Truncated(s.len() as usize))
    } else if s[1] == 0 {
        Ok(DatagramView::AudioControl(AudioControlCmd::Stop))
    } else if s[1] == 1 {
        Ok(
            DatagramView::AudioControl(
                AudioControlCmd::Start { sample_rate: at32(s, 2), channels: s[6] },
            ),
        )
    } else {
        Err(ProtocolError::InvalidAudioControlCmd(s[1]))
    }
}

/// Decodes a datagram, dispatching on the first byte. Unknown event types
/// yield [`ProtocolError::InvalidEventId`], which read loops treat as
/// "skip"; this keeps the protocol open to peers running newer versions.
/// An event shorter than its fields reads the missing bytes as zero.
pub fn decode(buf: &[u8]) -> (r: Result<Datagram, ProtocolError>)
    ensures
        decoded(r) == parse_datagram(buf@),
{
    let n: usize = buf.len();
    if n == 0 {
        return Err(ProtocolError::Truncated(0));
    }
    match EventType::from_byte(buf[0]) {
        None => Err(ProtocolError::InvalidEventId(buf[0])),
        Some(EventType::Audio) => {
            if n < AUDIO_HEADER_SIZE {
                return Err(ProtocolError::Truncated(n));
            }
            let seq: u32 = get_u32(buf, 1);
            let ts_ms: u32 = get_u32(buf, 5);
            let len: u16 = get_u16(buf, 9);
            if len == 0 {
                return Err(ProtocolError::InvalidAudioLength(len));
            }
            let end: usize = AUDIO_HEADER_SIZE + len as usize;
            if n < end {
                return Err(ProtocolError::Truncated(n));
            }
            Ok(
                Datagram::Audio {
                    seq,
                    ts_ms,
                    payload_range: Range { start: AUDIO_HEADER_SIZE, end },
                },
            )
        },
        Some(EventType::AudioBatch) => match decode_batch(buf) {
            Ok(frames) => Ok(Datagram::AudioBatch(frames)),
            Err(e) => Err(e),
        },
        Some(EventType::AudioControl) => {
            if n < AUDIO_CONTROL_SIZE {
                return Err(ProtocolError::Truncated(n));
            }
            match buf[1] {
                0 => Ok(Datagram::AudioControl(AudioControlCmd::Stop)),
                1 => Ok(
                    Datagram::AudioControl(
                        AudioControlCmd::Start { sample_rate: get_u32(buf, 2), channels: buf[6] },
                    ),
                ),
                cmd => Err(ProtocolError::InvalidAudioControlCmd(cmd)),
            }
        },
        Some(_) => {
            let mut fixed: [u8; MAX_EVENT_SIZE] = [0u8; MAX_EVENT_SIZE];
            let m: usize = if n < MAX_EVENT_SIZE { n } else { MAX_EVENT_SIZE };
            put_bytes(&mut fixed, 0, &buf[0..m]);
            assert(fixed@ =~= padded(buf@));
            match ProtoEvent::decode(&fixed) {
                Ok(e) => Ok(Datagram::Event(e)),
                Err(e) => Err(e),
            }
        },
    }
}

/// Writes `dg` at the front of `out`, without allocating, and returns the
/// number of bytes written. On an error `out` is left as it was.
pub fn encode_into(dg: DatagramRef<'_>, out: &mut [u8]) -> (r: Result<usize, ProtocolError>)
    ensures
        match r {
            Ok(n) => encode_error(dg, old(out)@.len() as usize) is None && n == datagram_bytes(
                dg,
            ).len() && final(out)@ == splice(old(out)@, 0, datagram_bytes(dg)),
            Err(e) => encode_error(dg, old(out)@.len() as usize) == Some(e) && final(out)@ == old(
                out,
            )@,
        },
{
    broadcast use lemma_be32_len;
    let have: usize = out.len();
    match dg {
        DatagramRef::Event(event) => {
            let (buf, len) = event.encode();
            if have < len {
                return Err(ProtocolError::BufferTooSmall { needed: len, have });
            }
            let bytes: &[u8] = buf.as_slice();
            put_bytes(out, 0, &bytes[0..len]);
            assert(bytes@.subrange(0, len as int) =~= event_bytes(event));
            Ok(len)
        },
        DatagramRef::Audio { seq, ts_ms, payload } => {
            if payload.len() == 0 {
                return Err(ProtocolError::InvalidAudioLength(0));
            }
            if payload.len() > u16::MAX as usize {
                return Err(ProtocolError::InvalidAudioLength(u16::MAX));
            }
            let needed: usize = AUDIO_HEADER_SIZE + payload.len();
            if have < needed {
                return Err(ProtocolError::BufferTooSmall { needed, have });
            }
            out[0] = EventType::Audio.to_byte();
            put_u32(out, 1, seq);
            put_u32(out, 5, ts_ms);
            put_u16(out, 9, payload.len() as u16);
            put_bytes(out, AUDIO_HEADER_SIZE, payload);
            assert(out@ =~= splice(old(out)@, 0, datagram_bytes(dg)));
            Ok(needed)
        },
        DatagramRef::AudioBatch(frames) => encode_batch(frames, out),
        DatagramRef::AudioControl(cmd) => {
            if have < AUDIO_CONTROL_SIZE {
                return Err(ProtocolError::BufferTooSmall { needed: AUDIO_CONTROL_SIZE, have });
            }
            out[0] = EventType::AudioControl.to_byte();
            match cmd {
                AudioControlCmd::Stop => {
                    out[1] = 0;
                    put_u32(out, 2, 0);
                    out[6] = 0;
                },
                AudioControlCmd::Start { sample_rate, channels } => {
                    out[1] = 1;
                    put_u32(out, 2, sample_rate);
                    out[6] = channels;
                },
            }
            assert(out@ =~= splice(old(out)@, 0, datagram_bytes(dg)));
            Ok(AUDIO_CONTROL_SIZE)
        },
    }
}

/// What the receiver of `dg` decodes: the same event or command, or the same
/// sequence number and time stamp with the range of the payload.
pub open spec fn received(dg: DatagramRef<'_>) -> DatagramView {
    match dg {
        DatagramRef::Event(e) => DatagramView::Event(e),
        DatagramRef::Audio { seq, ts_ms, payload } => DatagramView::Audio {
            seq,
            ts_ms,
            payload_range: Range {
                start: AUDIO_HEADER_SIZE,
                end: (AUDIO_HEADER_SIZE + payload@.len()) as usize,
            },
        },
        DatagramRef::AudioBatch(frames) => DatagramView::AudioBatch(
            received_frames(frame_views(frames@), BATCH_HEADER_SIZE as int),
        ),
        DatagramRef::AudioControl(cmd) => DatagramView::AudioControl(cmd),
    }
}

/// Whatever was encoded is decoded as the same datagram, also where other
/// bytes follow it, and the range of every audio frame holds its payload.
pub proof fn lemma_decode_encode(dg: DatagramRef<'_>, have: usize, s: Seq<u8>)
    requires
        encode_error(dg, have) is None,
        datagram_bytes(dg).is_prefix_of(s),
        dg is AudioBatch ==> s.len() <= usize::MAX,
    ensures
        parse_datagram(s) == Ok::<DatagramView, ProtocolError>(received(dg)),
        dg matches DatagramRef::Audio { payload, .. } ==> s.subrange(
            AUDIO_HEADER_SIZE as int,
            AUDIO_HEADER_SIZE + payload@.len(),
        ) == payload@,
        dg matches DatagramRef::AudioBatch(frames) ==> {
            let got = received_frames(frame_views(frames@), BATCH_HEADER_SIZE as int);
            &&& got.len() == frames@.len()
            &&& forall|i: int|
                0 <= i < got.len() ==> holds_payload(s, #[trigger] got[i], frames@[i]@)
        },
{
    broadcast use lemma_be32_len;
    let b = datagram_bytes(dg);
    assert(forall|i: int| 0 <= i < b.len() ==> s[i] == b[i]);
    match dg {
        DatagramRef::Event(e) => {
            lemma_type_byte_roundtrip(crate::proto::event_type(e));
            assert(event_bytes(e).is_prefix_of(padded(s))) by {
                event_fits(e);
                assert(event_bytes(e) =~= padded(s).take(event_bytes(e).len() as int));
            }
            lemma_event_roundtrip(e, padded(s));
        },
        DatagramRef::Audio { seq, ts_ms, payload } => {
            assert(s.subrange(1, 5) =~= be32(seq));
            assert(s.subrange(5, 9) =~= be32(ts_ms));
            assert(s.subrange(9, 11) =~= be16(payload@.len() as u16));
            lemma_at32_be32(s, 1, seq);
            lemma_at32_be32(s, 5, ts_ms);
            lemma_at16_be16(s, 9, payload@.len() as u16);
            assert(s.subrange(11, 11 + payload@.len() as int) =~= payload@);
        },
        DatagramRef::AudioBatch(frames) => {
            self::batch::lemma_batch_roundtrip(frame_views(frames@), have, s);
        },
        DatagramRef::AudioControl(AudioControlCmd::Stop) => {},
        DatagramRef::AudioControl(AudioControlCmd::Start { sample_rate, channels }) => {
            assert(s.subrange(2, 6) =~= be32(sample_rate));
            lemma_at32_be32(s, 2, sample_rate);
            assert(b[6] == channels);
        },
    }
}

/// An event takes at most [`MAX_EVENT_SIZE`] bytes.
proof fn event_fits(e: ProtoEvent)
    ensures
        1 <= event_bytes(e).len() <= MAX_EVENT_SIZE,
{
    broadcast use {lemma_be32_len, crate::wire::lemma_be64_len};
}

/// An audio frame, a batch or a stream command that lost bytes at its end is reported
/// as truncated, with the length that arrived, wherever it was cut.
pub proof fn lemma_cut_datagram_is_truncated(dg: DatagramRef<'_>, have: usize, cut: int)
    requires
        encode_error(dg, have) is None,
        !(dg is Event),
        0 <= cut < datagram_bytes(dg).len(),
    ensures
        parse_datagram(datagram_bytes(dg).take(cut)) == Err::<DatagramView, ProtocolError>(
            ProtocolError::Truncated(cut as usize),
        ),
{
    broadcast use lemma_be32_len;
    let b = datagram_bytes(dg);
    let s = b.take(cut);
    if cut > 0 {
        assert(s[0] == b[0]);
        if let DatagramRef::AudioBatch(frames) = dg {
            self::batch::lemma_cut_batch_is_truncated(frame_views(frames@), have, cut);
        }
        if let DatagramRef::Audio { seq, ts_ms, payload } = dg {
            if cut >= AUDIO_HEADER_SIZE {
                assert(s.subrange(9, 11) =~= be16(payload@.len() as u16));
                lemma_at16_be16(s, 9, payload@.len() as u16);
            }
        }
    }
}

/// A datagram whose first byte names no event type is refused with that byte,
/// whatever follows it.
pub proof fn lemma_unknown_type_is_refused(s: Seq<u8>)
    requires
        s.len() > 0,
        forall|t: EventType| type_byte(t) != s[0],
    ensures
        parse_datagram(s) == Err::<DatagramView, ProtocolError>(ProtocolError::InvalidEventId(s[0])),
{
    if let Some(t) = byte_type(s[0]) {
        assert(type_byte(t) == s[0]);
    }
}

/// Bytes missing at the end of an event read as zero: an event datagram
/// decodes as it would with zeros appended.
pub proof fn lemma_short_event_reads_zeros(s: Seq<u8>, n: nat)
    requires
        s.len() > 0,
        byte_type(s[0]) is Some,
        byte_type(s[0]) != Some(EventType::Audio),
        byte_type(s[0]) != Some(EventType::AudioControl),
        byte_type(s[0]) != Some(EventType::AudioBatch),
    ensures
        parse_datagram(s) == parse_datagram(s + Seq::new(n, |i: int| 0u8)),
{
    assert(padded(s) =~= padded(s + Seq::new(n, |i: int| 0u8)));
}

} // verus!
