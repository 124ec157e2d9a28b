//! Several audio frames in one datagram.
//!
//! After the event type stands the number of frames, in one byte, and then
//! each frame: sequence number, time stamp, length and payload. Sending is
//! expensive, so frames that wait are sent together.

use crate::proto::{type_byte, EventType, ProtocolError};
use crate::wire::{at16, at32, be16, be32, get_u16, get_u32, put_bytes, put_u16, put_u32, splice};
use crate::wire::{lemma_at16_be16, lemma_at32_be32, lemma_be32_len};
use std::ops::Range;
use vstd::prelude::*;

verus! {

/// Size of a batch's header: type and number of frames.
pub const BATCH_HEADER_SIZE: usize = 2;

/// Size of the header of a frame in a batch: sequence number, time stamp,
/// length.
pub const FRAME_HEADER_SIZE: usize = 10;

/// The most frames that a batch can count.
pub const MAX_BATCH: usize = 255;

/// A frame of a decoded batch.
#[derive(Debug)]
pub struct AudioFrame {
    /// wrapping sequence number; detects loss and reordering
    pub seq: u32,
    /// sender time stamp in milliseconds, for latency estimation
    pub ts_ms: u32,
    /// range of the payload within the decoded buffer
    pub payload_range: Range<usize>,
}

impl Clone for AudioFrame {
    fn clone(&self) -> (r: Self)
        ensures
            r == *self,
    {
        AudioFrame {
            seq: self.seq,
            ts_ms: self.ts_ms,
            payload_range: Range { start: self.payload_range.start, end: self.payload_range.end },
        }
    }
}

/// A frame to be encoded in a batch.
#[derive(Clone, Copy, Debug)]
pub struct AudioFrameRef<'a> {
    /// wrapping sequence number
    pub seq: u32,
    /// sender time stamp in milliseconds
    pub ts_ms: u32,
    /// payload
    pub payload: &'a [u8],
}

/// A frame, as a value.
pub struct FrameView {
    pub seq: u32,
    pub ts_ms: u32,
    pub payload: Seq<u8>,
}

impl<'a> View for AudioFrameRef<'a> {
    type V = FrameView;

    open spec fn view(&self) -> FrameView {
        FrameView { seq: self.seq, ts_ms: self.ts_ms, payload: self.payload@ }
    }
}

/// Frames, as values.
pub open spec fn frame_views(frames: Seq<AudioFrameRef<'_>>) -> Seq<FrameView> {
    frames.map_values(|f: AudioFrameRef<'_>| f@)
}

/// The bytes of a frame, without an event type.
pub open spec fn frame_bytes(f: FrameView) -> Seq<u8> {
    be32(f.seq) + be32(f.ts_ms) + be16(f.payload.len() as u16) + f.payload
}

/// The bytes of frames, one after the other.
pub open spec fn frames_bytes(frames: Seq<FrameView>) -> Seq<u8>
    decreases frames.len(),
{
    if frames.len() == 0 {
        seq![]
    } else {
        frame_bytes(frames[0]) + frames_bytes(frames.skip(1))
    }
}

/// The wire bytes of a batch.
pub open spec fn batch_bytes(frames: Seq<FrameView>) -> Seq<u8> {
    seq![type_byte(EventType::AudioBatch), frames.len() as u8] + frames_bytes(frames)
}

/// Why a frame cannot be carried, if it cannot.
pub open spec fn frame_error(f: FrameView) -> Option<ProtocolError> {
    if f.payload.len() == 0 {
        Some(ProtocolError::InvalidAudioLength(0))
    } else if f.payload.len() > u16::MAX {
        Some(ProtocolError::InvalidAudioLength(u16::MAX))
    } else {
        None
    }
}

/// Why the first of the frames that cannot be carried cannot.
pub open spec fn frames_error(frames: Seq<FrameView>) -> Option<ProtocolError>
    decreases frames.len(),
{
    if frames.len() == 0 {
        None
    } else {
        match frames_error(frames.drop_last()) {
            Some(e) => Some(e),
            None => frame_error(frames.last()),
        }
    }
}

/// Why a batch cannot be encoded into `have` bytes, if it cannot. What no
/// datagram can carry is reported before a short buffer.
pub open spec fn batch_error(frames: Seq<FrameView>, have: usize) -> Option<ProtocolError> {
    if frames.len() == 0 || frames.len() > MAX_BATCH {
        Some(ProtocolError::InvalidBatchSize(frames.len() as usize))
    } else if frames_error(frames) is Some {
        frames_error(frames)
    } else if have < batch_bytes(frames).len() {
        Some(ProtocolError::BufferTooSmall { needed: batch_bytes(frames).len() as usize, have })
    } else {
        None
    }
}

/// The frame that starts at byte `pos`: a header whose length field is not
/// zero, followed by at least that many bytes.
pub open spec fn parse_frame(s: Seq<u8>, pos: int) -> Result<AudioFrame, ProtocolError> {
    if s.len() < pos + FRAME_HEADER_SIZE {
        Err(ProtocolError::Truncated(s.len() as usize))
    } else if at16(s, pos + 8) == 0 {
        Err(ProtocolError::InvalidAudioLength(0))
    } else if s.len() < pos + FRAME_HEADER_SIZE + at16(s, pos + 8) {
        Err(ProtocolError::Truncated(s.len() as usize))
    } else {
        Ok(
            AudioFrame {
                seq: at32(s, pos),
                ts_ms: at32(s, pos + 4),
                payload_range: Range {
                    start: (pos + FRAME_HEADER_SIZE) as usize,
                    end: (pos + FRAME_HEADER_SIZE + at16(s, pos + 8)) as usize,
                },
            },
        )
    }
}

/// Frames before those of a result.
pub open spec fn prepended(
    before: Seq<AudioFrame>,
    r: Result<Seq<AudioFrame>, ProtocolError>,
) -> Result<Seq<AudioFrame>, ProtocolError> {
    match r {
        Ok(frames) => Ok(before + frames),
        Err(e) => Err(e),
    }
}

/// The `n` frames from byte `pos` on, or why they cannot all be read.
pub open spec fn parse_frames(s: Seq<u8>, pos: int, n: nat) -> Result<
    Seq<AudioFrame>,
    ProtocolError,
>
    decreases n,
{
    if n == 0 {
        Ok(seq![])
    } else {
        match parse_frame(s, pos) {
            Ok(f) => prepended(
                seq![f],
                parse_frames(s, f.payload_range.end as int, (n - 1) as nat),
            ),
            Err(e) => Err(e),
        }
    }
}

/// The frames of the batch in a received buffer.
pub open spec fn parse_batch(s: Seq<u8>) -> Result<Seq<AudioFrame>, ProtocolError> {
    if s.len() < BATCH_HEADER_SIZE {
        Err(ProtocolError::Truncated(s.len() as usize))
    } else if s[1] == 0 {
        Err(ProtocolError::InvalidBatchSize(0))
    } else {
        parse_frames(s, BATCH_HEADER_SIZE as int, s[1] as nat)
    }
}

/// Decodes the frame that starts at byte `pos`.
fn decode_frame(buf: &[u8], pos: usize) -> (r: Result<AudioFrame, ProtocolError>)
    requires
        pos <= buf@.len(),
    ensures
        r == parse_frame(buf@, pos as int),
{
    let n: usize = buf.len();
    if n - pos < FRAME_HEADER_SIZE {
        return Err(ProtocolError::Truncated(n));
    }
    let len: u16 = get_u16(buf, pos + 8);
    if len == 0 {
        return Err(ProtocolError::InvalidAudioLength(0));
    }
    if n - pos - FRAME_HEADER_SIZE < len as usize {
        return Err(ProtocolError::Truncated(n));
    }
    let start: usize = pos + FRAME_HEADER_SIZE;
    let end: usize = start + len as usize;
    Ok(
        AudioFrame {
            seq: get_u32(buf, pos),
            ts_ms: get_u32(buf, pos + 4),
            payload_range: Range { start, end },
        },
    )
}

/// Decodes the frames of a batch, without copying their payloads.
pub fn decode_batch(buf: &[u8]) -> (r: Result<Vec<AudioFrame>, ProtocolError>)
    ensures
        match r {
            Ok(frames) => parse_batch(buf@) == Ok::<Seq<AudioFrame>, ProtocolError>(frames@),
            Err(e) => parse_batch(buf@) == Err::<Seq<AudioFrame>, ProtocolError>(e),
        },
{
    let n: usize = buf.len();
    if n < BATCH_HEADER_SIZE {
        return Err(ProtocolError::Truncated(n));
    }
    let count: usize = buf[1] as usize;
    if count == 0 {
        return Err(ProtocolError::InvalidBatchSize(0));
    }
    let mut frames: Vec<AudioFrame> = Vec::new();
    let mut pos: usize = BATCH_HEADER_SIZE;
    let mut left: usize = count;
    assert(parse_batch(buf@) == prepended(frames@, parse_frames(buf@, pos as int, left as nat)))
        by {
        if let Ok(all) = parse_batch(buf@) {
            assert(frames@ + all =~= all);
        }
    }
    while left > 0
        invariant
            pos <= buf@.len(),
            parse_batch(buf@) == prepended(
                frames@,
                parse_frames(buf@, pos as int, left as nat),
            ),
        decreases left,
    {
        let ghost before = frames@;
        let f = match decode_frame(buf, pos) {
            Ok(f) => f,
            Err(e) => return Err(e),
        };
        pos = f.payload_range.end;
        left = left - 1;
        frames.push(f);
        proof {
            if let Ok(rest) = parse_frames(buf@, pos as int, left as nat) {
                assert(before + (seq![f] + rest) =~= frames@ + rest);
            }
        }
    }
    assert(frames@ + Seq::<AudioFrame>::empty() =~= frames@);
    Ok(frames)
}

/// One more frame adds its bytes at the end.
proof fn lemma_frames_push(frames: Seq<FrameView>, f: FrameView)
    ensures
        frames_bytes(frames.push(f)) == frames_bytes(frames) + frame_bytes(f),
    decreases frames.len(),
{
    let all = frames.push(f);
    if frames.len() == 0 {
        assert(all.skip(1) =~= frames);
        assert(frames_bytes(frames) =~= seq![]);
        assert(frames_bytes(all) =~= frame_bytes(f));
        assert(frames_bytes(frames) + frame_bytes(f) =~= frame_bytes(f));
    } else {
        lemma_frames_push(frames.skip(1), f);
        assert(all.skip(1) =~= frames.skip(1).push(f));
        assert(frames_bytes(all) =~= frames_bytes(frames) + frame_bytes(f));
    }
}

/// Where each frame can be carried, none stands in the way.
pub proof fn lemma_no_frame_error(frames: Seq<FrameView>)
    requires
        forall|i: int| 0 <= i < frames.len() ==> frame_error(#[trigger] frames[i]) is None,
    ensures
        frames_error(frames) is None,
    decreases frames.len(),
{
    if frames.len() > 0 {
        let init = frames.drop_last();
        assert forall|i: int| 0 <= i < init.len() implies frame_error(
            #[trigger] init[i],
        ) is None by {
            assert(init[i] == frames[i]);
        }
        lemma_no_frame_error(init);
        assert(frame_error(frames[frames.len() - 1]) is None);
    }
}

/// Frames that can be carried can each be, and all of them take so many
/// bytes at most.
proof fn lemma_frames_fit(frames: Seq<FrameView>)
    requires
        frames_error(frames) is None,
    ensures
        forall|i: int| 0 <= i < frames.len() ==> frame_error(#[trigger] frames[i]) is None,
        frames_bytes(frames).len() <= frames.len() * 0x1_000a,
    decreases frames.len(),
{
    broadcast use lemma_be32_len;

    if frames.len() > 0 {
        let init = frames.drop_last();
        lemma_frames_fit(init);
        lemma_frames_push(init, frames.last());
        assert(init.push(frames.last()) =~= frames);
        assert forall|i: int| 0 <= i < frames.len() implies frame_error(
            #[trigger] frames[i],
        ) is None by {
            if i < init.len() {
                assert(init[i] == frames[i]);
            }
        }
    }
}

/// How many bytes frames take, or why one of them cannot be carried.
fn frames_len(frames: &[AudioFrameRef<'_>]) -> (r: Result<usize, ProtocolError>)
    requires
        frames@.len() <= MAX_BATCH,
    ensures
        match r {
            Ok(n) => frames_error(frame_views(frames@)) is None && n == frames_bytes(
                frame_views(frames@),
            ).len(),
            Err(e) => frames_error(frame_views(frames@)) == Some(e),
        },
{
    let ghost all = frame_views(frames@);
    let mut n: usize = 0;
    let mut i: usize = 0;
    while i < frames.len()
        invariant
            i <= frames@.len() <= MAX_BATCH,
            all == frame_views(frames@),
            frames_error(all.take(i as int)) is None,
            n == frames_bytes(all.take(i as int)).len(),
            n <= i * 0x1_000a,
        decreases frames@.len() - i,
    {
        let f = frames[i];
        let len: usize = f.payload.len();
        proof {
            assert(all[i as int] == f@);
            assert(all.take(i + 1) =~= all.take(i as int).push(f@));
            assert(all.take(i + 1).drop_last() =~= all.take(i as int));
            lemma_frames_push(all.take(i as int), f@);
            lemma_be32_len(f.seq);
            lemma_be32_len(f.ts_ms);
        }
        if len == 0 || len > u16::MAX as usize {
            proof {
                lemma_frames_error_prefix(all, i + 1);
            }
            return Err(ProtocolError::InvalidAudioLength(if len == 0 { 0 } else { u16::MAX }));
        }
        n = n + FRAME_HEADER_SIZE + len;
        i = i + 1;
    }
    assert(all.take(i as int) =~= all);
    Ok(n)
}

/// A frame that cannot be carried decides, whatever follows it.
proof fn lemma_frames_error_prefix(frames: Seq<FrameView>, n: int)
    requires
        0 <= n <= frames.len(),
        frames_error(frames.take(n)) is Some,
    ensures
        frames_error(frames) == frames_error(frames.take(n)),
    decreases frames.len(),
{
    if n < frames.len() {
        assert(frames.drop_last().take(n) =~= frames.take(n));
        lemma_frames_error_prefix(frames.drop_last(), n);
    } else {
        assert(frames.take(n) =~= frames);
    }
}

/// Writes a batch at the front of `out`, without allocating, and returns the
/// number of bytes written. On an error `out` is left as it was.
pub fn encode_batch(frames: &[AudioFrameRef<'_>], out: &mut [u8]) -> (r: Result<
    usize,
    ProtocolError,
>)
    ensures
        match r {
            Ok(n) => batch_error(frame_views(frames@), old(out)@.len() as usize) is None && n
                == batch_bytes(frame_views(frames@)).len() && final(out)@ == splice(
                old(out)@,
                0,
                batch_bytes(frame_views(frames@)),
            ),
            Err(e) => batch_error(frame_views(frames@), old(out)@.len() as usize) == Some(e)
                && final(out)@ == old(out)@,
        },
{
    let ghost all = frame_views(frames@);
    let count: usize = frames.len();
    let have: usize = out.len();
    if count == 0 || count > MAX_BATCH {
        return Err(ProtocolError::InvalidBatchSize(count));
    }
    let body: usize = match frames_len(frames) {
        Ok(n) => n,
        Err(e) => return Err(e),
    };
    proof {
        lemma_frames_fit(all);
    }
    let needed: usize = BATCH_HEADER_SIZE + body;
    if have < needed {
        return Err(ProtocolError::BufferTooSmall { needed, have });
    }
    let ghost head = seq![type_byte(EventType::AudioBatch), count as u8];
    out[0] = EventType::AudioBatch.to_byte();
    out[1] = count as u8;
    let mut pos: usize = BATCH_HEADER_SIZE;
    let mut i: usize = 0;
    assert(frames_bytes(all.take(0)) =~= seq![]);
    assert(out@ =~= splice(old(out)@, 0, head + frames_bytes(all.take(0))));
    while i < count
        invariant
            i <= count == frames@.len(),
            all == frame_views(frames@),
            head.len() == BATCH_HEADER_SIZE,
            forall|k: int| 0 <= k < all.len() ==> frame_error(#[trigger] all[k]) is None,
            pos == BATCH_HEADER_SIZE + frames_bytes(all.take(i as int)).len(),
            needed == BATCH_HEADER_SIZE + frames_bytes(all).len(),
            needed <= old(out)@.len() == out@.len() <= usize::MAX,
            out@ == splice(old(out)@, 0, head + frames_bytes(all.take(i as int))),
        decreases count - i,
    {
        let f = frames[i];
        let ghost done = frames_bytes(all.take(i as int));
        let ghost mid = out@;
        proof {
            assert(all[i as int] == f@);
            assert(all.take(i + 1) =~= all.take(i as int).push(f@));
            lemma_frames_push(all.take(i as int), f@);
            lemma_frames_split(all, i + 1);
            lemma_be32_len(f.seq);
            lemma_be32_len(f.ts_ms);
            assert(frame_bytes(f@).len() == FRAME_HEADER_SIZE + f.payload@.len());
        }
        put_u32(out, pos, f.seq);
        put_u32(out, pos + 4, f.ts_ms);
        put_u16(out, pos + 8, f.payload.len() as u16);
        put_bytes(out, pos + FRAME_HEADER_SIZE, f.payload);
        proof {
            assert(out@ =~= splice(mid, pos as int, frame_bytes(f@)));
            assert(out@ =~= splice(old(out)@, 0, head + (done + frame_bytes(f@))));
        }
        pos = pos + FRAME_HEADER_SIZE + f.payload.len();
        i = i + 1;
    }
    assert(all.take(i as int) =~= all);
    Ok(needed)
}

/// The bytes of frames are those of the first ones and of the rest.
proof fn lemma_frames_split(frames: Seq<FrameView>, n: int)
    requires
        0 <= n <= frames.len(),
    ensures
        frames_bytes(frames) == frames_bytes(frames.take(n)) + frames_bytes(frames.skip(n)),
    decreases n,
{
    if n == 0 {
        assert(frames.skip(0) =~= frames);
        assert(frames_bytes(frames.take(0)) + frames_bytes(frames) =~= frames_bytes(frames));
    } else {
        lemma_frames_split(frames.skip(1), n - 1);
        assert(frames.take(n).skip(1) =~= frames.skip(1).take(n - 1));
        assert(frames.skip(1).skip(n - 1) =~= frames.skip(n));
        assert(frames_bytes(frames) =~= frames_bytes(frames.take(n)) + frames_bytes(
            frames.skip(n),
        ));
    }
}

/// What the receiver of frames that start at byte `pos` decodes.
pub open spec fn received_frames(frames: Seq<FrameView>, pos: int) -> Seq<AudioFrame>
    decreases frames.len(),
{
    if frames.len() == 0 {
        seq![]
    } else {
        let start = pos + FRAME_HEADER_SIZE;
        let end = start + frames[0].payload.len();
        seq![
            AudioFrame {
                seq: frames[0].seq,
                ts_ms: frames[0].ts_ms,
                payload_range: Range { start: start as usize, end: end as usize },
            },
        ] + received_frames(frames.skip(1), end)
    }
}

/// The range of a received frame holds the payload that was sent.
pub open spec fn holds_payload(s: Seq<u8>, received: AudioFrame, sent: FrameView) -> bool {
    &&& received.payload_range.start <= received.payload_range.end <= s.len()
    &&& s.subrange(received.payload_range.start as int, received.payload_range.end as int)
        == sent.payload
}

/// A part of bytes that stand from `pos` on stands where it belongs.
proof fn lemma_part(s: Seq<u8>, pos: int, b: Seq<u8>, i: int, j: int)
    requires
        0 <= pos,
        0 <= i <= j <= b.len(),
        pos + b.len() <= s.len(),
        s.subrange(pos, pos + b.len()) == b,
    ensures
        s.subrange(pos + i, pos + j) == b.subrange(i, j),
{
    assert(s.subrange(pos + i, pos + j) =~= s.subrange(pos, pos + b.len()).subrange(i, j));
}

/// Frames whose bytes stand from `pos` on are read as the same frames, in the
/// same order, and the range of each holds its payload.
pub proof fn lemma_frames_roundtrip(frames: Seq<FrameView>, s: Seq<u8>, pos: int)
    requires
        forall|i: int| 0 <= i < frames.len() ==> frame_error(#[trigger] frames[i]) is None,
        0 <= pos,
        pos + frames_bytes(frames).len() <= s.len() <= usize::MAX,
        s.subrange(pos, pos + frames_bytes(frames).len()) == frames_bytes(frames),
    ensures
        parse_frames(s, pos, frames.len()) == Ok::<Seq<AudioFrame>, ProtocolError>(
            received_frames(frames, pos),
        ),
        received_frames(frames, pos).len() == frames.len(),
        forall|i: int|
            0 <= i < frames.len() ==> holds_payload(
                s,
                #[trigger] received_frames(frames, pos)[i],
                frames[i],
            ),
    decreases frames.len(),
{
    broadcast use lemma_be32_len;

    if frames.len() > 0 {
        let f = frames[0];
        let rest = frames.skip(1);
        let b = frames_bytes(frames);
        let end = pos + FRAME_HEADER_SIZE + f.payload.len();
        assert(frame_error(f) is None);
        let body = FRAME_HEADER_SIZE + f.payload.len();
        lemma_part(s, pos, b, 0, 4);
        assert(b.subrange(0, 4) =~= be32(f.seq));
        lemma_part(s, pos, b, 4, 8);
        assert(b.subrange(4, 8) =~= be32(f.ts_ms));
        lemma_part(s, pos, b, 8, 10);
        assert(b.subrange(8, 10) =~= be16(f.payload.len() as u16));
        lemma_part(s, pos, b, 10, body as int);
        assert(b.subrange(10, body as int) =~= f.payload);
        lemma_part(s, pos, b, body as int, b.len() as int);
        assert(b.subrange(body as int, b.len() as int) =~= frames_bytes(rest));
        lemma_at32_be32(s, pos, f.seq);
        lemma_at32_be32(s, pos + 4, f.ts_ms);
        lemma_at16_be16(s, pos + 8, f.payload.len() as u16);
        assert forall|i: int| 0 <= i < rest.len() implies frame_error(
            #[trigger] rest[i],
        ) is None by {
            assert(rest[i] == frames[i + 1]);
        }
        lemma_frames_roundtrip(rest, s, end);
        let got = received_frames(frames, pos);
        assert forall|i: int| 0 <= i < frames.len() implies holds_payload(
            s,
            #[trigger] got[i],
            frames[i],
        ) by {
            if i > 0 {
                assert(got[i] == received_frames(rest, end)[i - 1]);
                assert(rest[i - 1] == frames[i]);
            }
        }
    }
}

/// A batch whose bytes stand at the front of a buffer is read as the same
/// frames, in the same order, and the range of each holds its payload.
pub proof fn lemma_batch_roundtrip(frames: Seq<FrameView>, have: usize, s: Seq<u8>)
    requires
        batch_error(frames, have) is None,
        batch_bytes(frames).is_prefix_of(s),
        s.len() <= usize::MAX,
    ensures
        parse_batch(s) == Ok::<Seq<AudioFrame>, ProtocolError>(
            received_frames(frames, BATCH_HEADER_SIZE as int),
        ),
        received_frames(frames, BATCH_HEADER_SIZE as int).len() == frames.len(),
        forall|i: int|
            0 <= i < frames.len() ==> holds_payload(
                s,
                #[trigger] received_frames(frames, BATCH_HEADER_SIZE as int)[i],
                frames[i],
            ),
{
    let b = batch_bytes(frames);
    assert(forall|i: int| 0 <= i < b.len() ==> s[i] == b[i]);
    lemma_frames_fit(frames);
    assert(s.subrange(2, 2 + frames_bytes(frames).len() as int) =~= frames_bytes(frames));
    lemma_frames_roundtrip(frames, s, 2);
}

/// Frames that lost bytes at their end are reported as truncated.
proof fn lemma_cut_frames(frames: Seq<FrameView>, s: Seq<u8>, pos: int)
    requires
        forall|i: int| 0 <= i < frames.len() ==> frame_error(#[trigger] frames[i]) is None,
        0 <= pos <= s.len() <= usize::MAX,
        s.len() < pos + frames_bytes(frames).len(),
        s.skip(pos).is_prefix_of(frames_bytes(frames)),
    ensures
        parse_frames(s, pos, frames.len()) == Err::<Seq<AudioFrame>, ProtocolError>(
            ProtocolError::Truncated(s.len() as usize),
        ),
    decreases frames.len(),
{
    broadcast use lemma_be32_len;

    let f = frames[0];
    let rest = frames.skip(1);
    let b = frames_bytes(frames);
    let t = s.skip(pos);
    assert(frame_error(f) is None);
    assert(t =~= b.take(t.len() as int));
    assert(s.subrange(pos, pos + t.len()) =~= t);
    if t.len() >= FRAME_HEADER_SIZE {
        let body = FRAME_HEADER_SIZE + f.payload.len();
        let end = pos + body;
        lemma_part(s, pos, t, 8, 10);
        assert(t.subrange(8, 10) =~= be16(f.payload.len() as u16));
        lemma_at16_be16(s, pos + 8, f.payload.len() as u16);
        if s.len() >= end {
            assert(s.skip(end) =~= t.skip(body as int));
            assert(s.skip(end) =~= frames_bytes(rest).take(s.len() - end));
            assert forall|i: int| 0 <= i < rest.len() implies frame_error(
                #[trigger] rest[i],
            ) is None by {
                assert(rest[i] == frames[i + 1]);
            }
            lemma_cut_frames(rest, s, end);
        }
    }
}

/// A batch that lost bytes at its end is reported as truncated, with the
/// length that arrived, wherever it was cut.
pub proof fn lemma_cut_batch_is_truncated(frames: Seq<FrameView>, have: usize, cut: int)
    requires
        batch_error(frames, have) is None,
        0 <= cut < batch_bytes(frames).len(),
    ensures
        parse_batch(batch_bytes(frames).take(cut)) == Err::<Seq<AudioFrame>, ProtocolError>(
            ProtocolError::Truncated(cut as usize),
        ),
{
    let b = batch_bytes(frames);
    let s = b.take(cut);
    lemma_frames_fit(frames);
    if cut >= BATCH_HEADER_SIZE {
        assert(s[1] == b[1]);
        assert(s.skip(2) =~= frames_bytes(frames).take(cut - 2));
        lemma_cut_frames(frames, s, 2);
    }
}

} // verus!
