//! Cutting a stream of samples into frames and arranging them by channel.
//! Nothing here looks at a sample, so any sample type will do.

use super::{FRAME_SAMPLES, SAMPLE_RATE};
use vstd::arithmetic::div_mod::{lemma_fundamental_div_mod, lemma_fundamental_div_mod_converse};
use vstd::prelude::*;

verus! {

/// Interleaved samples in one frame.
pub fn frame_len(channels: u16) -> (n: usize)
    ensures
        n == FRAME_SAMPLES * channels,
{
    FRAME_SAMPLES * channels as usize
}

/// Samples that the ring between capture and encoding holds: one second.
pub fn sender_ring_capacity(channels: u16) -> (n: usize)
    ensures
        n == if channels == 0 {
            1
        } else {
            SAMPLE_RATE * channels
        },
{
    if channels == 0 {
        1
    } else {
        let rate: usize = SAMPLE_RATE as usize;
        assert(rate == 48_000);
        assert(rate * channels <= 48_000 * 0xffff);
        rate * channels as usize
    }
}

/// Whether captured samples have to be brought to the wire's rate.
pub fn needs_resampler(input_rate: u32) -> (b: bool)
    ensures
        b == (input_rate != SAMPLE_RATE),
{
    input_rate != SAMPLE_RATE
}

/// Input samples per channel that a resampler takes at a time: ten
/// milliseconds, and at least one.
pub fn resampler_chunk(input_rate: u32) -> (n: usize)
    ensures
        n == if input_rate < 100 {
            1
        } else {
            input_rate as int / 100
        },
{
    if input_rate < 100 {
        1
    } else {
        input_rate as usize / 100
    }
}

/// Collects samples that arrive in chunks of any size and hands them out in
/// chunks of one size.
pub struct Accumulator<T> {
    pending: Vec<T>,
    size: usize,
}

impl<T: Copy> Accumulator<T> {
    /// The samples not handed out yet.
    pub closed spec fn pending(self) -> Seq<T> {
        self.pending@
    }

    /// Samples in a chunk.
    pub closed spec fn size(self) -> nat {
        self.size as nat
    }

    /// Nothing collected yet.
    pub fn new(size: usize) -> (a: Accumulator<T>)
        requires
            size > 0,
        ensures
            a.pending() == Seq::<T>::empty(),
            a.size() == size,
    {
        Accumulator { pending: Vec::new(), size }
    }

    /// Adds samples at the end.
    pub fn extend(&mut self, samples: &[T])
        ensures
            final(self).pending() == old(self).pending() + samples@,
            final(self).size() == old(self).size(),
    {
        let n: usize = samples.len();
        let mut i: usize = 0;
        while i < n
            invariant
                i <= n,
                n == samples@.len(),
                self.pending@ =~= old(self).pending@ + samples@.take(i as int),
                self.size == old(self).size,
            decreases n - i,
        {
            self.pending.push(samples[i]);
            i = i + 1;
        }
        assert(samples@.take(n as int) =~= samples@);
    }

    /// Hands out the first chunk, once enough samples have arrived.
    pub fn take_chunk(&mut self) -> (r: Option<Vec<T>>)
        ensures
            final(self).size() == old(self).size(),
            match r {
                Some(chunk) => chunk@.len() == old(self).size() && chunk@ + final(self).pending()
                    == old(self).pending(),
                None => old(self).pending().len() < old(self).size() && final(self).pending()
                    == old(self).pending(),
            },
    {
        if self.pending.len() < self.size {
            return None;
        }
        let rest = self.pending.split_off(self.size);
        let mut chunk = rest;
        core::mem::swap(&mut self.pending, &mut chunk);
        assert(chunk@ + self.pending@ =~= old(self).pending@);
        Some(chunk)
    }
}

/// The chunks that a run of samples is cut into.
pub open spec fn chunks<T>(samples: Seq<T>, size: nat) -> Seq<Seq<T>>
    decreases samples.len(),
{
    if size == 0 || samples.len() < size {
        seq![]
    } else {
        seq![samples.take(size as int)] + chunks(samples.skip(size as int), size)
    }
}

/// What is left of a run of samples once it was cut into chunks.
pub open spec fn remainder<T>(samples: Seq<T>, size: nat) -> Seq<T>
    decreases samples.len(),
{
    if size == 0 || samples.len() < size {
        samples
    } else {
        remainder(samples.skip(size as int), size)
    }
}

/// All chunks in a row.
pub open spec fn flattened<T>(parts: Seq<Seq<T>>) -> Seq<T>
    decreases parts.len(),
{
    if parts.len() == 0 {
        seq![]
    } else {
        parts[0] + flattened(parts.skip(1))
    }
}

/// Cutting loses nothing and keeps the order: the chunks in a row and what is
/// left are the samples, every chunk is full, and less than one is left.
pub proof fn lemma_chunks_lose_nothing<T>(samples: Seq<T>, size: nat)
    requires
        size > 0,
    ensures
        flattened(chunks(samples, size)) + remainder(samples, size) == samples,
        forall|i: int|
            0 <= i < chunks(samples, size).len() ==> (#[trigger] chunks(samples, size)[i]).len()
                == size,
        remainder(samples, size).len() < size,
    decreases samples.len(),
{
    if samples.len() >= size {
        let rest = samples.skip(size as int);
        lemma_chunks_lose_nothing(rest, size);
        let c = chunks(samples, size);
        assert(c.skip(1) =~= chunks(rest, size));
        assert(c[0] == samples.take(size as int));
        assert(flattened(c) + remainder(samples, size) =~= samples.take(size as int) + (flattened(
            chunks(rest, size),
        ) + remainder(rest, size)));
        assert(samples.take(size as int) + rest =~= samples);
    } else {
        assert(flattened(chunks(samples, size)) + samples =~= samples);
    }
}

impl<T: Copy> Accumulator<T> {
    /// Hands out all full chunks.
    pub fn take_chunks(&mut self) -> (r: Vec<Vec<T>>)
        requires
            old(self).size() > 0,
        ensures
            final(self).size() == old(self).size(),
            r@.map_values(|c: Vec<T>| c@) == chunks(old(self).pending(), old(self).size()),
            final(self).pending() == remainder(old(self).pending(), old(self).size()),
    {
        let mut r: Vec<Vec<T>> = Vec::new();
        let ghost size = self.size();
        let ghost all = chunks(self.pending(), size);
        assert(r@.map_values(|c: Vec<T>| c@) + all =~= all);
        loop
            invariant
                size == old(self).size(),
                size > 0,
                self.size() == size,
                all == chunks(old(self).pending(), size),
                r@.map_values(|c: Vec<T>| c@) + chunks(self.pending(), size) == all,
                remainder(self.pending(), size) == remainder(old(self).pending(), size),
            ensures
                self.size() == size,
                r@.map_values(|c: Vec<T>| c@) == all,
                self.pending() == remainder(old(self).pending(), size),
            decreases self.pending().len(),
        {
            let ghost before = self.pending();
            let ghost done = r@.map_values(|c: Vec<T>| c@);
            match self.take_chunk() {
                Some(chunk) => {
                    let ghost cv = chunk@;
                    r.push(chunk);
                    proof {
                        assert(before.take(size as int) =~= cv);
                        assert(before.skip(size as int) =~= self.pending());
                        assert(r@.map_values(|c: Vec<T>| c@) =~= done.push(cv));
                        assert(r@.map_values(|c: Vec<T>| c@) + chunks(self.pending(), size)
                            =~= done + chunks(before, size));
                    }
                },
                None => {
                    assert(done + chunks(before, size) =~= done);
                    break;
                },
            }
        }
        r
    }
}

/// Sample `frame` of channel `ch` in interleaved samples.
pub open spec fn place(channels: int, frame: int, ch: int) -> int {
    frame * channels + ch
}

/// A place in interleaved samples is inside them.
proof fn lemma_place_bounds(channels: int, frames: int, frame: int, ch: int)
    requires
        0 <= ch < channels,
        0 <= frame < frames,
    ensures
        0 <= place(channels, frame, ch) < frames * channels,
        place(channels, frame, ch) / channels == frame,
        place(channels, frame, ch) % channels == ch,
{
    assert(0 <= frame * channels) by (nonlinear_arith)
        requires
            0 <= frame,
            0 < channels,
    ;
    assert(frame * channels + channels <= frames * channels) by (nonlinear_arith)
        requires
            frame + 1 <= frames,
            0 < channels,
    ;
    lemma_fundamental_div_mod_converse(place(channels, frame, ch), channels, frame, ch);
}

/// Separates interleaved samples into one run of samples per channel.
pub fn deinterleave<T: Copy>(samples: &Vec<T>, channels: usize, frames: usize) -> (planar: Vec<
    Vec<T>,
>)
    requires
        samples@.len() == frames * channels,
    ensures
        planar@.len() == channels,
        forall|ch: int|
            0 <= ch < channels ==> (#[trigger] planar@[ch])@ == Seq::new(
                frames as nat,
                |f: int| samples@[place(channels as int, f, ch)],
            ),
{
    let mut planar: Vec<Vec<T>> = Vec::new();
    let total: usize = samples.len();
    let mut ch: usize = 0;
    while ch < channels
        invariant
            ch <= channels,
            total == samples@.len() == frames * channels,
            planar@.len() == ch,
            forall|c: int|
                0 <= c < ch ==> (#[trigger] planar@[c])@ == Seq::new(
                    frames as nat,
                    |f: int| samples@[place(channels as int, f, c)],
                ),
        decreases channels - ch,
    {
        let mut buf: Vec<T> = Vec::new();
        let mut f: usize = 0;
        while f < frames
            invariant
                f <= frames,
                ch < channels,
                total == samples@.len() == frames * channels,
                buf@.len() == f,
                forall|k: int|
                    0 <= k < f ==> (#[trigger] buf@[k]) == samples@[place(
                        channels as int,
                        k,
                        ch as int,
                    )],
            decreases frames - f,
        {
            proof {
                lemma_place_bounds(channels as int, frames as int, f as int, ch as int);
                assert(0 <= f * channels <= total) by (nonlinear_arith)
                    requires
                        0 <= f <= frames,
                        0 <= channels,
                        total == frames * channels,
                ;
            }
            buf.push(samples[f * channels + ch]);
            f = f + 1;
        }
        assert(buf@ =~= Seq::new(
            frames as nat,
            |f: int| samples@[place(channels as int, f, ch as int)],
        ));
        planar.push(buf);
        ch = ch + 1;
    }
    planar
}

/// Puts the samples of several channels back in a row, frame by frame.
pub fn interleave<T: Copy>(planar: &Vec<Vec<T>>, frames: usize) -> (samples: Vec<T>)
    requires
        forall|ch: int| 0 <= ch < planar@.len() ==> (#[trigger] planar@[ch])@.len() >= frames,
        planar@.len() > 0,
    ensures
        samples@.len() == frames * planar@.len(),
        forall|i: int|
            0 <= i < samples@.len() ==> (#[trigger] samples@[i]) == planar@[i
                % planar@.len() as int]@[i / planar@.len() as int],
{
    let mut samples: Vec<T> = Vec::new();
    let channels: usize = planar.len();
    let mut f: usize = 0;
    assert(0 * channels == 0) by (nonlinear_arith);
    while f < frames
        invariant
            f <= frames,
            channels == planar@.len(),
            channels > 0,
            forall|ch: int| 0 <= ch < planar@.len() ==> (#[trigger] planar@[ch])@.len() >= frames,
            samples@.len() == f * channels,
            forall|i: int|
                0 <= i < samples@.len() ==> (#[trigger] samples@[i]) == planar@[i
                    % channels as int]@[i / channels as int],
        decreases frames - f,
    {
        let mut ch: usize = 0;
        while ch < channels
            invariant
                ch <= channels,
                f < frames,
                channels == planar@.len(),
                channels > 0,
                forall|ch: int|
                    0 <= ch < planar@.len() ==> (#[trigger] planar@[ch])@.len() >= frames,
                samples@.len() == f * channels + ch,
                forall|i: int|
                    0 <= i < samples@.len() ==> (#[trigger] samples@[i]) == planar@[i
                        % channels as int]@[i / channels as int],
            decreases channels - ch,
        {
            proof {
                lemma_place_bounds(channels as int, frames as int, f as int, ch as int);
            }
            samples.push(planar[ch][f]);
            ch = ch + 1;
        }
        assert((f + 1) * channels == f * channels + channels) by (nonlinear_arith);
        f = f + 1;
    }
    samples
}

/// Separating samples by channel and putting them back in a row gives the
/// samples back.
pub proof fn lemma_interleave_roundtrip<T>(
    samples: Seq<T>,
    planar: Seq<Seq<T>>,
    back: Seq<T>,
    channels: int,
    frames: int,
)
    requires
        0 < channels,
        0 <= frames,
        samples.len() == frames * channels,
        planar.len() == channels,
        forall|ch: int|
            0 <= ch < channels ==> (#[trigger] planar[ch]) == Seq::new(
                frames as nat,
                |f: int| samples[place(channels, f, ch)],
            ),
        back.len() == frames * channels,
        forall|i: int|
            0 <= i < back.len() ==> (#[trigger] back[i]) == planar[i % channels][i / channels],
    ensures
        back == samples,
{
    assert forall|i: int| 0 <= i < back.len() implies back[i] == samples[i] by {
        lemma_fundamental_div_mod(i, channels);
        let (f, ch) = (i / channels, i % channels);
        assert(0 <= ch < channels);
        assert(f * channels <= i);
        assert(f < frames) by (nonlinear_arith)
            requires
                f * channels <= i,
                i < frames * channels,
                0 < channels,
        ;
        assert(0 <= f) by (nonlinear_arith)
            requires
                f * channels + ch == i,
                0 <= i,
                ch < channels,
                0 < channels,
        ;
        assert(place(channels, f, ch) == i);
    }
    assert(back =~= samples);
}

/// Numbers encoded frames. Numbers wrap; only a frame that was encoded gets
/// one, so the receiver sees no gap where encoding failed.
pub struct FrameCounter {
    next: u32,
}

impl FrameCounter {
    /// The number of the next frame.
    pub closed spec fn next(self) -> u32 {
        self.next
    }

    /// The first frame is number zero.
    pub fn new() -> (c: FrameCounter)
        ensures
            c.next() == 0,
    {
        FrameCounter { next: 0 }
    }

    /// The number of a frame, where it was encoded.
    pub fn number(&mut self, encoded: bool) -> (seq: Option<u32>)
        ensures
            seq == if encoded {
                Some(old(self).next())
            } else {
                None
            },
            final(self).next() == if encoded {
                super::jitter::succ(old(self).next())
            } else {
                old(self).next()
            },
    {
        if encoded {
            let seq: u32 = self.next;
            self.next = self.next.wrapping_add(1);
            Some(seq)
        } else {
            None
        }
    }
}

/// What a receiver reports of its stream.
#[derive(Clone, Copy, Debug, PartialEq, Eq, Structural)]
pub struct AudioStats {
    pub latency_ms: u32,
    pub packets_lost: u64,
    /// bit pattern of the single-precision level
    pub level: u32,
}

/// The statistics of a stream: what is buffered is what playback lags behind.
pub fn stats(occupancy: u32, packets_lost: u64, level: u32) -> (s: AudioStats)
    requires
        occupancy * super::jitter::FRAME_MS <= u32::MAX,
    ensures
        s == (AudioStats {
            latency_ms: (occupancy * super::jitter::FRAME_MS) as u32,
            packets_lost,
            level,
        }),
{
    AudioStats { latency_ms: occupancy * super::jitter::FRAME_MS, packets_lost, level }
}

/// Watches the count of lost frames for ticks that had to conceal some.
pub struct LossMeter {
    last_lost: u64,
    underruns: u64,
}

impl LossMeter {
    /// The count of lost frames so far.
    pub closed spec fn last_lost(self) -> u64 {
        self.last_lost
    }

    /// The ticks that concealed frames.
    pub closed spec fn underruns(self) -> u64 {
        self.underruns
    }

    /// Nothing lost yet.
    pub fn new() -> (m: LossMeter)
        ensures
            m.last_lost() == 0,
            m.underruns() == 0,
    {
        LossMeter { last_lost: 0, underruns: 0 }
    }

    /// Looks at the count after a tick. Gives how many frames that tick
    /// concealed, where this is worth a line in the log: the first time, and
    /// then one time in fifty.
    pub fn observe(&mut self, lost: u64) -> (log: Option<u64>)
        requires
            old(self).underruns() < u64::MAX,
        ensures
            if lost > old(self).last_lost() {
                &&& final(self).last_lost() == lost
                &&& final(self).underruns() == old(self).underruns() + 1
                &&& log == if final(self).underruns() == 1 || final(self).underruns() % 50 == 0 {
                    Some((lost - old(self).last_lost()) as u64)
                } else {
                    None
                }
            } else {
                &&& final(self).last_lost() == old(self).last_lost()
                &&& final(self).underruns() == old(self).underruns()
                &&& log is None
            },
    {
        if lost > self.last_lost {
            let concealed: u64 = lost - self.last_lost;
            self.last_lost = lost;
            self.underruns = self.underruns + 1;
            if self.underruns == 1 || self.underruns % 50 == 0 {
                Some(concealed)
            } else {
                None
            }
        } else {
            None
        }
    }

    /// The ticks that concealed frames.
    pub fn recorded(&self) -> (n: u64)
        ensures
            n == self.underruns(),
    {
        self.underruns
    }
}

} // verus!
