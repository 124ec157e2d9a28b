//! Which output a stream is opened with, and how playback is measured.

use super::{AudioError, AudioFormat};
use vstd::prelude::*;

verus! {

/// How audio is played.
#[derive(Clone, Copy, Debug, PartialEq, Eq, Structural)]
pub enum Backend {
    Cpal,
    /// discards what it is given, without any hardware
    Dummy,
}

/// A range of output formats that a device offers.
#[derive(Clone, Copy, Debug, PartialEq, Eq, Structural)]
pub struct OutputRange {
    /// takes single-precision samples
    pub is_float: bool,
    pub channels: u16,
    pub min_sample_rate: u32,
    pub max_sample_rate: u32,
}

/// The output format a device uses by default.
#[derive(Clone, Copy, Debug, PartialEq, Eq, Structural)]
pub struct DefaultOutput {
    /// takes single-precision samples
    pub is_float: bool,
    pub format: AudioFormat,
}

/// The range holds the format.
pub open spec fn range_fits(r: OutputRange, wanted: AudioFormat) -> bool {
    r.is_float && r.channels == wanted.channels && r.min_sample_rate <= wanted.sample_rate
        <= r.max_sample_rate
}

/// Some range holds the format.
pub open spec fn some_range_fits(ranges: Seq<OutputRange>, wanted: AudioFormat) -> bool {
    exists|i: int| 0 <= i < ranges.len() && range_fits(#[trigger] ranges[i], wanted)
}

/// Whether a device takes single-precision samples in exactly this format.
pub fn supports_config(ranges: &Vec<OutputRange>, wanted: AudioFormat) -> (b: bool)
    ensures
        b == some_range_fits(ranges@, wanted),
{
    let mut i: usize = 0;
    while i < ranges.len()
        invariant
            i <= ranges@.len(),
            forall|j: int| 0 <= j < i ==> !range_fits(#[trigger] ranges@[j], wanted),
        decreases ranges@.len() - i,
    {
        let c = ranges[i];
        if c.is_float && c.channels == wanted.channels && c.min_sample_rate <= wanted.sample_rate
            && wanted.sample_rate <= c.max_sample_rate {
            assert(range_fits(ranges@[i as int], wanted));
            return true;
        }
        i = i + 1;
    }
    false
}

/// Range `i` reaches the highest rate among those that take single-precision
/// samples, and is the last that does.
pub open spec fn is_best_range(ranges: Seq<OutputRange>, i: int) -> bool {
    &&& 0 <= i < ranges.len()
    &&& ranges[i].is_float
    &&& forall|j: int|
        0 <= j < ranges.len() && (#[trigger] ranges[j]).is_float ==> ranges[j].max_sample_rate
            <= ranges[i].max_sample_rate && (j > i ==> ranges[j].max_sample_rate
            < ranges[i].max_sample_rate)
}

/// The format at the highest rate of a range.
pub open spec fn top_format(r: OutputRange) -> AudioFormat {
    AudioFormat { sample_rate: r.max_sample_rate, channels: r.channels }
}

/// The format at the highest rate on offer, if any range takes
/// single-precision samples.
pub open spec fn is_best_format(ranges: Seq<OutputRange>, r: Option<AudioFormat>) -> bool {
    match r {
        Some(f) => exists|i: int| is_best_range(ranges, i) && f == top_format(ranges[i]),
        None => forall|j: int| 0 <= j < ranges.len() ==> !(#[trigger] ranges[j]).is_float,
    }
}

/// A format that works where the wanted one does not: the device's default if
/// it takes single-precision samples, else the highest rate of a range that
/// does. `ranges` is `None` where the device could not be asked.
pub open spec fn is_fallback(
    default: Option<DefaultOutput>,
    ranges: Option<Seq<OutputRange>>,
    r: Option<AudioFormat>,
) -> bool {
    if default is Some && default->0.is_float {
        r == Some(default->0.format)
    } else {
        match ranges {
            None => r is None,
            Some(ranges) => is_best_format(ranges, r),
        }
    }
}

/// The ranges of a device that could be asked.
pub open spec fn opt_ranges(ranges: Option<&Vec<OutputRange>>) -> Option<Seq<OutputRange>> {
    match ranges {
        Some(ranges) => Some(ranges@),
        None => None,
    }
}

/// Picks a format that works where the wanted one does not.
pub fn fallback_config(default: Option<DefaultOutput>, ranges: Option<&Vec<OutputRange>>) -> (r:
    Option<AudioFormat>)
    ensures
        is_fallback(default, opt_ranges(ranges), r),
{
    if let Some(d) = default {
        if d.is_float {
            return Some(d.format);
        }
    }
    let offered = match ranges {
        Some(offered) => offered,
        None => return None,
    };
    let mut best: Option<usize> = None;
    let mut i: usize = 0;
    while i < offered.len()
        invariant
            i <= offered@.len(),
            ranges == Some(offered),
            !(default is Some && default->0.is_float),
            match best {
                Some(b) => b < i && is_best_range(offered@.take(i as int), b as int),
                None => forall|j: int| 0 <= j < i ==> !(#[trigger] offered@[j]).is_float,
            },
        decreases offered@.len() - i,
    {
        let ghost t = offered@.take(i as int);
        let ghost u = offered@.take(i + 1);
        assert(forall|j: int| 0 <= j < i ==> t[j] == offered@[j] && u[j] == offered@[j]);
        if offered[i].is_float {
            match best {
                Some(b) => {
                    if offered[i].max_sample_rate >= offered[b].max_sample_rate {
                        best = Some(i);
                        assert forall|j: int| 0 <= j < u.len() && (#[trigger] u[j]).is_float implies
                            u[j].max_sample_rate <= u[i as int].max_sample_rate by {
                            if j < i {
                                assert(t[j].is_float);
                            }
                        }
                    }
                },
                None => {
                    best = Some(i);
                },
            }
        }
        proof {
            if let Some(b) = best {
                assert forall|j: int| 0 <= j < u.len() && (#[trigger] u[j]).is_float implies
                    u[j].max_sample_rate <= u[b as int].max_sample_rate && (j > b ==> u[j].max_sample_rate
                    < u[b as int].max_sample_rate) by {
                    if j < i {
                        assert(t[j].is_float);
                    }
                }
                assert(is_best_range(u, b as int));
            }
        }
        i = i + 1;
    }
    assert(offered@.take(i as int) =~= offered@);
    match best {
        Some(b) => {
            let f = AudioFormat {
                sample_rate: offered[b].max_sample_rate,
                channels: offered[b].channels,
            };
            assert(is_best_range(offered@, b as int) && f == top_format(offered@[b as int]));
            Some(f)
        },
        None => None,
    }
}

/// Picks the format in which an output is opened: the wanted one where the
/// device takes it or could not be asked, else one that works.
pub fn output_config(
    wanted: AudioFormat,
    ranges: Option<&Vec<OutputRange>>,
    default: Option<DefaultOutput>,
) -> (r: Result<AudioFormat, AudioError>)
    ensures
        match ranges {
            None => r == Ok::<AudioFormat, AudioError>(wanted),
            Some(offered) => if some_range_fits(offered@, wanted) {
                r == Ok::<AudioFormat, AudioError>(wanted)
            } else {
                match r {
                    Ok(f) => is_fallback(default, Some(offered@), Some(f)),
                    Err(e) => e == AudioError::NoSupportedConfig && is_fallback(
                        default,
                        Some(offered@),
                        None,
                    ),
                }
            },
        },
{
    match ranges {
        None => Ok(wanted),
        Some(offered) => if supports_config(offered, wanted) {
            Ok(wanted)
        } else {
            match fallback_config(default, Some(offered)) {
                Some(f) => Ok(f),
                None => Err(AudioError::NoSupportedConfig),
            }
        },
    }
}

/// Whether samples have to be converted on their way to an output.
pub fn needs_conversion(wanted: AudioFormat, opened: AudioFormat) -> (b: bool)
    ensures
        b == (wanted != opened),
{
    !(opened.channels == wanted.channels && opened.sample_rate == wanted.sample_rate)
}

/// Samples that the ring between decoding and output holds: half a second,
/// which only has to absorb scheduling, not the network.
pub fn ring_capacity(format: AudioFormat) -> (n: usize)
    ensures
        n >= 1,
        n == if format.sample_rate * format.channels / 2 < 1 {
            1
        } else if format.sample_rate * format.channels / 2 > usize::MAX {
            usize::MAX as int
        } else {
            format.sample_rate * format.channels / 2
        },
{
    assert(0 <= format.sample_rate * format.channels <= 0xffff_ffff * 0xffff) by (nonlinear_arith)
        requires
            0 <= format.sample_rate <= 0xffff_ffff,
            0 <= format.channels <= 0xffff,
    ;
    let half: u64 = format.sample_rate as u64 * format.channels as u64 / 2;
    if half < 1 {
        1
    } else if half > usize::MAX as u64 {
        usize::MAX
    } else {
        half as usize
    }
}

/// Counts events that are worth a line in the log only now and then.
#[derive(Debug)]
pub struct LogLimiter {
    count: u64,
    every: u64,
}

impl LogLimiter {
    /// How many events there were.
    pub closed spec fn count(self) -> u64 {
        self.count
    }

    /// The first event is logged, and after it one in this many.
    pub closed spec fn every(self) -> u64 {
        self.every
    }

    #[verifier::type_invariant]
    spec fn positive(self) -> bool {
        self.every > 0
    }

    /// No event yet.
    pub fn new(every: u64) -> (l: LogLimiter)
        requires
            every > 0,
        ensures
            l.count() == 0,
            l.every() == every,
    {
        LogLimiter { count: 0, every }
    }

    /// Counts an event. Gives the number of events where this one should be
    /// logged.
    pub fn record(&mut self) -> (log: Option<u64>)
        requires
            old(self).count() < u64::MAX,
        ensures
            final(self).count() == old(self).count() + 1,
            final(self).every() == old(self).every(),
            log == if final(self).count() == 1 || final(self).count() % old(self).every() == 0 {
                Some(final(self).count())
            } else {
                None
            },
    {
        proof {
            use_type_invariant(&*self);
        }
        self.count = self.count + 1;
        if self.count == 1 || self.count % self.every == 0 {
            Some(self.count)
        } else {
            None
        }
    }

    /// How many events there were.
    pub fn recorded(&self) -> (n: u64)
        ensures
            n == self.count(),
    {
        self.count
    }
}

/// The log line of a push into a ring that may be full: how many samples were
/// dropped, and how many pushes have dropped some.
pub fn record_push(limiter: &mut LogLimiter, pushed: usize, len: usize) -> (log: Option<
    (usize, u64),
>)
    requires
        pushed <= len,
        old(limiter).count() < u64::MAX,
    ensures
        final(limiter).every() == old(limiter).every(),
        if pushed == len {
            final(limiter).count() == old(limiter).count() && log is None
        } else {
            final(limiter).count() == old(limiter).count() + 1 && log == if final(limiter).count()
                == 1 || final(limiter).count() % old(limiter).every() == 0 {
                Some(((len - pushed) as usize, final(limiter).count()))
            } else {
                None
            }
        },
{
    if pushed < len {
        match limiter.record() {
            Some(n) => Some((len - pushed, n)),
            None => None,
        }
    } else {
        None
    }
}

/// How often the virtual playback clock consumes, in milliseconds.
pub const DUMMY_CLOCK_MS: u64 = 10;

/// Samples that an output consumes per tick of the virtual clock.
pub open spec fn samples_per_tick(format: AudioFormat) -> int {
    (format.sample_rate * DUMMY_CLOCK_MS / 1000) * format.channels
}

/// Samples that an output consumes per tick of the virtual clock.
pub fn tick_samples(format: AudioFormat) -> (n: usize)
    requires
        samples_per_tick(format) <= usize::MAX,
    ensures
        n == samples_per_tick(format),
{
    let frames: u64 = format.sample_rate as u64 * DUMMY_CLOCK_MS / 1000;
    assert(frames <= 0xffff_ffff);
    assert(frames * format.channels <= 0xffff_ffff * 0xffff) by (nonlinear_arith)
        requires
            0 <= frames <= 0xffff_ffff,
            0 <= format.channels <= 0xffff,
    ;
    let n: u64 = frames * format.channels as u64;
    n as usize
}

/// Counters of a playback that discards its samples. A virtual clock drains
/// what is queued at the format's own rate, as an output device would, so
/// that a starving stream shows.
#[derive(Clone, Copy, Debug)]
pub struct DummyMetrics {
    samples_received: usize,
    queued_samples: usize,
    underrun_ticks: u64,
    clock_ticks: u64,
}

/// Counters of a playback that discards its samples, as values.
pub struct MetricsView {
    /// samples pushed since the beginning, over all streams
    pub received: int,
    /// samples pushed and not yet consumed by the clock
    pub queued: int,
    /// ticks that found too few samples
    pub underruns: int,
    /// ticks of the current stream
    pub ticks: int,
}

impl View for DummyMetrics {
    type V = MetricsView;

    closed spec fn view(&self) -> MetricsView {
        MetricsView {
            received: self.samples_received as int,
            queued: self.queued_samples as int,
            underruns: self.underrun_ticks as int,
            ticks: self.clock_ticks as int,
        }
    }
}

impl MetricsView {
    /// The counters after one tick of the clock.
    pub open spec fn tick(self, need: int) -> MetricsView {
        MetricsView {
            queued: if self.queued >= need {
                self.queued - need
            } else {
                0
            },
            underruns: if self.queued >= need {
                self.underruns
            } else {
                self.underruns + 1
            },
            ticks: self.ticks + 1,
            ..self
        }
    }

    /// The counters after samples were pushed.
    pub open spec fn push(self, samples: int) -> MetricsView {
        MetricsView { received: self.received + samples, queued: self.queued + samples, ..self }
    }

    /// The counters after `n` ticks, each preceded by a push.
    pub open spec fn fed(self, samples: int, need: int, n: nat) -> MetricsView
        decreases n,
    {
        if n == 0 {
            self
        } else {
            self.fed(samples, need, (n - 1) as nat).push(samples).tick(need)
        }
    }
}

/// A stream that is fed at least what the clock consumes never underruns.
pub proof fn lemma_fed_stream_keeps_up(m: MetricsView, samples: int, need: int, n: nat)
    requires
        m.queued >= 0,
        samples >= need >= 0,
    ensures
        m.fed(samples, need, n).underruns == m.underruns,
        m.fed(samples, need, n).ticks == m.ticks + n,
        m.fed(samples, need, n).queued == m.queued + n * (samples - need),
    decreases n,
{
    if n > 0 {
        lemma_fed_stream_keeps_up(m, samples, need, (n - 1) as nat);
        assert(n * (samples - need) == (n - 1) * (samples - need) + (samples - need))
            by (nonlinear_arith);
        assert((n - 1) * (samples - need) >= 0) by (nonlinear_arith)
            requires
                n >= 1,
                samples >= need,
        ;
    } else {
        assert(n * (samples - need) == 0) by (nonlinear_arith)
            requires
                n == 0,
        ;
    }
}

/// A stream that is fed less than the clock consumes underruns on every tick
/// that finds nothing saved up.
pub proof fn lemma_starved_stream_underruns(m: MetricsView, samples: int, need: int)
    requires
        m.queued == 0,
        0 <= samples < need,
    ensures
        m.push(samples).tick(need).underruns == m.underruns + 1,
        m.push(samples).tick(need).queued == 0,
{
}

impl DummyMetrics {
    /// Counters before the first stream.
    pub fn new() -> (m: DummyMetrics)
        ensures
            m@ == (MetricsView { received: 0, queued: 0, underruns: 0, ticks: 0 }),
    {
        DummyMetrics { samples_received: 0, queued_samples: 0, underrun_ticks: 0, clock_ticks: 0 }
    }

    /// Samples pushed since the beginning, over all streams.
    pub fn samples_received(&self) -> (n: usize)
        ensures
            n == self@.received,
    {
        self.samples_received
    }

    /// Ticks that found too few samples: an output would have played silence.
    pub fn underrun_ticks(&self) -> (n: u64)
        ensures
            n == self@.underruns,
    {
        self.underrun_ticks
    }

    /// Ticks of the current stream.
    pub fn clock_ticks(&self) -> (n: u64)
        ensures
            n == self@.ticks,
    {
        self.clock_ticks
    }

    /// Starts a stream: the clock's counters begin anew, while the samples
    /// received stay counted over all streams.
    pub fn restart(&mut self)
        ensures
            final(self)@ == (MetricsView { queued: 0, underruns: 0, ticks: 0, ..old(self)@ }),
    {
        self.queued_samples = 0;
        self.underrun_ticks = 0;
        self.clock_ticks = 0;
    }

    /// Takes in samples.
    pub fn push(&mut self, samples: usize)
        requires
            old(self)@.received + samples <= usize::MAX,
            old(self)@.queued + samples <= usize::MAX,
        ensures
            final(self)@ == old(self)@.push(samples as int),
    {
        self.samples_received = self.samples_received + samples;
        self.queued_samples = self.queued_samples + samples;
    }

    /// Lets the clock consume.
    pub fn tick(&mut self, samples_per_tick: usize)
        requires
            old(self)@.ticks < u64::MAX,
            old(self)@.underruns < u64::MAX,
        ensures
            final(self)@ == old(self)@.tick(samples_per_tick as int),
    {
        if self.queued_samples >= samples_per_tick {
            self.queued_samples = self.queued_samples - samples_per_tick;
        } else {
            self.queued_samples = 0;
            self.underrun_ticks = self.underrun_ticks + 1;
        }
        self.clock_ticks = self.clock_ticks + 1;
    }

    /// Samples pushed and not yet consumed by the clock.
    pub fn queued_samples(&self) -> (n: usize)
        ensures
            n == self@.queued,
    {
        self.queued_samples
    }
}

} // verus!
