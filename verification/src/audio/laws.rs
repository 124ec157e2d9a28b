//! What holds of audio besides the order in which frames are played.
//!
//! Each law speaks of calls: of what goes into them and what comes out.

use super::capture::{
    ascii_lower, capture_backend, contains_text, is_monitor_device, is_monitor_name, list_devices,
    lowered, selectable, take_samples, views, FoundDevice,
};
use super::framing::{
    deinterleave, flattened, frame_len, interleave, lemma_chunks_lose_nothing, lemma_interleave_roundtrip,
    needs_resampler, place, resampler_chunk, sender_ring_capacity, stats, Accumulator, AudioStats,
    FrameCounter, LossMeter,
};
use super::playback::{
    fallback_config, needs_conversion, output_config, record_push, ring_capacity, supports_config,
    tick_samples, DefaultOutput, DummyMetrics, LogLimiter, MetricsView, OutputRange,
};
use super::{
    enumerate_devices, is_rate_mismatch, is_stereo, playback_format, to_ipc_devices, wants_sender,
    AudioDevice, AudioError, AudioFormat, AudioSettings,
};
use crate::ipc::{device_views, AudioDeviceInfo};
use crate::text::stands_at;
use std::collections::VecDeque;
use vstd::prelude::*;

verus! {

/// The numbers that audio goes by: frames of 960 samples per channel are twenty
/// milliseconds at 48 kHz, in stereo.
pub proof fn lemma_wire_format()
    ensures
        super::SAMPLE_RATE == 48_000,
        super::FRAME_SAMPLES == 960,
        super::FRAME_SAMPLES * 1000 == super::SAMPLE_RATE * super::jitter::FRAME_MS,
        super::WIRE_CHANNELS == 2,
        super::DEFAULT_BITRATE == 96_000,
        super::AUDIO_QUEUE_FRAMES == 8,
{
}

/// Sizes follow from the format: a frame holds 960 samples per channel, the
/// sender's ring one second, and a resampler takes ten milliseconds at a time.
pub proof fn lemma_sizes_follow_the_format(
    channels: u16,
    rate: u32,
    frame: usize,
    ring: usize,
    resampled: bool,
    chunk: usize,
)
    requires
        call_ensures(frame_len, (channels,), frame),
        call_ensures(sender_ring_capacity, (channels,), ring),
        call_ensures(needs_resampler, (rate,), resampled),
        call_ensures(resampler_chunk, (rate,), chunk),
    ensures
        frame == 960 * channels,
        channels > 0 ==> ring == 48_000 * channels,
        channels == 0 ==> ring == 1,
        resampled <==> rate != 48_000,
        chunk >= 1,
        rate >= 100 ==> chunk * 100 <= rate < (chunk + 1) * 100,
        rate < 100 ==> chunk == 1,
{
}

/// Samples that arrive are kept behind those that wait.
pub proof fn lemma_samples_are_collected<T: Copy>(
    size: usize,
    new: Accumulator<T>,
    a: &mut Accumulator<T>,
    samples: &[T],
)
    requires
        size > 0,
        call_ensures(Accumulator::<T>::new, (size,), new),
        call_ensures(Accumulator::<T>::extend, (a, samples), ()),
    ensures
        new.pending().len() == 0,
        new.size() == size,
        final(a).pending() == old(a).pending() + samples@,
        final(a).size() == old(a).size(),
{
}

/// A chunk is handed out as soon as there are enough samples: the first ones,
/// in order; the others go on waiting.
pub proof fn lemma_chunk_is_handed_out<T: Copy>(a: &mut Accumulator<T>, r: Option<Vec<T>>)
    requires
        call_ensures(Accumulator::<T>::take_chunk, (a,), r),
    ensures
        final(a).size() == old(a).size(),
        old(a).pending().len() < old(a).size() ==> r is None && final(a).pending() == old(
            a,
        ).pending(),
        old(a).pending().len() >= old(a).size() ==> {
            &&& r matches Some(chunk) && chunk@ == old(a).pending().take(old(a).size() as int)
            &&& final(a).pending() == old(a).pending().skip(old(a).size() as int)
        },
{
    if let Some(chunk) = r {
        let n = old(a).size() as int;
        let all = chunk@ + final(a).pending();
        assert(chunk@ =~= all.take(n));
        assert(final(a).pending() =~= all.skip(n));
    }
}

/// All full chunks are handed out at once: in a row, with what goes on waiting
/// behind them, they are the samples that waited; every one is full, and less
/// than one goes on waiting.
pub proof fn lemma_chunks_are_handed_out<T: Copy>(a: &mut Accumulator<T>, r: Vec<Vec<T>>, i: int)
    requires
        old(a).size() > 0,
        call_ensures(Accumulator::<T>::take_chunks, (a,), r),
    ensures
        final(a).size() == old(a).size(),
        flattened(r@.map_values(|c: Vec<T>| c@)) + final(a).pending() == old(a).pending(),
        0 <= i < r@.len() ==> r@[i]@.len() == old(a).size(),
        final(a).pending().len() < old(a).size(),
{
    let all = old(a).pending();
    let n = old(a).size();
    lemma_chunks_lose_nothing(all, n);
    let v = r@.map_values(|c: Vec<T>| c@);
    assert(v.len() == r@.len());
    if 0 <= i < r@.len() {
        assert(v[i] == r@[i]@);
        assert(v[i].len() == n);
    }
}

/// Separated by channel, each channel has its own samples in order; put back in
/// a row, they are the samples that they were.
pub proof fn lemma_channels_are_kept_apart<T: Copy>(
    samples: &Vec<T>,
    channels: usize,
    frames: usize,
    planar: Vec<Vec<T>>,
    back: Vec<T>,
    ch: int,
    f: int,
)
    requires
        channels > 0,
        samples@.len() == frames * channels,
        call_ensures(deinterleave::<T>, (samples, channels, frames), planar),
        call_ensures(interleave::<T>, (&planar, frames), back),
    ensures
        planar@.len() == channels,
        0 <= ch < channels ==> planar@[ch]@.len() == frames,
        0 <= ch < channels && 0 <= f < frames ==> planar@[ch]@[f] == samples@[f * channels + ch],
        back@ == samples@,
{
    let v = planar@.map_values(|c: Vec<T>| c@);
    assert forall|k: int| 0 <= k < channels implies (#[trigger] v[k]) == Seq::new(
        frames as nat,
        |f: int| samples@[place(channels as int, f, k)],
    ) by {
        assert(v[k] == planar@[k]@);
    }
    assert forall|i: int| 0 <= i < back@.len() implies (#[trigger] back@[i]) == v[i
        % channels as int][i / channels as int] by {
        assert(0 <= i % channels as int && i % (channels as int) < channels) by (nonlinear_arith)
            requires
                channels > 0,
        ;
        assert(v[i % channels as int] == planar@[i % channels as int]@);
    }
    lemma_interleave_roundtrip(samples@, v, back@, channels as int, frames as int);
    if 0 <= ch < channels {
        assert(v[ch] == planar@[ch]@);
    }
}

/// Frames that were encoded are numbered from zero on without a gap, counted
/// round; others get no number.
pub proof fn lemma_frames_are_numbered(
    new: FrameCounter,
    c: &mut FrameCounter,
    encoded: bool,
    seq: Option<u32>,
)
    requires
        call_ensures(FrameCounter::new, (), new),
        call_ensures(FrameCounter::number, (c, encoded), seq),
    ensures
        new.next() == 0,
        encoded ==> seq == Some(old(c).next()) && final(c).next() as int == (old(c).next() + 1)
            % 0x1_0000_0000,
        !encoded ==> seq is None && final(c).next() == old(c).next(),
{
}

/// Playback lags behind by twenty milliseconds for each frame that is buffered.
pub proof fn lemma_lag_is_what_is_buffered(occupancy: u32, lost: u64, level: u32, s: AudioStats)
    requires
        occupancy * 20 <= u32::MAX,
        call_ensures(stats, (occupancy, lost, level), s),
    ensures
        s.latency_ms == occupancy * 20,
        s.packets_lost == lost,
        s.level == level,
{
}

/// A tick that lost frames is counted, and logged with how many: the first one
/// and every fiftieth.
pub proof fn lemma_losses_are_watched(
    new: LossMeter,
    m: &mut LossMeter,
    lost: u64,
    log: Option<u64>,
    q: &LossMeter,
    n: u64,
)
    requires
        old(m).underruns() < u64::MAX,
        call_ensures(LossMeter::new, (), new),
        call_ensures(LossMeter::observe, (m, lost), log),
        call_ensures(LossMeter::recorded, (q,), n),
    ensures
        new.last_lost() == 0,
        new.underruns() == 0,
        n == q.underruns(),
        lost <= old(m).last_lost() ==> log is None && final(m).underruns() == old(m).underruns()
            && final(m).last_lost() == old(m).last_lost(),
        lost > old(m).last_lost() ==> {
            let k = old(m).underruns() + 1;
            &&& final(m).last_lost() == lost
            &&& final(m).underruns() == k
            &&& log == if k == 1 || k % 50 == 0 {
                Some((lost - old(m).last_lost()) as u64)
            } else {
                None
            }
        },
{
}

/// On Windows the system's output is tapped in its own way.
pub proof fn lemma_backend_of_the_system(windows: bool, b: super::capture::Backend)
    requires
        call_ensures(capture_backend, (windows,), b),
    ensures
        windows ==> b == super::capture::Backend::Wasapi,
        !windows ==> b == super::capture::Backend::Cpal,
{
}

/// A letter is the lower-case letter `l`, in either case.
pub open spec fn is_letter(c: char, l: char) -> bool {
    c == l || ('A' <= c && c <= 'Z' && c as int + 32 == l as int)
}

/// A text has a lower-case word at a place, in either case.
pub open spec fn has_word(s: Seq<char>, i: int, w: Seq<char>) -> bool {
    0 <= i && i + w.len() <= s.len() && forall|j: int|
        0 <= j < w.len() ==> is_letter(#[trigger] s[i + j], w[j])
}

/// No letter of a word is in upper case.
pub open spec fn in_lower_case(w: Seq<char>) -> bool {
    forall|j: int| 0 <= j < w.len() ==> !('A' <= #[trigger] w[j] && w[j] <= 'Z')
}

/// A word stands in a text in lower case where it stands in it in either case.
proof fn lemma_lowered_word(s: Seq<char>, i: int, w: Seq<char>)
    requires
        in_lower_case(w),
    ensures
        stands_at(lowered(s), i, w) <==> has_word(s, i, w),
{
    let l = lowered(s);
    if 0 <= i && i + w.len() <= s.len() {
        assert forall|j: int| 0 <= j < w.len() implies (is_letter(#[trigger] s[i + j], w[j]) <==> l[i
            + j] == w[j]) by {
            let c = s[i + j];
            assert(l[i + j] == ascii_lower(c));
            if 'A' <= c && c <= 'Z' {
                assert(ascii_lower(c) as int == c as int + 32);
                assert(!('A' <= w[j] && w[j] <= 'Z'));
            }
        }
        if has_word(s, i, w) {
            assert forall|j: int| 0 <= j < w.len() implies l.subrange(i, i + w.len())[j] == w[j] by {
                assert(is_letter(s[i + j], w[j]));
            }
            assert(l.subrange(i, i + w.len()) =~= w);
        }
        if stands_at(l, i, w) {
            assert forall|j: int| 0 <= j < w.len() implies is_letter(#[trigger] s[i + j], w[j]) by {
                assert(l.subrange(i, i + w.len())[j] == l[i + j]);
            }
        }
    }
}

/// A source is taken for a tap of the system's output where its name ends in
/// `.monitor`, begins with `monitor of`, or holds `sink` or `_output.`, in
/// upper or lower case, and nowhere else.
pub proof fn lemma_names_of_monitors(name: &str, b: bool)
    requires
        call_ensures(is_monitor_name, (name,), b),
    ensures
        b <==> {
            ||| has_word(name@, name@.len() - 8, ".monitor"@)
            ||| has_word(name@, 0, "monitor of"@)
            ||| exists|i: int| has_word(name@, i, "sink"@)
            ||| exists|i: int| has_word(name@, i, "_output."@)
        },
{
    reveal_strlit(".monitor");
    reveal_strlit("monitor of");
    reveal_strlit("sink");
    reveal_strlit("_output.");
    let s = name@;
    assert(lowered(s).len() == s.len());
    lemma_lowered_word(s, s.len() - 8, ".monitor"@);
    lemma_lowered_word(s, 0, "monitor of"@);
    lemma_contained(s, "sink"@);
    lemma_contained(s, "_output."@);
}

/// A word is held somewhere in lower case where it is in either case.
proof fn lemma_contained(s: Seq<char>, w: Seq<char>)
    requires
        in_lower_case(w),
    ensures
        contains_text(lowered(s), w) <==> exists|i: int| has_word(s, i, w),
{
    if contains_text(lowered(s), w) {
        let i = choose|i: int| stands_at(lowered(s), i, w);
        lemma_lowered_word(s, i, w);
        assert(has_word(s, i, w));
    }
    if exists|i: int| has_word(s, i, w) {
        let i = choose|i: int| has_word(s, i, w);
        lemma_lowered_word(s, i, w);
        assert(stands_at(lowered(s), i, w));
    }
}

/// An input is a tap of the system's output where its name or its id says so,
/// or where it is virtual.
pub proof fn lemma_monitors(
    name: &str,
    id: Option<&str>,
    is_virtual: bool,
    b: bool,
    by_name: bool,
    by_id: bool,
)
    requires
        call_ensures(is_monitor_device, (name, id, is_virtual), b),
        call_ensures(is_monitor_name, (name,), by_name),
        id matches Some(i) ==> call_ensures(is_monitor_name, (i,), by_id),
    ensures
        b <==> by_name || is_virtual || (id is Some && by_id),
{
}

/// Just the devices with an id can be selected, in order; the default one is
/// marked.
pub proof fn lemma_selectable_devices(
    found: &Vec<FoundDevice>,
    default_id: &Option<String>,
    r: Vec<AudioDevice>,
    i: int,
)
    requires
        call_ensures(list_devices, (found, default_id), r),
    ensures
        r@.len() <= found@.len(),
        (forall|k: int| 0 <= k < found@.len() ==> (#[trigger] found@[k]).id is Some) ==> {
            &&& r@.len() == found@.len()
            &&& 0 <= i < r@.len() ==> {
                &&& r@[i].id@ == found@[i].id->0@
                &&& r@[i].name@ == found@[i].name@
                &&& r@[i].is_monitor == found@[i].is_monitor
                &&& r@[i].is_default <==> (*default_id matches Some(d) && d@ == r@[i].id@)
            }
        },
        (forall|k: int| 0 <= k < found@.len() ==> (#[trigger] found@[k]).id is None) ==> r@.len()
            == 0,
        0 <= i < found@.len() && found@[i].id is Some ==> exists|k: int|
            0 <= k < r@.len() && (#[trigger] r@[k]).id@ == found@[i].id->0@ && r@[k].name@
                == found@[i].name@ && r@[k].is_monitor == found@[i].is_monitor,
{
    let d = crate::text::opt_view(*default_id);
    lemma_selected(found@, d, i);
    let v = views(r@);
    assert(v.len() == r@.len());
    assert forall|k: int| 0 <= k < r@.len() implies #[trigger] v[k] == r@[k]@ by {}
    if 0 <= i < found@.len() && found@[i].id is Some {
        let k = choose|k: int|
            0 <= k < v.len() && (#[trigger] v[k]).id == found@[i].id->0@ && v[k].name
                == found@[i].name@ && v[k].is_monitor == found@[i].is_monitor;
        assert(v[k] == r@[k]@);
    }
    if 0 <= i < r@.len() {
        assert(v[i] == r@[i]@);
    }
}

/// What can be selected of the devices found.
proof fn lemma_selected(found: Seq<FoundDevice>, d: Option<Seq<char>>, i: int)
    ensures
        ({
            let v = selectable(found, d);
            &&& v.len() <= found.len()
            &&& (forall|k: int| 0 <= k < found.len() ==> (#[trigger] found[k]).id is Some) ==> {
                &&& v.len() == found.len()
                &&& 0 <= i < v.len() ==> {
                    &&& v[i].id == found[i].id->0@
                    &&& v[i].name == found[i].name@
                    &&& v[i].is_monitor == found[i].is_monitor
                    &&& v[i].is_default <==> d == Some(v[i].id)
                }
            }
            &&& (forall|k: int| 0 <= k < found.len() ==> (#[trigger] found[k]).id is None)
                ==> v.len() == 0
            &&& 0 <= i < found.len() && found[i].id is Some ==> exists|k: int|
                0 <= k < v.len() && (#[trigger] v[k]).id == found[i].id->0@ && v[k].name
                    == found[i].name@ && v[k].is_monitor == found[i].is_monitor
        }),
    decreases found.len(),
{
    if found.len() > 0 {
        let init = found.drop_last();
        let v = selectable(found, d);
        let u = selectable(init, d);
        lemma_selected(init, d, i);
        assert forall|k: int| 0 <= k < init.len() implies #[trigger] init[k] == found[k] by {}
        assert(found[found.len() - 1] == found.last());
        if forall|k: int| 0 <= k < found.len() ==> (#[trigger] found[k]).id is Some {
            assert forall|k: int| 0 <= k < init.len() implies (#[trigger] init[k]).id is Some by {
                assert(found[k].id is Some);
            }
        }
        if forall|k: int| 0 <= k < found.len() ==> (#[trigger] found[k]).id is None {
            assert forall|k: int| 0 <= k < init.len() implies (#[trigger] init[k]).id is None by {
                assert(found[k].id is None);
            }
        }
        if 0 <= i < found.len() && found[i].id is Some {
            if i < init.len() {
                assert(init[i] == found[i]);
                let k = choose|k: int|
                    0 <= k < u.len() && (#[trigger] u[k]).id == init[i].id->0@ && u[k].name
                        == init[i].name@ && u[k].is_monitor == init[i].is_monitor;
                assert(v[k] == u[k]);
            } else {
                assert(v[v.len() - 1].id == found[i].id->0@);
            }
        }
    }
}

/// Captured bytes are taken as samples of four bytes, the last counting most;
/// what is left of a sample waits.
pub proof fn lemma_bytes_become_samples(queue: &mut VecDeque<u8>, samples: Vec<u32>, j: int)
    requires
        call_ensures(take_samples, (queue,), samples),
    ensures
        ({
            let q = old(queue)@;
            &&& samples@.len() * 4 <= q.len() < samples@.len() * 4 + 4
            &&& 0 <= j < samples@.len() ==> samples@[j] == q[4 * j] + 256 * (q[4 * j + 1] + 256 * (
            q[4 * j + 2] + 256 * q[4 * j + 3]))
            &&& final(queue)@ == q.skip(4 * samples@.len() as int)
        }),
{
}

/// A format is taken where a range of floating-point samples holds its rate
/// and has just as many channels.
pub proof fn lemma_supported_formats(ranges: &Vec<OutputRange>, wanted: AudioFormat, b: bool, i: int)
    requires
        call_ensures(supports_config, (ranges, wanted), b),
    ensures
        0 <= i < ranges@.len() && ranges@[i].is_float && ranges@[i].channels == wanted.channels
            && ranges@[i].min_sample_rate <= wanted.sample_rate <= ranges@[i].max_sample_rate ==> b,
        b ==> exists|k: int|
            0 <= k < ranges@.len() && (#[trigger] ranges@[k]).is_float && ranges@[k].channels
                == wanted.channels && ranges@[k].min_sample_rate <= wanted.sample_rate
                <= ranges@[k].max_sample_rate,
{
    if b {
        let k = choose|k: int|
            0 <= k < ranges@.len() && super::playback::range_fits(#[trigger] ranges@[k], wanted);
        assert(ranges@[k].is_float);
    }
    if 0 <= i < ranges@.len() {
        assert(super::playback::range_fits(ranges@[i], wanted) ==> b);
    }
}

/// Where the wanted format is not taken, the default one is used if it is of
/// floating-point samples, and otherwise the one at the highest rate on offer.
pub proof fn lemma_fallback_format(
    default: Option<DefaultOutput>,
    ranges: &Vec<OutputRange>,
    r: Option<AudioFormat>,
    none: Option<AudioFormat>,
    i: int,
)
    requires
        call_ensures(fallback_config, (default, Some(ranges)), r),
        call_ensures(fallback_config, (default, None), none),
    ensures
        default is Some && default->0.is_float ==> r == Some(default->0.format) && none == r,
        !(default is Some && default->0.is_float) ==> {
            &&& none is None
            &&& 0 <= i < ranges@.len() && ranges@[i].is_float ==> r is Some && r->0.sample_rate
                >= ranges@[i].max_sample_rate
            &&& r is Some ==> exists|k: int|
                0 <= k < ranges@.len() && (#[trigger] ranges@[k]).is_float && r->0.sample_rate
                    == ranges@[k].max_sample_rate && r->0.channels == ranges@[k].channels
        },
{
    if !(default is Some && default->0.is_float) && r is Some {
        let k = choose|k: int|
            super::playback::is_best_range(ranges@, k) && r->0 == super::playback::top_format(
                ranges@[k],
            );
        assert(ranges@[k].is_float);
    }
}

/// An output is opened in the wanted format where the device takes it or could
/// not be asked; else as it can be, and with an error where it cannot at all.
pub proof fn lemma_output_format(
    wanted: AudioFormat,
    ranges: &Vec<OutputRange>,
    default: Option<DefaultOutput>,
    fits: bool,
    other: Option<AudioFormat>,
    r: Result<AudioFormat, AudioError>,
    unasked: Result<AudioFormat, AudioError>,
)
    requires
        call_ensures(supports_config, (ranges, wanted), fits),
        call_ensures(fallback_config, (default, Some(ranges)), other),
        call_ensures(output_config, (wanted, Some(ranges), default), r),
        call_ensures(output_config, (wanted, None, default), unasked),
    ensures
        unasked == Ok::<AudioFormat, AudioError>(wanted),
        fits ==> r == Ok::<AudioFormat, AudioError>(wanted),
        !fits && other is Some ==> r == Ok::<AudioFormat, AudioError>(other->0),
        !fits && other is None ==> r == Err::<AudioFormat, AudioError>(
            AudioError::NoSupportedConfig,
        ),
{
    if !fits && !(default is Some && default->0.is_float) {
        if other is Some {
            let k = choose|k: int|
                super::playback::is_best_range(ranges@, k) && other->0
                    == super::playback::top_format(ranges@[k]);
            assert(ranges@[k].is_float);
            if let Ok(f) = r {
                let l = choose|l: int|
                    super::playback::is_best_range(ranges@, l) && f == super::playback::top_format(
                        ranges@[l],
                    );
                assert(ranges@[l].is_float);
                assert(k == l);
            }
        } else if let Ok(f) = r {
            let l = choose|l: int|
                super::playback::is_best_range(ranges@, l) && f == super::playback::top_format(
                    ranges@[l],
                );
            assert(ranges@[l].is_float);
        }
    }
}

/// Samples are converted where the formats differ; the ring holds half a
/// second of them, and at least one.
pub proof fn lemma_output_is_fed(
    wanted: AudioFormat,
    opened: AudioFormat,
    converts: bool,
    ring: usize,
)
    requires
        call_ensures(needs_conversion, (wanted, opened), converts),
        call_ensures(ring_capacity, (wanted,), ring),
    ensures
        converts <==> wanted.channels != opened.channels || wanted.sample_rate
            != opened.sample_rate,
        ring >= 1,
        2 <= wanted.sample_rate * wanted.channels <= usize::MAX ==> ring * 2 <= wanted.sample_rate
            * wanted.channels < ring * 2 + 2,
{
}

/// Of many like events the first is logged, and then one in so many.
pub proof fn lemma_log_is_limited(
    every: u64,
    new: LogLimiter,
    l: &mut LogLimiter,
    log: Option<u64>,
    q: &LogLimiter,
    n: u64,
)
    requires
        every > 0,
        old(l).count() < u64::MAX,
        call_ensures(LogLimiter::new, (every,), new),
        call_ensures(LogLimiter::record, (l,), log),
        call_ensures(LogLimiter::recorded, (q,), n),
    ensures
        new.count() == 0,
        new.every() == every,
        n == q.count(),
        final(l).count() == old(l).count() + 1,
        final(l).every() == old(l).every(),
        log is Some <==> old(l).count() == 0 || (old(l).count() + 1) % (old(l).every() as int)
            == 0,
        log matches Some(k) ==> k == old(l).count() + 1,
{
}

/// A push that lost samples is counted, and logged with how many now and then.
pub proof fn lemma_lost_samples_are_logged(
    l: &mut LogLimiter,
    pushed: usize,
    len: usize,
    log: Option<(usize, u64)>,
)
    requires
        pushed <= len,
        old(l).count() < u64::MAX,
        call_ensures(record_push, (l, pushed, len), log),
    ensures
        final(l).every() == old(l).every(),
        pushed == len ==> log is None && final(l).count() == old(l).count(),
        pushed < len ==> final(l).count() == old(l).count() + 1,
        pushed < len ==> (log is Some <==> old(l).count() == 0 || (old(l).count() + 1) % (old(
            l,
        ).every() as int) == 0),
        log matches Some(k) ==> k.0 == len - pushed && k.1 == old(l).count() + 1,
{
}

/// The virtual clock takes ten milliseconds of samples at a time, from what is
/// queued; where there are too few it takes them all, and counts that.
pub proof fn lemma_virtual_clock(
    format: AudioFormat,
    n: usize,
    m: &mut DummyMetrics,
    p: &mut DummyMetrics,
    samples: usize,
    r: &mut DummyMetrics,
    new: DummyMetrics,
)
    requires
        (format.sample_rate / 100) * format.channels <= usize::MAX,
        call_ensures(tick_samples, (format,), n),
        old(m)@.ticks < u64::MAX,
        old(m)@.underruns < u64::MAX,
        old(m)@.queued >= 0,
        call_ensures(DummyMetrics::tick, (m, n), ()),
        old(p)@.received + samples <= usize::MAX,
        old(p)@.queued + samples <= usize::MAX,
        call_ensures(DummyMetrics::push, (p, samples), ()),
        call_ensures(DummyMetrics::restart, (r,), ()),
        call_ensures(DummyMetrics::new, (), new),
    ensures
        n == (format.sample_rate / 100) * format.channels,
        old(m)@.queued >= n ==> final(m)@ == (MetricsView {
            queued: old(m)@.queued - n,
            ticks: old(m)@.ticks + 1,
            ..old(m)@
        }),
        old(m)@.queued < n ==> final(m)@ == (MetricsView {
            queued: 0,
            underruns: old(m)@.underruns + 1,
            ticks: old(m)@.ticks + 1,
            ..old(m)@
        }),
        final(p)@ == (MetricsView {
            received: old(p)@.received + samples,
            queued: old(p)@.queued + samples,
            ..old(p)@
        }),
        final(r)@ == (MetricsView {
            received: old(r)@.received,
            queued: 0,
            underruns: 0,
            ticks: 0,
        }),
        new@ == (MetricsView { received: 0, queued: 0, underruns: 0, ticks: 0 }),
{
    assert(format.sample_rate * 10 / 1000 == format.sample_rate / 100);
}

/// The counters are read as they are.
pub proof fn lemma_counters_are_read(
    m: &DummyMetrics,
    received: usize,
    underruns: u64,
    ticks: u64,
    queued: usize,
)
    requires
        call_ensures(DummyMetrics::samples_received, (m,), received),
        call_ensures(DummyMetrics::underrun_ticks, (m,), underruns),
        call_ensures(DummyMetrics::clock_ticks, (m,), ticks),
        call_ensures(DummyMetrics::queued_samples, (m,), queued),
    ensures
        received == m@.received,
        underruns == m@.underruns,
        ticks == m@.ticks,
        queued == m@.queued,
{
}

/// What the user is told of an audio failure.
pub proof fn lemma_audio_failures_are_told(e: &AudioError, s: String)
    requires
        call_ensures(AudioError::to_string, (e,), s),
    ensures
        *e is DeviceNotFound ==> s@ == "requested device not found"@,
        *e is BackendClosed ==> s@ == "audio backend thread closed unexpectedly"@,
        *e is NoSupportedConfig ==> s@ == "no supported f32 output configuration"@,
{
}

/// Devices are told as they are, in order; a list that could not be had is
/// empty.
pub proof fn lemma_devices_are_told(
    devices: Vec<AudioDevice>,
    r: Vec<AudioDeviceInfo>,
    capture: Option<Vec<AudioDevice>>,
    playback: Option<Vec<AudioDevice>>,
    both: (Vec<AudioDeviceInfo>, Vec<AudioDeviceInfo>),
    i: int,
)
    requires
        call_ensures(to_ipc_devices, (devices,), r),
        call_ensures(enumerate_devices, (capture, playback), both),
    ensures
        r@.len() == devices@.len(),
        0 <= i < r@.len() ==> r@[i].id@ == devices@[i].id@ && r@[i].name@ == devices@[i].name@
            && r@[i].is_monitor == devices@[i].is_monitor && r@[i].is_default
            == devices@[i].is_default,
        capture is None ==> both.0@.len() == 0,
        playback is None ==> both.1@.len() == 0,
        capture matches Some(c) ==> both.0@.len() == c@.len() && (0 <= i < c@.len() ==> both.0@[i]@
            == c@[i]@),
        playback matches Some(c) ==> both.1@.len() == c@.len() && (0 <= i < c@.len()
            ==> both.1@[i]@ == c@[i]@),
{
    assert(device_views(r@).len() == r@.len());
    assert(device_views(both.0@).len() == both.0@.len());
    assert(device_views(both.1@).len() == both.1@.len());
    if 0 <= i < r@.len() {
        assert(device_views(r@)[i] == r@[i]@);
    }
    if 0 <= i < both.0@.len() {
        assert(device_views(both.0@)[i] == both.0@[i]@);
    }
    if 0 <= i < both.1@.len() {
        assert(device_views(both.1@)[i] == both.1@[i]@);
    }
}

/// The codec runs in stereo from two channels on; audio is sent where the user
/// wants it; a stream is played at 48 kHz, and another rate is noticed.
pub proof fn lemma_stream_settings(
    channels: u16,
    stereo: bool,
    settings: &AudioSettings,
    sends: bool,
    c: u8,
    f: AudioFormat,
    rate: u32,
    mismatch: bool,
)
    requires
        call_ensures(is_stereo, (channels,), stereo),
        call_ensures(wants_sender, (settings,), sends),
        call_ensures(playback_format, (c,), f),
        call_ensures(is_rate_mismatch, (rate,), mismatch),
    ensures
        stereo <==> channels >= 2,
        sends <==> settings.send,
        f.sample_rate == 48_000,
        f.channels == c,
        mismatch <==> rate != 48_000,
{
}

/// A copy of the settings is the same settings.
pub proof fn lemma_settings_are_copied(a: &AudioSettings, b: AudioSettings)
    requires
        call_ensures(<AudioSettings as Clone>::clone, (a,), b),
    ensures
        b@ == a@,
        b.send == a.send && b.receive == a.receive,
        b.bitrate == a.bitrate && b.buffer_ms == a.buffer_ms,
{
    assert(b@.send == a@.send && b@.receive == a@.receive);
    assert(b@.bitrate == a@.bitrate && b@.buffer_ms == a@.buffer_ms);
}

} // verus!
