//! Reorders and deduplicates arriving audio frames by sequence number and
//! plays them back at one frame per tick.
//!
//! A tick has up to three steps. [`JitterBuffer::take_frame`] says what to
//! play: silence, a buffered frame, or a concealment for a missing one. Once
//! the frame has been decoded, [`JitterBuffer::advance`] moves on to the next
//! sequence number and tells every [`SAMPLE_EVERY_N_POPS`] ticks how full the
//! buffer is. The drift control loop judges that, and
//! [`JitterBuffer::correct`] applies its verdict.

use std::collections::HashMap;
use vstd::prelude::*;
use vstd::std_specs::iter::IteratorSpec;

verus! {

broadcast use vstd::std_specs::hash::group_hash_axioms;

/// Milliseconds of audio in one frame.
pub const FRAME_MS: u32 = 20;

/// Playback delay unless configured otherwise, in milliseconds.
pub const DEFAULT_TARGET_MS: u32 = 80;

/// Smallest playback delay, in milliseconds.
pub const MIN_BUFFER_MS: u32 = 20;

/// Largest playback delay, in milliseconds.
pub const MAX_BUFFER_MS: u32 = 200;

/// How many frames ahead of the next one an arrival may be. Anything further
/// is implausible rather than jitter, and would let memory grow.
pub const MAX_WINDOW_FRAMES: u32 = 40;

/// After this many concealed frames in a row, jump ahead to what has arrived.
pub const MAX_CONSECUTIVE_PLC: u32 = 10;

/// How often, in ticks, occupancy is sampled for drift correction: twice a
/// second. Sampling faster than the buffer can respond would overcorrect.
pub const SAMPLE_EVERY_N_POPS: u32 = 25;

/// A drift correction. The buffer is popped at a fixed cadence of one frame
/// per tick, so the only way to steer its occupancy is to consume a frame
/// more or fewer than the cadence.
#[derive(Clone, Copy, Debug, PartialEq, Eq, Structural)]
pub enum DriftCorrection {
    /// above target: skip one frame
    Drop,
    /// below target: hold one frame, replayed by concealment
    Stretch,
}

/// What one tick plays.
#[derive(Debug)]
pub enum Playout {
    /// nothing has arrived, or the buffer is still filling
    Silence,
    /// a frame that arrived
    Frame { seq: u32, payload: Vec<u8> },
    /// a frame that is missing
    Conceal { seq: u32 },
}

/// What one tick plays, as a value.
pub enum PlayoutView {
    Silence,
    Frame { seq: u32, payload: Seq<u8> },
    Conceal { seq: u32 },
}

impl View for Playout {
    type V = PlayoutView;

    open spec fn view(&self) -> PlayoutView {
        match self {
            Playout::Silence => PlayoutView::Silence,
            Playout::Frame { seq, payload } => PlayoutView::Frame { seq: *seq, payload: payload@ },
            Playout::Conceal { seq } => PlayoutView::Conceal { seq: *seq },
        }
    }
}

/// How many frames `seq` lies ahead of `next`. Sequence numbers wrap, so a
/// frame just behind `next` lies almost a whole turn ahead of it.
pub open spec fn ahead(seq: u32, next: u32) -> int {
    if seq >= next {
        seq - next
    } else {
        seq - next + 0x1_0000_0000
    }
}

/// The sequence number after `seq`.
pub open spec fn succ(seq: u32) -> u32 {
    if seq == u32::MAX {
        0
    } else {
        (seq + 1) as u32
    }
}

/// `k` is the member of `keys` that comes first from `next` on.
pub open spec fn is_nearest(keys: Set<u32>, next: u32, k: u32) -> bool {
    keys.contains(k) && forall|j: u32| keys.contains(j) ==> ahead(k, next) <= ahead(j, next)
}

/// The state of a jitter buffer.
pub struct JitterView {
    /// frames that arrived and were not played yet
    pub packets: Map<u32, Seq<u8>>,
    /// the sequence number the next tick plays; `None` before the first frame
    pub next_seq: Option<u32>,
    /// how many frames must be buffered before playback starts
    pub startup_frames: u32,
    /// playback has started
    pub started: bool,
    /// frames concealed since the last one that arrived
    pub consecutive_plc: u32,
    /// the next concealment was asked for by a correction
    pub stretch_pending: bool,
    /// ticks played, modulo 2^32
    pub pop_count: u32,
    /// frames that never arrived in time
    pub packets_lost: u64,
    /// frames skipped by corrections
    pub correction_drops: u64,
}

impl JitterView {
    /// A buffer that nothing has arrived at.
    pub open spec fn fresh(startup_frames: u32) -> JitterView {
        JitterView {
            packets: Map::empty(),
            next_seq: None,
            startup_frames,
            started: false,
            consecutive_plc: 0,
            stretch_pending: false,
            pop_count: 0,
            packets_lost: 0,
            correction_drops: 0,
        }
    }

    /// The buffer with a frame added, unless one with that number is there.
    pub open spec fn keep(self, seq: u32, payload: Seq<u8>) -> JitterView {
        if self.packets.contains_key(seq) {
            self
        } else {
            JitterView { packets: self.packets.insert(seq, payload), ..self }
        }
    }

    /// The buffer without the frames too far ahead of `first`.
    pub open spec fn trim(self, first: u32) -> JitterView {
        JitterView {
            packets: Map::new(
                |s: u32| self.packets.contains_key(s) && ahead(s, first) <= MAX_WINDOW_FRAMES,
                |s: u32| self.packets[s],
            ),
            ..self
        }
    }

    /// The buffer after a frame arrived.
    pub open spec fn push(self, seq: u32, payload: Seq<u8>) -> JitterView {
        match self.next_seq {
            None => JitterView {
                next_seq: Some(seq),
                packets: self.packets.insert(seq, payload),
                ..self
            },
            Some(next) => if !self.started {
                if 0 < ahead(next, seq) <= MAX_WINDOW_FRAMES {
                    // earlier than every frame so far: playback starts there,
                    // and what lies too far ahead of it is dropped
                    JitterView { next_seq: Some(seq), ..self.keep(seq, payload).trim(seq) }
                } else if ahead(seq, next) <= MAX_WINDOW_FRAMES {
                    self.keep(seq, payload)
                } else {
                    self
                }
            } else if ahead(seq, next) <= MAX_WINDOW_FRAMES {
                self.keep(seq, payload)
            } else if self.stalled() {
                // the source paused and resumed elsewhere: fill up again
                JitterView {
                    next_seq: Some(seq),
                    packets: self.packets.insert(seq, payload),
                    started: false,
                    consecutive_plc: 0,
                    ..self
                }
            } else {
                self
            },
        }
    }

    /// Nothing is buffered and concealment has gone on for long.
    pub open spec fn stalled(self) -> bool {
        self.consecutive_plc >= MAX_CONSECUTIVE_PLC && self.packets.dom() =~= Set::empty()
    }

    /// The next tick plays silence: nothing arrived, or too little to start.
    pub open spec fn silent(self) -> bool {
        self.next_seq is None || (!self.started && (self.packets.len() as u32) < self.startup_frames)
    }

    /// The next tick gives up concealing and jumps to what has arrived.
    pub open spec fn catches_up(self) -> bool {
        self.consecutive_plc > MAX_CONSECUTIVE_PLC && !(self.packets.dom() =~= Set::empty())
    }

    /// The sequence number that the next tick plays.
    pub open spec fn playing(self) -> u32 {
        if self.catches_up() {
            choose|k: u32| is_nearest(self.packets.dom(), self.next_seq->0, k)
        } else {
            self.next_seq->0
        }
    }

    /// What the next tick plays.
    pub open spec fn playout(self) -> PlayoutView {
        if self.silent() {
            PlayoutView::Silence
        } else if self.packets.contains_key(self.playing()) {
            PlayoutView::Frame { seq: self.playing(), payload: self.packets[self.playing()] }
        } else {
            PlayoutView::Conceal { seq: self.playing() }
        }
    }

    /// The buffer once the frame to play was taken out. A missing frame
    /// counts as lost unless a correction asked for the concealment.
    pub open spec fn take(self) -> JitterView {
        if self.silent() {
            self
        } else if self.packets.contains_key(self.playing()) {
            JitterView {
                packets: self.packets.remove(self.playing()),
                started: true,
                consecutive_plc: 0,
                stretch_pending: false,
                ..self
            }
        } else if self.stretch_pending {
            JitterView { started: true, stretch_pending: false, ..self }
        } else {
            JitterView {
                started: true,
                consecutive_plc: (self.consecutive_plc + 1) as u32,
                packets_lost: (self.packets_lost + 1) as u64,
                ..self
            }
        }
    }

    /// The buffer once frame `seq` was played.
    pub open spec fn advance(self, seq: u32) -> JitterView {
        JitterView { next_seq: Some(succ(seq)), pop_count: succ(self.pop_count), ..self }
    }

    /// The control loop is due a sample of the occupancy.
    pub open spec fn sample_due(self) -> bool {
        self.pop_count % SAMPLE_EVERY_N_POPS == 0
    }

    /// The buffer once a correction was applied after playing frame `seq`.
    pub open spec fn correct(self, seq: u32, c: DriftCorrection) -> JitterView {
        match c {
            DriftCorrection::Drop => JitterView {
                packets: self.packets.remove(self.next_seq->0),
                next_seq: Some(succ(self.next_seq->0)),
                correction_drops: (self.correction_drops + 1) as u64,
                ..self
            },
            DriftCorrection::Stretch => JitterView {
                next_seq: Some(seq),
                stretch_pending: true,
                ..self
            },
        }
    }

    /// The buffer after a whole tick in which the decoder did its part and
    /// the control loop, where it was asked, answered `c`.
    pub open spec fn tick(self, c: Option<DriftCorrection>) -> JitterView {
        if self.silent() {
            self
        } else {
            let played = self.take().advance(self.playing());
            match c {
                Some(c) if played.sample_due() => played.correct(self.playing(), c),
                _ => played,
            }
        }
    }

    /// Frames are buffered only from some first arrival on.
    pub open spec fn wf(self) -> bool {
        self.next_seq is None ==> self.packets =~= Map::empty() && !self.started
    }

    /// The counters have room for one more tick.
    pub open spec fn countable(self) -> bool {
        self.consecutive_plc < u32::MAX && self.packets_lost < u64::MAX
    }
}

/// Receive-side jitter buffer: takes arriving frames in whatever order and
/// timing the network delivers them, and hands them out at a steady rate with
/// reordering, loss concealment and duplicate rejection.
pub struct JitterBuffer {
    packets: HashMap<u32, Vec<u8>>,
    next_seq: Option<u32>,
    startup_frames: u32,
    started: bool,
    consecutive_plc: u32,
    stretch_pending: bool,
    pop_count: u32,
    packets_lost: u64,
    correction_drops: u64,
}

impl View for JitterBuffer {
    type V = JitterView;

    closed spec fn view(&self) -> JitterView {
        JitterView {
            packets: self.packets@.map_values(|p: Vec<u8>| p@),
            next_seq: self.next_seq,
            startup_frames: self.startup_frames,
            started: self.started,
            consecutive_plc: self.consecutive_plc,
            stretch_pending: self.stretch_pending,
            pop_count: self.pop_count,
            packets_lost: self.packets_lost,
            correction_drops: self.correction_drops,
        }
    }
}

/// How many frames a playback delay asks for before playback starts.
pub open spec fn startup_frames(target_ms: u32) -> u32 {
    if target_ms < FRAME_MS {
        1
    } else {
        target_ms / FRAME_MS
    }
}

impl JitterBuffer {
    /// An empty buffer that starts playback once `target_ms` milliseconds
    /// have arrived.
    pub fn new(target_ms: u32) -> (jb: JitterBuffer)
        ensures
            jb@ == JitterView::fresh(startup_frames(target_ms)),
    {
        let frames: u32 = target_ms / FRAME_MS;
        let jb = JitterBuffer {
            packets: HashMap::new(),
            next_seq: None,
            startup_frames: if frames < 1 { 1 } else { frames },
            started: false,
            consecutive_plc: 0,
            stretch_pending: false,
            pop_count: 0,
            packets_lost: 0,
            correction_drops: 0,
        };
        assert(jb@.packets =~= Map::empty());
        jb
    }

    /// Number of frames that arrived and were not played yet.
    pub fn occupancy(&self) -> (n: u32)
        ensures
            n == self@.packets.len() as u32,
    {
        proof {
            self.lemma_packets_len();
        }
        let n: usize = self.packets.len();
        #[verifier::truncate]
        let n32: u32 = n as u32;
        n32
    }

    /// The frames in the map and in the view are equally many.
    proof fn lemma_packets_len(&self)
        ensures
            self@.packets.dom() == self.packets@.dom(),
            self@.packets.len() == self.packets@.len(),
    {
        assert(self@.packets.dom() =~= self.packets@.dom());
    }

    /// Number of frames that never arrived in time.
    pub fn packets_lost(&self) -> (n: u64)
        ensures
            n == self@.packets_lost,
    {
        self.packets_lost
    }

    /// Number of frames concealed since the last one that arrived.
    pub fn consecutive_plc(&self) -> (n: u32)
        ensures
            n == self@.consecutive_plc,
    {
        self.consecutive_plc
    }

    /// Number of frames that corrections skipped.
    pub fn correction_drops(&self) -> (n: u64)
        ensures
            n == self@.correction_drops,
    {
        self.correction_drops
    }

    /// The sequence number that the next tick plays, if any frame arrived.
    pub fn next_seq(&self) -> (s: Option<u32>)
        ensures
            s == self@.next_seq,
    {
        self.next_seq
    }

    /// Whether playback has started.
    pub fn started(&self) -> (b: bool)
        ensures
            b == self@.started,
    {
        self.started
    }

    /// Adds a frame, unless one with that number is there.
    fn keep(&mut self, seq: u32, payload: &[u8])
        ensures
            final(self)@ == old(self)@.keep(seq, payload@),
    {
        if !self.packets.contains_key(&seq) {
            let copy: Vec<u8> = vstd::slice::slice_to_vec(payload);
            self.packets.insert(seq, copy);
        }
        assert(self@.packets =~= old(self)@.keep(seq, payload@).packets);
    }

    /// Drops the frames too far ahead of `first`.
    fn trim(&mut self, first: u32)
        ensures
            final(self)@ == old(self)@.trim(first),
    {
        let mut kept: HashMap<u32, Vec<u8>> = HashMap::new();
        let mut d: u32 = 0;
        while d <= MAX_WINDOW_FRAMES
            invariant
                d <= MAX_WINDOW_FRAMES + 1,
                self.packets@ == old(self).packets@.remove_keys(
                    Set::new(|s: u32| ahead(s, first) < d),
                ),
                self@ == (JitterView { packets: self@.packets, ..old(self)@ }),
                forall|s: u32| #[trigger]
                    kept@.contains_key(s) <==> old(self).packets@.contains_key(s) && ahead(s, first)
                        < d,
                forall|s: u32| #[trigger]
                    kept@.contains_key(s) ==> kept@[s] == old(self).packets@[s],
            decreases MAX_WINDOW_FRAMES + 1 - d,
        {
            let s: u32 = first.wrapping_add(d);
            assert(ahead(s, first) == d);
            assert forall|t: u32| ahead(t, first) == d implies t == s by {}
            if let Some(payload) = self.packets.remove(&s) {
                kept.insert(s, payload);
            }
            d = d + 1;
            assert(self.packets@ =~= old(self).packets@.remove_keys(
                Set::new(|s: u32| ahead(s, first) < d),
            ));
        }
        self.packets = kept;
        assert(self@.packets =~= old(self)@.trim(first).packets);
    }

    /// Takes in an arrived frame. Duplicates, frames already played, and
    /// frames implausibly far in the future are dropped.
    pub fn push(&mut self, seq: u32, payload: &[u8])
        ensures
            final(self)@ == old(self)@.push(seq, payload@),
    {
        let next: u32 = match self.next_seq {
            None => {
                self.next_seq = Some(seq);
                let copy: Vec<u8> = vstd::slice::slice_to_vec(payload);
                self.packets.insert(seq, copy);
                assert(self@.packets =~= old(self)@.push(seq, payload@).packets);
                return;
            },
            Some(next) => next,
        };
        let forward: u32 = seq.wrapping_sub(next);
        assert(forward == ahead(seq, next));
        if !self.started {
            let backward: u32 = next.wrapping_sub(seq);
            assert(backward == ahead(next, seq));
            if backward != 0 && backward <= MAX_WINDOW_FRAMES {
                self.next_seq = Some(seq);
                self.keep(seq, payload);
                self.trim(seq);
            } else if forward <= MAX_WINDOW_FRAMES {
                self.keep(seq, payload);
            }
        } else if forward <= MAX_WINDOW_FRAMES {
            self.keep(seq, payload);
        } else if self.consecutive_plc >= MAX_CONSECUTIVE_PLC && self.packets.is_empty() {
            proof {
                self.lemma_packets_len();
                assert(self.packets@.dom() =~= Set::empty());
            }
            self.next_seq = Some(seq);
            let copy: Vec<u8> = vstd::slice::slice_to_vec(payload);
            self.packets.insert(seq, copy);
            self.started = false;
            self.consecutive_plc = 0;
            assert(self@.packets =~= old(self)@.push(seq, payload@).packets);
        } else {
            proof {
                self.lemma_packets_len();
            }
        }
    }

    /// The buffered sequence number that comes first from `next` on.
    fn nearest(&self, next: u32) -> (r: Option<u32>)
        ensures
            match r {
                Some(k) => is_nearest(self@.packets.dom(), next, k),
                None => self@.packets.dom() =~= Set::empty(),
            },
    {
        proof {
            self.lemma_packets_len();
        }
        let mut best: Option<u32> = None;
        for k in it: self.packets.keys()
            invariant
                it.seq().unref().to_set() == self.packets@.dom(),
                match best {
                    Some(b) => self.packets@.contains_key(b) && forall|j: int|
                        0 <= j < it.index() ==> ahead(b, next) <= ahead(*#[trigger] it.seq()[j], next),
                    None => it.index() == 0,
                },
        {
            assert(it.seq().unref()[it.index()] == *k);
            assert(it.seq().unref().to_set().contains(*k));
            let d: u32 = (*k).wrapping_sub(next);
            match best {
                Some(b) => {
                    if d < b.wrapping_sub(next) {
                        best = Some(*k);
                    }
                },
                None => {
                    best = Some(*k);
                },
            }
        }
        proof {
            let keys = self.packets.keys().remaining();
            match best {
                Some(b) => {
                    assert forall|j: u32| self.packets@.contains_key(j) implies ahead(b, next)
                        <= ahead(j, next) by {
                        assert(keys.unref().to_set().contains(j));
                    }
                },
                None => {
                    assert(self.packets@.dom() =~= Set::empty());
                },
            }
        }
        best
    }

    /// Takes out what the current tick plays. Playback starts once enough
    /// frames are buffered; after a long run of concealments it jumps ahead
    /// to the next frame that did arrive.
    pub fn take_frame(&mut self) -> (p: Playout)
        requires
            old(self)@.countable(),
        ensures
            p@ == old(self)@.playout(),
            final(self)@ == old(self)@.take(),
    {
        proof {
            self.lemma_packets_len();
        }
        let mut next: u32 = match self.next_seq {
            None => return Playout::Silence,
            Some(next) => next,
        };
        if !self.started && self.occupancy() < self.startup_frames {
            return Playout::Silence;
        }
        self.started = true;
        if self.consecutive_plc > MAX_CONSECUTIVE_PLC {
            if let Some(catch_up) = self.nearest(next) {
                proof {
                    lemma_nearest_unique(old(self)@.packets.dom(), next);
                    assert(old(self)@.packets.dom().contains(catch_up));
                }
                next = catch_up;
                self.consecutive_plc = 0;
            }
        }
        assert(next == old(self)@.playing());
        let stretch_hold: bool = self.stretch_pending;
        self.stretch_pending = false;
        match self.packets.remove(&next) {
            Some(payload) => {
                self.consecutive_plc = 0;
                assert(self@.packets =~= old(self)@.packets.remove(next));
                Playout::Frame { seq: next, payload }
            },
            None => {
                if !stretch_hold {
                    self.consecutive_plc = self.consecutive_plc + 1;
                    self.packets_lost = self.packets_lost + 1;
                }
                assert(self@.packets =~= old(self)@.packets);
                Playout::Conceal { seq: next }
            },
        }
    }

    /// Moves on after frame `seq` was decoded or concealed. Gives the
    /// occupancy when the drift control loop is due a sample.
    pub fn advance(&mut self, seq: u32) -> (sample: Option<u32>)
        ensures
            final(self)@ == old(self)@.advance(seq),
            sample == if final(self)@.sample_due() {
                Some(final(self)@.packets.len() as u32)
            } else {
                None::<u32>
            },
    {
        self.next_seq = Some(seq.wrapping_add(1));
        self.pop_count = self.pop_count.wrapping_add(1);
        if self.pop_count % SAMPLE_EVERY_N_POPS == 0 {
            Some(self.occupancy())
        } else {
            None
        }
    }

    /// Applies a drift correction after frame `seq` was played: skips the
    /// next sequence number, buffered or not, or goes back onto `seq`, whose
    /// frame is gone, so that the next tick conceals it.
    pub fn correct(&mut self, seq: u32, c: DriftCorrection)
        requires
            old(self)@.next_seq is Some,
            old(self)@.correction_drops < u64::MAX,
        ensures
            final(self)@ == old(self)@.correct(seq, c),
    {
        match c {
            DriftCorrection::Drop => {
                let skipped: u32 = match self.next_seq {
                    Some(s) => s,
                    None => return,
                };
                self.packets.remove(&skipped);
                self.next_seq = Some(skipped.wrapping_add(1));
                self.correction_drops = self.correction_drops + 1;
                assert(self@.packets =~= old(self)@.packets.remove(skipped));
            },
            DriftCorrection::Stretch => {
                self.next_seq = Some(seq);
                self.stretch_pending = true;
            },
        }
    }

    /// Drops all buffered state, when the stream stops or reconnects.
    pub fn reset(&mut self)
        ensures
            final(self)@ == JitterView::fresh(old(self)@.startup_frames),
    {
        self.packets.clear();
        self.next_seq = None;
        self.started = false;
        self.consecutive_plc = 0;
        self.stretch_pending = false;
        self.pop_count = 0;
        self.packets_lost = 0;
        self.correction_drops = 0;
        assert(self@.packets =~= Map::empty());
    }
}

/// No two sequence numbers lie equally far ahead, so the nearest is unique.
proof fn lemma_nearest_unique(keys: Set<u32>, next: u32)
    ensures
        forall|a: u32, b: u32| is_nearest(keys, next, a) && is_nearest(keys, next, b) ==> a == b,
{
    assert forall|a: u32, b: u32|
        is_nearest(keys, next, a) && is_nearest(keys, next, b) implies a == b by {
        assert(ahead(a, next) == ahead(b, next));
    }
}

/// A frame that arrives a second time changes nothing, whatever it holds.
pub proof fn lemma_duplicate_is_ignored(v: JitterView, seq: u32, first: Seq<u8>, second: Seq<u8>)
    ensures
        v.push(seq, first).push(seq, second) == v.push(seq, first),
{
}

/// Once playback has started, a frame that lies behind the next one, or too
/// far ahead, changes nothing unless the source has stalled.
pub proof fn lemma_late_arrival_is_dropped(v: JitterView, seq: u32, payload: Seq<u8>)
    requires
        v.started,
        v.next_seq is Some,
        ahead(seq, v.next_seq->0) > MAX_WINDOW_FRAMES,
        !v.stalled(),
    ensures
        v.push(seq, payload) == v,
{
}

/// After a long stall, a frame from anywhere outside the window starts the
/// stream over: it becomes the next to play, and the buffer fills up again.
pub proof fn lemma_stall_recovers(v: JitterView, seq: u32, payload: Seq<u8>)
    requires
        v.started,
        v.next_seq is Some,
        v.stalled(),
        ahead(seq, v.next_seq->0) > MAX_WINDOW_FRAMES,
    ensures
        v.push(seq, payload).next_seq == Some(seq),
        v.push(seq, payload).packets =~= map![seq => payload],
        !v.push(seq, payload).started,
        v.push(seq, payload).consecutive_plc == 0,
{
}

/// Two frames that arrive before playback starts leave the same buffer in
/// either order, as long as neither is outside the window of the frame
/// playback would start with or, where they are the first, of the other.
pub proof fn lemma_arrival_order_does_not_matter(
    v: JitterView,
    a: u32,
    pa: Seq<u8>,
    b: u32,
    pb: Seq<u8>,
)
    requires
        a != b,
        !v.started,
        v.wf(),
        v.next_seq is None ==> ahead(a, b) <= MAX_WINDOW_FRAMES || ahead(b, a)
            <= MAX_WINDOW_FRAMES,
        v.next_seq matches Some(n) ==> {
            &&& in_window(v)
            &&& ahead(a, n) <= MAX_WINDOW_FRAMES || ahead(n, a) <= MAX_WINDOW_FRAMES
            &&& ahead(b, n) <= MAX_WINDOW_FRAMES || ahead(n, b) <= MAX_WINDOW_FRAMES
        },
    ensures
        v.push(a, pa).push(b, pb) == v.push(b, pb).push(a, pa),
{
    let x = v.push(a, pa).push(b, pb);
    let y = v.push(b, pb).push(a, pa);
    assert(x.packets =~= y.packets);
}

/// Each tick that plays consumes exactly one sequence number, one more after
/// a [`DriftCorrection::Drop`], and none after a [`DriftCorrection::Stretch`].
pub proof fn lemma_tick_consumes_one_frame(v: JitterView, c: Option<DriftCorrection>)
    requires
        !v.silent(),
    ensures
        ({
            let played = v.playing();
            let due = succ(v.pop_count) % SAMPLE_EVERY_N_POPS == 0;
            v.tick(c).next_seq == Some(
                if due && c == Some(DriftCorrection::Drop) {
                    succ(succ(played))
                } else if due && c == Some(DriftCorrection::Stretch) {
                    played
                } else {
                    succ(played)
                },
            )
        }),
        !v.catches_up() ==> v.playing() == v.next_seq->0,
{
}

/// A tick counts a loss exactly when it conceals a frame that no correction
/// held back, and a correction's concealment also leaves the run of
/// concealments as it was.
pub proof fn lemma_loss_is_counted_once(v: JitterView, c: Option<DriftCorrection>)
    requires
        v.countable(),
    ensures
        v.tick(c).packets_lost == v.packets_lost + if v.playout() is Conceal && !v.stretch_pending {
            1int
        } else {
            0int
        },
        v.playout() is Conceal && v.stretch_pending ==> v.tick(c).consecutive_plc
            == v.consecutive_plc,
{
}

/// A correction excuses the very next tick and no later one: whatever that
/// tick plays, the excuse is spent.
pub proof fn lemma_stretch_is_spent(v: JitterView)
    requires
        !v.silent(),
    ensures
        !v.tick(None).stretch_pending,
        !v.take().stretch_pending,
{
}

/// Until enough frames have arrived a tick plays silence and consumes
/// nothing; from then on no tick is silent again until a stall or a reset.
pub proof fn lemma_startup(v: JitterView, c: Option<DriftCorrection>)
    requires
        v.next_seq is Some,
        !v.started,
    ensures
        (v.packets.len() as u32) < v.startup_frames ==> v.playout() is Silence && v.tick(c) == v,
        (v.packets.len() as u32) >= v.startup_frames ==> !(v.playout() is Silence) && v.tick(
            c,
        ).started && !v.tick(c).silent(),
{
}

/// The sequence number `n` places after `seq`.
pub open spec fn after(seq: u32, n: nat) -> u32
    decreases n,
{
    if n == 0 {
        seq
    } else {
        succ(after(seq, (n - 1) as nat))
    }
}

/// The buffer after `n` ticks without correction.
pub open spec fn ticked(v: JitterView, n: nat) -> JitterView
    decreases n,
{
    if n == 0 {
        v
    } else {
        ticked(v, (n - 1) as nat).tick(None)
    }
}

/// The number `n` places after `seq` lies `n` ahead of it.
proof fn lemma_after(seq: u32, n: nat)
    requires
        n < 0x1_0000_0000,
    ensures
        ahead(after(seq, n), seq) == n,
    decreases n,
{
    if n > 0 {
        lemma_after(seq, (n - 1) as nat);
    }
}

/// Where the next `n` frames are buffered, whatever order they came in, the
/// next `n` ticks play them in sequence order, also across the wraparound of
/// sequence numbers, and lose none.
pub proof fn lemma_frames_play_in_order(v: JitterView, n: nat)
    requires
        !v.silent(),
        !v.catches_up(),
        n < 0x1_0000_0000,
        forall|k: nat| k < n ==> v.packets.contains_key(#[trigger] after(v.next_seq->0, k)),
    ensures
        forall|k: nat|
            k < n ==> #[trigger] ticked(v, k).playout() == (PlayoutView::Frame {
                seq: after(v.next_seq->0, k),
                payload: v.packets[after(v.next_seq->0, k)],
            }),
        ticked(v, n).next_seq == Some(after(v.next_seq->0, n)),
        ticked(v, n).packets_lost == v.packets_lost,
        !ticked(v, n).silent(),
        !ticked(v, n).catches_up(),
        forall|s: u32|
            #[trigger] ticked(v, n).packets.contains_key(s) <==> v.packets.contains_key(s) && !(
            ahead(s, v.next_seq->0) < n),
        forall|s: u32|
            ticked(v, n).packets.contains_key(s) ==> #[trigger] ticked(v, n).packets[s]
                == v.packets[s],
    decreases n,
{
    let first = v.next_seq->0;
    if n > 0 {
        let m = (n - 1) as nat;
        lemma_frames_play_in_order(v, m);
        let w = ticked(v, m);
        lemma_after(first, m);
        let s = after(first, m);
        assert(v.packets.contains_key(s));
        assert(w.packets.contains_key(s));
        assert forall|t: u32| #[trigger] ticked(v, n).packets.contains_key(t) implies ticked(
            v,
            n,
        ).packets[t] == v.packets[t] by {
            assert(w.packets[t] == v.packets[t]);
        }
        assert forall|t: u32| ahead(t, first) == m implies t == s by {}
    }
}

/// Every buffered frame lies in the window ahead of the next one.
pub open spec fn in_window(v: JitterView) -> bool {
    v.next_seq matches Some(next) && forall|s: u32| #[trigger]
        v.packets.contains_key(s) ==> ahead(s, next) <= MAX_WINDOW_FRAMES
}

/// The first arrival is in the window, and neither a tick nor an arrival,
/// before playback or after, takes a buffered frame out of it.
pub proof fn lemma_window_is_kept(
    v: JitterView,
    seq: u32,
    payload: Seq<u8>,
    c: Option<DriftCorrection>,
)
    ensures
        v.wf() && v.next_seq is None ==> in_window(v.push(seq, payload)),
        in_window(v) ==> in_window(v.push(seq, payload)),
        in_window(v) ==> in_window(v.take()),
        in_window(v) ==> in_window(v.tick(c)),
{
    let w = v.tick(c);
    if in_window(v) && v.catches_up() {
        let next = v.next_seq->0;
        lemma_nearest_exists(v.packets, next);
        let k = v.playing();
        assert(is_nearest(v.packets.dom(), next, k));
        assert forall|s: u32| #[trigger] w.packets.contains_key(s) implies ahead(s, w.next_seq->0)
            <= MAX_WINDOW_FRAMES by {
            assert(v.packets.contains_key(s));
            assert(v.packets.dom().contains(s));
        }
    }
}

/// A buffer after frames arrived one after the other.
pub open spec fn arrived(v: JitterView, frames: Seq<(u32, Seq<u8>)>) -> JitterView
    decreases frames.len(),
{
    if frames.len() == 0 {
        v
    } else {
        arrived(v, frames.drop_last()).push(frames.last().0, frames.last().1)
    }
}

/// Whatever arrives, in whatever order and however much of it, a buffer that
/// has not been played from holds no frame outside its window, and at most
/// one per place in it.
pub proof fn lemma_arrivals_are_bounded(startup: u32, frames: Seq<(u32, Seq<u8>)>)
    ensures
        ({
            let v = arrived(JitterView::fresh(startup), frames);
            &&& frames.len() > 0 ==> in_window(v)
            &&& v.packets.dom().finite()
            &&& v.packets.len() <= MAX_WINDOW_FRAMES + 1
        }),
    decreases frames.len(),
{
    let v = arrived(JitterView::fresh(startup), frames);
    if frames.len() > 0 {
        let w = arrived(JitterView::fresh(startup), frames.drop_last());
        lemma_arrivals_are_bounded(startup, frames.drop_last());
        lemma_window_is_kept(w, frames.last().0, frames.last().1, None);
        lemma_occupancy_is_bounded(v);
    }
}

/// A buffer that is not empty has a frame nearest to any sequence number.
proof fn lemma_nearest_exists(packets: Map<u32, Seq<u8>>, next: u32)
    requires
        !(packets.dom() =~= Set::empty()),
    ensures
        exists|k: u32| is_nearest(packets.dom(), next, k),
{
    let k0 = choose|k: u32| packets.dom().contains(k);
    assert(packets.dom().contains(k0));
    lemma_nearest_below(packets.dom(), next, k0);
}

/// Some member of `keys` at or before `k` is the nearest to `next`.
proof fn lemma_nearest_below(keys: Set<u32>, next: u32, k: u32)
    requires
        keys.contains(k),
    ensures
        exists|n: u32| is_nearest(keys, next, n),
    decreases ahead(k, next),
{
    if !is_nearest(keys, next, k) {
        let j = choose|j: u32| keys.contains(j) && ahead(j, next) < ahead(k, next);
        lemma_nearest_below(keys, next, j);
    }
}

/// At most one frame is buffered per place in the window.
pub proof fn lemma_occupancy_is_bounded(v: JitterView)
    requires
        in_window(v),
    ensures
        v.packets.dom().finite(),
        v.packets.len() <= MAX_WINDOW_FRAMES + 1,
{
    let next = v.next_seq->0;
    let bound: int = MAX_WINDOW_FRAMES + 1;
    let at = |i: int| ((next + i) % 0x1_0000_0000) as u32;
    let places = vstd::set_lib::set_int_range(0, bound);
    let image = places.map(at);
    vstd::set_lib::lemma_int_range(0, bound);
    vstd::set_lib::lemma_map_size_bound(places, image, at);
    assert forall|s: u32| v.packets.dom().contains(s) implies image.contains(s) by {
        assert(v.packets.contains_key(s));
        let i = ahead(s, next);
        assert(places.contains(i));
        assert(at(i) == s);
    }
    vstd::set_lib::lemma_len_subset(v.packets.dom(), image);
}

/// A buffer starts out well-formed and every operation keeps it so.
pub proof fn lemma_wf_is_kept(
    v: JitterView,
    frames: u32,
    seq: u32,
    payload: Seq<u8>,
    c: Option<DriftCorrection>,
)
    requires
        v.wf(),
    ensures
        JitterView::fresh(frames).wf(),
        v.push(seq, payload).wf(),
        v.take().wf(),
        v.advance(seq).wf(),
        v.next_seq is Some && c is Some ==> v.correct(seq, c->0).wf(),
        v.tick(c).wf(),
{
}

/// Once playback has started, a frame that arrives inside the window and is
/// not buffered yet is buffered, with its payload, whatever else is. Nothing
/// else changes: not the other frames, not what is played next, no count.
pub proof fn lemma_timely_frame_is_kept(v: JitterView, seq: u32, payload: Seq<u8>)
    requires
        v.started,
        v.next_seq is Some,
        ahead(seq, v.next_seq->0) <= 40,
        !v.packets.contains_key(seq),
    ensures
        v.push(seq, payload) == (JitterView { packets: v.packets.insert(seq, payload), ..v }),
{
}

/// Before playback has started, the first frame that arrives is the one to
/// start with. A later one, as long as it is inside the window, is buffered
/// and leaves the start where it is.
pub proof fn lemma_filling_keeps_frames(v: JitterView, seq: u32, payload: Seq<u8>)
    requires
        v.wf(),
        !v.started,
    ensures
        v.next_seq is None ==> v.push(seq, payload) == (JitterView {
            next_seq: Some(seq),
            packets: map![seq => payload],
            ..v
        }),
        v.next_seq matches Some(next) && ahead(seq, next) <= 40 && !v.packets.contains_key(seq)
            ==> v.push(seq, payload) == (JitterView {
            packets: v.packets.insert(seq, payload),
            ..v
        }),
{
    if v.next_seq is None {
        assert(v.push(seq, payload).packets =~= map![seq => payload]);
    }
}

/// Before playback has started, a frame just before the one to start with
/// becomes the one to start with, and every frame in the window ahead of it
/// stays.
pub proof fn lemma_earlier_frame_moves_the_start(
    v: JitterView,
    seq: u32,
    payload: Seq<u8>,
    other: u32,
)
    requires
        !v.started,
        v.next_seq is Some,
        0 < ahead(v.next_seq->0, seq) <= 40,
        !v.packets.contains_key(seq),
    ensures
        ({
            let w = v.push(seq, payload);
            &&& w == (JitterView { next_seq: Some(seq), packets: w.packets, ..v })
            &&& w.packets.contains_key(seq) && w.packets[seq] == payload
            &&& other != seq && ahead(other, seq) <= 40 ==> (w.packets.contains_key(other)
                <==> v.packets.contains_key(other))
            &&& other != seq && w.packets.contains_key(other) ==> w.packets[other]
                == v.packets[other]
        }),
{
}

/// A tick plays the frame that is next, if it is buffered, and conceals it if
/// it is not. Only that frame leaves the buffer.
pub proof fn lemma_tick_plays_what_is_next(v: JitterView)
    requires
        v.next_seq is Some,
        v.started,
        v.consecutive_plc <= 10,
    ensures
        ({
            let next = v.next_seq->0;
            if v.packets.contains_key(next) {
                &&& v.playout() == (PlayoutView::Frame { seq: next, payload: v.packets[next] })
                &&& v.take() == (JitterView {
                    packets: v.packets.remove(next),
                    consecutive_plc: 0,
                    stretch_pending: false,
                    ..v
                })
            } else {
                &&& v.playout() == (PlayoutView::Conceal { seq: next })
                &&& v.take().packets == v.packets
                &&& v.take().next_seq == v.next_seq
                &&& !v.stretch_pending && v.countable() ==> v.take().consecutive_plc
                    == v.consecutive_plc + 1
            }
        }),
{
}

/// After more than ten concealments in a row a tick plays the buffered frame
/// that comes first from the next one on, and ends the concealments.
pub proof fn lemma_long_loss_is_skipped(v: JitterView, k: u32)
    requires
        v.next_seq is Some,
        v.started,
        v.consecutive_plc > 10,
        v.packets.contains_key(k),
    ensures
        v.playout() matches PlayoutView::Frame { seq, payload } && v.packets.contains_key(seq)
            && payload == v.packets[seq] && ahead(seq, v.next_seq->0) <= ahead(
            k,
            v.next_seq->0,
        ),
        v.take().consecutive_plc == 0,
        v.tick(None).next_seq == Some(succ(v.playout()->Frame_seq)),
        v.take().packets == v.packets.remove(v.playout()->Frame_seq),
{
    let next = v.next_seq->0;
    assert(v.packets.dom().contains(k));
    assert(!(v.packets.dom() =~= Set::empty()));
    lemma_nearest_exists(v.packets, next);
    assert(is_nearest(v.packets.dom(), next, v.playing()));
}

/// What a correction does to the buffer: dropping takes the next frame out,
/// stretching takes none.
pub proof fn lemma_corrections_touch_one_frame(v: JitterView, seq: u32)
    requires
        v.next_seq is Some,
        v.correction_drops < u64::MAX,
    ensures
        v.correct(seq, DriftCorrection::Drop) == (JitterView {
            packets: v.packets.remove(v.next_seq->0),
            next_seq: Some(succ(v.next_seq->0)),
            correction_drops: (v.correction_drops + 1) as u64,
            ..v
        }),
        v.correct(seq, DriftCorrection::Stretch) == (JitterView {
            next_seq: Some(seq),
            stretch_pending: true,
            ..v
        }),
{
}

/// Sequence numbers are counted round: the one after the last is the first,
/// and how far one lies ahead of another is how often the next one was taken.
pub proof fn lemma_sequence_numbers_wrap(seq: u32, next: u32)
    ensures
        succ(seq) as int == (seq + 1) % 0x1_0000_0000,
        0 <= ahead(seq, next) < 0x1_0000_0000,
        (next + ahead(seq, next)) % 0x1_0000_0000 == seq,
{
}

/// Playback starts with as many whole frames as the delay holds, and with one
/// where it holds none.
pub proof fn lemma_delay_is_filled(target_ms: u32)
    ensures
        1 <= startup_frames(target_ms),
        target_ms >= 20 ==> startup_frames(target_ms) * 20 <= target_ms < (startup_frames(target_ms)
            + 1) * 20,
        target_ms < 20 ==> startup_frames(target_ms) == 1,
{
}

/// How full the buffer is, is judged at every twenty-fifth tick, which is
/// twice a second, and at no other.
pub proof fn lemma_occupancy_is_judged_twice_a_second(v: JitterView, seq: u32)
    ensures
        v.advance(seq).sample_due() <==> (v.pop_count + 1) % 0x1_0000_0000 % 25 == 0,
        v.advance(seq) == (JitterView {
            next_seq: Some(succ(seq)),
            pop_count: v.advance(seq).pop_count,
            ..v
        }),
        v.advance(seq).pop_count as int == (v.pop_count + 1) % 0x1_0000_0000,
        25 * FRAME_MS == 500,
{
}

/// The limits fit each other: the window holds four times the largest delay,
/// and concealing goes on for as long as that delay lasts.
pub proof fn lemma_limits_fit()
    ensures
        FRAME_MS == 20,
        MIN_BUFFER_MS == 20,
        DEFAULT_TARGET_MS == 80,
        MAX_BUFFER_MS == 200,
        MAX_WINDOW_FRAMES * FRAME_MS == 4 * MAX_BUFFER_MS,
        MAX_CONSECUTIVE_PLC * FRAME_MS == MAX_BUFFER_MS,
{
}

/// A buffer that was reset is as good as new.
pub proof fn lemma_fresh_buffer_plays_nothing(frames: u32, c: Option<DriftCorrection>)
    ensures
        JitterView::fresh(frames).playout() is Silence,
        JitterView::fresh(frames).tick(c) == JitterView::fresh(frames),
        JitterView::fresh(frames).packets == Map::<u32, Seq<u8>>::empty(),
        JitterView::fresh(frames).startup_frames == frames,
        JitterView::fresh(frames).packets_lost == 0,
        JitterView::fresh(frames).correction_drops == 0,
        JitterView::fresh(frames).consecutive_plc == 0,
        !JitterView::fresh(frames).started,
        !JitterView::fresh(frames).stretch_pending,
        JitterView::fresh(frames).next_seq is None,
{
}

/// A source that was silent for ten frames or more, with nothing of it left
/// to play, may resume anywhere: the frame that it resumes with is kept and is
/// the next to play, once the buffer has filled up again.
pub proof fn lemma_source_resumes_anywhere(v: JitterView, seq: u32, payload: Seq<u8>)
    requires
        v.started,
        v.next_seq is Some,
        v.consecutive_plc >= 10,
        v.packets == Map::<u32, Seq<u8>>::empty(),
        ahead(seq, v.next_seq->0) > 40,
    ensures
        v.push(seq, payload) == (JitterView {
            next_seq: Some(seq),
            packets: map![seq => payload],
            started: false,
            consecutive_plc: 0,
            ..v
        }),
{
    assert(v.packets.dom() =~= Set::empty());
    assert(v.push(seq, payload).packets =~= map![seq => payload]);
}

/// A frame outside the window is no reason to start over while anything is
/// left to play, or the source was silent for fewer than ten frames.
pub proof fn lemma_stray_frame_changes_nothing(v: JitterView, seq: u32, payload: Seq<u8>, k: u32)
    requires
        v.started,
        v.next_seq is Some,
        ahead(seq, v.next_seq->0) > 40,
        v.consecutive_plc < 10 || v.packets.contains_key(k),
    ensures
        v.push(seq, payload) == v,
{
    if v.packets.contains_key(k) {
        assert(v.packets.dom().contains(k));
    }
}

/// A tick is silent only before anything arrived, or while the buffer still
/// fills up; a silent tick takes nothing out and counts nothing.
pub proof fn lemma_when_a_tick_is_silent(v: JitterView)
    ensures
        v.playout() is Silence <==> v.next_seq is None || (!v.started && (v.packets.len() as u32)
            < v.startup_frames),
        v.playout() is Silence ==> v.take() == v,
        !(v.playout() is Silence) ==> v.take().started,
{
}

/// A frame that arrives is kept wherever the next one to play lies at most
/// forty frames before it and none with its number is there, unless it is the
/// first to arrive, comes before the start or ends a silence of the source,
/// in which cases it is the next to play. Any other changes nothing.
pub proof fn lemma_what_arriving_does(jb: &mut JitterBuffer, seq: u32, payload: &[u8])
    requires
        call_ensures(JitterBuffer::push, (jb, seq, payload), ()),
    ensures
        ({
            let v = old(jb)@;
            let w = final(jb)@;
            match v.next_seq {
                None => w == (JitterView {
                    next_seq: Some(seq),
                    packets: v.packets.insert(seq, payload@),
                    ..v
                }),
                Some(next) => {
                    let fwd = (seq - next) % 0x1_0000_0000;
                    let back = (next - seq) % 0x1_0000_0000;
                    if !v.started && 0 < back <= 40 {
                        &&& w == (JitterView { next_seq: Some(seq), packets: w.packets, ..v })
                        &&& w.packets.contains_key(seq)
                        &&& forall|k: u32|
                            w.packets.contains_key(k) && v.packets.contains_key(k)
                                ==> #[trigger] w.packets[k] == v.packets[k]
                        &&& !v.packets.contains_key(seq) ==> w.packets[seq] == payload@
                        &&& forall|k: u32| #[trigger]
                            w.packets.contains_key(k) <==> (k == seq || v.packets.contains_key(k))
                                && (k - seq) % 0x1_0000_0000 <= 40
                    } else if fwd <= 40 {
                        w == (JitterView {
                            packets: if v.packets.contains_key(seq) {
                                v.packets
                            } else {
                                v.packets.insert(seq, payload@)
                            },
                            ..v
                        })
                    } else if v.started && v.consecutive_plc >= 10 && v.packets.dom()
                        == Set::<u32>::empty() {
                        w == (JitterView {
                            next_seq: Some(seq),
                            packets: map![seq => payload@],
                            started: false,
                            consecutive_plc: 0,
                            ..v
                        })
                    } else {
                        w == v
                    }
                },
            }
        }),
{
    let v = old(jb)@;
    let w = final(jb)@;
    if let Some(next) = v.next_seq {
        assert(ahead(seq, next) == (seq - next) % 0x1_0000_0000);
        assert(ahead(next, seq) == (next - seq) % 0x1_0000_0000);
        if !v.started && 0 < ahead(next, seq) <= 40 {
            assert forall|k: u32| #[trigger]
                w.packets.contains_key(k) <==> (k == seq || v.packets.contains_key(k)) && (k - seq)
                    % 0x1_0000_0000 <= 40 by {
                assert(ahead(k, seq) == (k - seq) % 0x1_0000_0000);
            }
        } else if ahead(seq, next) <= 40 {
        } else if v.started && v.consecutive_plc >= 10 && v.packets.dom() == Set::<u32>::empty() {
            assert(v.packets.dom() =~= Set::empty());
            assert(w.packets =~= map![seq => payload@]);
        } else {
            assert(!(v.started && v.stalled()));
        }
    }
}

/// A tick plays the frame that is next, or conceals it where it is missing,
/// once playback has started or enough frames have arrived; after a long loss
/// it plays one that is there.
pub proof fn lemma_what_a_tick_plays(jb: &mut JitterBuffer, p: Playout)
    requires
        old(jb)@.consecutive_plc < u32::MAX,
        old(jb)@.packets_lost < u64::MAX,
        call_ensures(JitterBuffer::take_frame, (jb,), p),
    ensures
        ({
            let v = old(jb)@;
            let w = final(jb)@;
            match v.next_seq {
                None => p is Silence && w == v,
                Some(next) => if !v.started && (v.packets.len() as u32) < v.startup_frames {
                    p is Silence && w == v
                } else {
                    &&& w.started
                    &&& w.next_seq == v.next_seq
                    &&& !(p is Silence)
                    &&& p matches Playout::Frame { seq, payload } ==> {
                        &&& v.packets.contains_key(seq) && payload@ == v.packets[seq]
                        &&& w == (JitterView {
                            packets: v.packets.remove(seq),
                            started: true,
                            consecutive_plc: 0,
                            stretch_pending: false,
                            ..v
                        })
                        &&& v.consecutive_plc <= 10 ==> seq == next
                        &&& v.consecutive_plc > 10 ==> forall|k: u32| #[trigger]
                            v.packets.contains_key(k) ==> (seq - next) % 0x1_0000_0000 <= (k - next)
                                % 0x1_0000_0000
                    }
                    &&& p matches Playout::Conceal { seq } ==> {
                        &&& seq == next
                        &&& !v.packets.contains_key(next)
                        &&& v.consecutive_plc > 10 ==> v.packets.dom() == Set::<u32>::empty()
                        &&& v.stretch_pending ==> w == (JitterView {
                            started: true,
                            stretch_pending: false,
                            ..v
                        })
                        &&& !v.stretch_pending ==> w == (JitterView {
                            started: true,
                            consecutive_plc: (v.consecutive_plc + 1) as u32,
                            packets_lost: (v.packets_lost + 1) as u64,
                            ..v
                        })
                    }
                },
            }
        }),
{
    let v = old(jb)@;
    if v.next_seq is Some && v.consecutive_plc > 10 && !(v.packets.dom() =~= Set::empty()) {
        lemma_nearest_exists(v.packets, v.next_seq->0);
        let next = v.next_seq->0;
        let seq = v.playing();
        assert(is_nearest(v.packets.dom(), next, seq));
        assert forall|k: u32| #[trigger] v.packets.contains_key(k) implies (seq - next)
            % 0x1_0000_0000 <= (k - next) % 0x1_0000_0000 by {
            assert(v.packets.dom().contains(k));
            assert(ahead(seq, next) == (seq - next) % 0x1_0000_0000);
            assert(ahead(k, next) == (k - next) % 0x1_0000_0000);
        }
    }
}

/// Playing moves on by one, and tells every twenty-fifth time how many frames
/// are buffered.
pub proof fn lemma_what_moving_on_does(jb: &mut JitterBuffer, seq: u32, sample: Option<u32>)
    requires
        call_ensures(JitterBuffer::advance, (jb, seq), sample),
    ensures
        final(jb)@.next_seq matches Some(n) && n == (seq + 1) % 0x1_0000_0000,
        final(jb)@.pop_count as int == (old(jb)@.pop_count + 1) % 0x1_0000_0000,
        final(jb)@ == (JitterView {
            next_seq: final(jb)@.next_seq,
            pop_count: final(jb)@.pop_count,
            ..old(jb)@
        }),
        sample is Some <==> (old(jb)@.pop_count + 1) % 0x1_0000_0000 % 25 == 0,
        sample matches Some(n) ==> n == old(jb)@.packets.len() as u32,
{
}

/// A correction that drops takes out the frame that is next and counts it; one
/// that stretches has the frame that was played be next again.
pub proof fn lemma_what_correcting_does(jb: &mut JitterBuffer, seq: u32, c: DriftCorrection)
    requires
        old(jb)@.next_seq is Some,
        old(jb)@.correction_drops < u64::MAX,
        call_ensures(JitterBuffer::correct, (jb, seq, c), ()),
    ensures
        c is Drop ==> {
            &&& final(jb)@.next_seq matches Some(n) && n == (old(jb)@.next_seq->0 + 1)
                % 0x1_0000_0000
            &&& final(jb)@.packets == old(jb)@.packets.remove(old(jb)@.next_seq->0)
            &&& final(jb)@ == (JitterView {
                next_seq: final(jb)@.next_seq,
                packets: final(jb)@.packets,
                correction_drops: (old(jb)@.correction_drops + 1) as u64,
                ..old(jb)@
            })
        },
        c is Stretch ==> final(jb)@ == (JitterView {
            next_seq: Some(seq),
            stretch_pending: true,
            ..old(jb)@
        }),
{
}

/// A new buffer is empty and fills up to its delay, and so is one that was
/// reset: it keeps its delay and nothing else.
pub proof fn lemma_what_starting_over_does(target_ms: u32, new: JitterBuffer, jb: &mut JitterBuffer)
    requires
        call_ensures(JitterBuffer::new, (target_ms,), new),
        call_ensures(JitterBuffer::reset, (jb,), ()),
    ensures
        new@.packets == Map::<u32, Seq<u8>>::empty(),
        new@.next_seq is None,
        !new@.started,
        new@.startup_frames == if target_ms < 20 {
            1
        } else {
            target_ms / 20
        },
        final(jb)@ == (JitterView { startup_frames: old(jb)@.startup_frames, ..new@ }),
        new@.packets_lost == 0,
        new@.correction_drops == 0,
        new@.consecutive_plc == 0,
        new@.pop_count == 0,
        !new@.stretch_pending,
{
}

/// What is read of a buffer is what it is.
pub proof fn lemma_buffer_is_read(
    jb: &JitterBuffer,
    occupancy: u32,
    lost: u64,
    plc: u32,
    drops: u64,
    next: Option<u32>,
    started: bool,
)
    requires
        call_ensures(JitterBuffer::occupancy, (jb,), occupancy),
        call_ensures(JitterBuffer::packets_lost, (jb,), lost),
        call_ensures(JitterBuffer::consecutive_plc, (jb,), plc),
        call_ensures(JitterBuffer::correction_drops, (jb,), drops),
        call_ensures(JitterBuffer::next_seq, (jb,), next),
        call_ensures(JitterBuffer::started, (jb,), started),
    ensures
        occupancy == jb@.packets.len() as u32,
        lost == jb@.packets_lost,
        plc == jb@.consecutive_plc,
        drops == jb@.correction_drops,
        next == jb@.next_seq,
        started == jb@.started,
{
}

} // verus!
