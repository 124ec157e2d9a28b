use deskunion::audio::jitter::{
    DriftCorrection, JitterBuffer, Playout, DEFAULT_TARGET_MS, FRAME_MS, MAX_CONSECUTIVE_PLC,
    MAX_WINDOW_FRAMES, MIN_BUFFER_MS, SAMPLE_EVERY_N_POPS,
};

/// the control loop that judges occupancy samples
struct DriftController {
    target_frames: f64,
    occupancy_ema: f64,
    primed: bool,
}

impl DriftController {
    fn new(target_ms: u32) -> Self {
        Self {
            target_frames: target_ms as f64 / FRAME_MS as f64,
            occupancy_ema: 0.0,
            primed: false,
        }
    }

    fn sample(&mut self, occupancy_frames: u32) -> Option<DriftCorrection> {
        let occ = occupancy_frames as f64;
        self.occupancy_ema = if self.primed {
            0.2 * occ + (1.0 - 0.2) * self.occupancy_ema
        } else {
            self.primed = true;
            occ
        };
        let error = self.occupancy_ema - self.target_frames;
        if error > 1.0 {
            Some(DriftCorrection::Drop)
        } else if error < -1.0 {
            Some(DriftCorrection::Stretch)
        } else {
            None
        }
    }
}

struct Player {
    jb: JitterBuffer,
    drift: DriftController,
}

impl Player {
    fn new(target_ms: u32) -> Self {
        Self {
            jb: JitterBuffer::new(target_ms),
            drift: DriftController::new(target_ms),
        }
    }

    /// one tick in which the decoder takes every frame
    fn pop(&mut self) -> Playout {
        let out = self.jb.take_frame();
        let seq = match &out {
            Playout::Silence => return out,
            Playout::Frame { seq, .. } => *seq,
            Playout::Conceal { seq } => *seq,
        };
        if let Some(occupancy) = self.jb.advance(seq) {
            if let Some(c) = self.drift.sample(occupancy) {
                self.jb.correct(seq, c);
            }
        }
        out
    }
}

fn frames(count: u32) -> Vec<Vec<u8>> {
    (0..count).map(|i| vec![i as u8; 3]).collect()
}

fn payload(p: &Playout) -> Option<(u32, Vec<u8>)> {
    match p {
        Playout::Frame { seq, payload } => Some((*seq, payload.clone())),
        _ => None,
    }
}

#[test]
fn jitter_in_order_frames_pop_in_order() {
    let frames = frames(5);
    let mut p = Player::new(DEFAULT_TARGET_MS);
    for (seq, payload) in frames.iter().enumerate() {
        p.jb.push(seq as u32, payload);
    }
    for (seq, frame) in frames.iter().enumerate() {
        assert_eq!(payload(&p.pop()), Some((seq as u32, frame.clone())));
    }
    assert_eq!(p.jb.occupancy(), 0);
}

#[test]
fn waits_for_target_before_starting_playback() {
    let frames = frames(4);
    let mut p = Player::new(DEFAULT_TARGET_MS);
    for (seq, payload) in frames.iter().take(3).enumerate() {
        p.jb.push(seq as u32, payload);
        assert!(matches!(p.pop(), Playout::Silence));
        assert_eq!(p.jb.occupancy(), (seq + 1) as u32);
    }
    p.jb.push(3, &frames[3]);
    assert_eq!(payload(&p.pop()), Some((0, frames[0].clone())));
    assert_eq!(p.jb.occupancy(), 3);
}

#[test]
fn recovers_after_a_prolonged_source_stall() {
    let frames = frames(4);
    let mut p = Player::new(DEFAULT_TARGET_MS);
    for (seq, payload) in frames.iter().enumerate() {
        p.jb.push(seq as u32, payload);
    }
    for _ in 0..4 {
        p.pop();
    }
    for _ in 0..=MAX_CONSECUTIVE_PLC {
        assert!(matches!(p.pop(), Playout::Conceal { .. }));
    }
    for (offset, payload) in frames.iter().enumerate() {
        p.jb.push(100 + offset as u32, payload);
    }
    assert_eq!(p.jb.next_seq(), Some(100));
    assert!(!p.jb.started(), "resumed stream must prebuffer again");
    p.pop();
    assert_eq!(p.jb.occupancy(), 3);
}

#[test]
fn reports_concealed_packets_as_lost() {
    let frames = frames(4);
    let mut p = Player::new(DEFAULT_TARGET_MS);
    for (seq, payload) in frames.iter().enumerate() {
        p.jb.push(seq as u32, payload);
    }
    for _ in 0..4 {
        p.pop();
    }
    p.pop();
    assert_eq!(p.jb.packets_lost(), 1);
    p.jb.reset();
    assert_eq!(p.jb.packets_lost(), 0);
}

#[test]
fn jitter_reordered_frames_still_pop_in_sequence_order() {
    let frames = frames(4);
    let mut p = Player::new(DEFAULT_TARGET_MS);
    for &seq in &[2u32, 0, 3, 1] {
        p.jb.push(seq, &frames[seq as usize]);
    }
    assert_eq!(p.jb.occupancy(), 4);
    for seq in 0..4u32 {
        assert_eq!(payload(&p.pop()), Some((seq, frames[seq as usize].clone())));
    }
    assert_eq!(p.jb.occupancy(), 0);
}

#[test]
fn jitter_missing_frame_is_concealed_not_fatal() {
    let frames = frames(3);
    let mut p = Player::new(MIN_BUFFER_MS);
    // seq 1 never arrives
    p.jb.push(0, &frames[0]);
    p.jb.push(2, &frames[2]);
    assert_eq!(payload(&p.pop()), Some((0, frames[0].clone())));
    assert!(matches!(p.pop(), Playout::Conceal { seq: 1 }));
    assert_eq!(payload(&p.pop()), Some((2, frames[2].clone())));
}

#[test]
fn jitter_duplicate_frame_is_ignored() {
    let frames = frames(2);
    let mut p = Player::new(DEFAULT_TARGET_MS);
    p.jb.push(0, &frames[0]);
    p.jb.push(0, &frames[1]); // duplicate
    assert_eq!(p.jb.occupancy(), 1);
}

#[test]
fn jitter_late_arrival_after_pop_is_dropped_not_reinserted() {
    let frames = frames(2);
    let mut p = Player::new(MIN_BUFFER_MS);
    p.jb.push(0, &frames[0]);
    p.pop();
    // seq 0 arrives again after we've already moved past it
    p.jb.push(0, &frames[0]);
    assert_eq!(p.jb.occupancy(), 0);
}

#[test]
fn jitter_sequence_number_wraparound_does_not_break_ordering() {
    let frames = frames(3);
    let mut p = Player::new(MIN_BUFFER_MS);
    // start right before u32::MAX wraps to 0
    p.jb.push(u32::MAX - 1, &frames[0]);
    p.jb.push(u32::MAX, &frames[1]);
    p.jb.push(0, &frames[2]);
    assert_eq!(p.jb.occupancy(), 3);
    for frame in &frames {
        assert_eq!(payload(&p.pop()).map(|f| f.1), Some(frame.clone()));
    }
    assert_eq!(p.jb.next_seq(), Some(1));
}

#[test]
fn jitter_reset_clears_all_state() {
    let frames = frames(2);
    let mut p = Player::new(DEFAULT_TARGET_MS);
    p.jb.push(0, &frames[0]);
    p.jb.push(1, &frames[1]);
    p.jb.reset();
    assert_eq!(p.jb.occupancy(), 0);
    assert!(p.jb.next_seq().is_none());
}

/// the receiver's tick always runs slightly slower than the sender's frame
/// production: corrections must keep the buffer near its target
#[test]
fn slow_receiver_drift_stays_bounded_and_full_rate() {
    let frames = frames(64);
    let mut p = Player::new(DEFAULT_TARGET_MS);
    let target = DEFAULT_TARGET_MS / FRAME_MS;

    // virtual clocks: the sender produces a frame every 20 ms while
    // the receiver pops every 20.4 ms (2% slow)
    let mut pushed = 0u32;
    let mut sender_ms = 0f64;
    let mut receiver_ms = 0f64;
    let total_pops = 15_000;
    for pop in 0..total_pops {
        receiver_ms += 20.4;
        while sender_ms <= receiver_ms {
            p.jb.push(pushed, &frames[pushed as usize % frames.len()]);
            pushed += 1;
            sender_ms += 20.0;
        }
        let out = p.pop();
        if pop > 500 {
            assert!(
                !matches!(out, Playout::Silence),
                "every pop must yield a full frame (playback starves otherwise)"
            );
        }
    }
    assert!(
        p.jb.occupancy() <= target + 4,
        "occupancy must stay bounded near target, got {}",
        p.jb.occupancy()
    );
    assert!(p.jb.packets_lost() < total_pops as u64 / 100);
}

#[test]
fn fast_receiver_drift_stays_bounded_via_stretch() {
    let frames = frames(64);
    let mut p = Player::new(DEFAULT_TARGET_MS);
    let target = DEFAULT_TARGET_MS / FRAME_MS;

    // sender produces a frame every 20 ms; receiver pops every
    // 19.6 ms (2% fast)
    let mut pushed = 0u32;
    let mut sender_ms = 0f64;
    let mut receiver_ms = 0f64;
    let total_pops = 15_000;
    for pop in 0..total_pops {
        receiver_ms += 19.6;
        while sender_ms <= receiver_ms {
            p.jb.push(pushed, &frames[pushed as usize % frames.len()]);
            pushed += 1;
            sender_ms += 20.0;
        }
        let out = p.pop();
        if pop > 500 {
            assert!(!matches!(out, Playout::Silence));
        }
    }
    assert!(p.jb.occupancy() <= target + 4);
    // stretches are concealed but must not count as network loss
    assert!(p.jb.packets_lost() < total_pops as u64 / 100);
}

#[test]
fn stretch_concealment_is_not_counted_as_loss() {
    let frames = frames(8);
    let mut p = Player::new(DEFAULT_TARGET_MS);
    for (seq, payload) in frames.iter().enumerate() {
        p.jb.push(seq as u32, payload);
    }
    for _ in 0..8 {
        p.pop();
    }
    let lost_before = p.jb.packets_lost();
    let mut drift = DriftController::new(DEFAULT_TARGET_MS);
    // an empty buffer is well below the band around the target
    assert_eq!(drift.sample(0), Some(DriftCorrection::Stretch));
    let next = p.jb.next_seq().expect("started");
    p.jb.correct(next.wrapping_sub(1), DriftCorrection::Stretch);
    assert!(matches!(p.pop(), Playout::Conceal { .. }));
    assert_eq!(p.jb.packets_lost(), lost_before, "stretch PLC is not a loss");
}

#[test]
fn stretch_flag_does_not_leak_onto_the_next_real_loss() {
    let frames = frames(8);
    let mut p = Player::new(DEFAULT_TARGET_MS);
    for (seq, payload) in frames.iter().enumerate() {
        p.jb.push(seq as u32, payload);
    }
    for _ in 0..8 {
        p.pop();
    }
    let next = p.jb.next_seq().expect("started");
    let replayed = next.wrapping_sub(1);
    p.jb.correct(replayed, DriftCorrection::Stretch);

    // ... but the frame turns up again before the next tick, so the
    // stretch pops a real packet rather than concealing
    p.jb.push(replayed, &frames[replayed as usize]);
    assert!(matches!(p.pop(), Playout::Frame { .. }));

    // the very next frame is genuinely missing
    let lost_before = p.jb.packets_lost();
    p.pop();
    assert_eq!(
        p.jb.packets_lost(),
        lost_before + 1,
        "a real loss was excused by a stale stretch flag"
    );
}

#[test]
fn drop_correction_skips_exactly_one_frame() {
    let frames = frames(90);
    let mut p = Player::new(MIN_BUFFER_MS);
    let mut next_push = 0u32;
    let floor = MIN_BUFFER_MS / FRAME_MS + 3;
    while p.jb.occupancy() < floor {
        p.jb.push(next_push, &frames[next_push as usize % frames.len()]);
        next_push += 1;
    }
    let first = p.jb.next_seq().expect("pushed");
    let pops = 3 * SAMPLE_EVERY_N_POPS;
    for _ in 0..pops {
        while p.jb.occupancy() < floor {
            p.jb.push(next_push, &frames[next_push as usize % frames.len()]);
            next_push += 1;
        }
        p.pop();
    }
    let consumed = p.jb.next_seq().expect("next_seq").wrapping_sub(first);
    // one sequence number per pop, plus one extra per Drop sample
    assert_eq!(consumed, pops + 3);
    assert_eq!(p.jb.correction_drops(), 3);

    p.jb.reset();
    assert_eq!(p.jb.correction_drops(), 0, "reset clears the counter");
}

/// a receiver's buffer is emptied at once, however much was pushed
#[test]
fn receiver_reset_drops_buffered_frames() {
    let mut p = Player::new(DEFAULT_TARGET_MS);
    for seq in 0..50 {
        p.jb.push(seq, &[1, 2, 3]);
    }
    p.jb.reset();
    assert_eq!(p.jb.occupancy(), 0);
}

#[test]
fn frames_far_ahead_are_dropped() {
    let mut p = Player::new(MIN_BUFFER_MS);
    p.jb.push(10, &[0]);
    p.jb.push(10 + MAX_WINDOW_FRAMES, &[0]);
    assert_eq!(p.jb.occupancy(), 2);
    p.jb.push(11 + MAX_WINDOW_FRAMES, &[0]);
    assert_eq!(p.jb.occupancy(), 2);
}

#[test]
fn long_concealment_catches_up_with_the_nearest_frame() {
    let mut p = Player::new(MIN_BUFFER_MS);
    p.jb.push(0, &[0]);
    p.pop();
    for _ in 0..MAX_CONSECUTIVE_PLC + 1 {
        p.pop();
    }
    // next is 12 by now; 20 and 15 are inside the window
    p.jb.push(20, &[20]);
    p.jb.push(15, &[15]);
    assert_eq!(payload(&p.pop()), Some((15, vec![15])));
    assert_eq!(p.jb.consecutive_plc(), 0);
    assert_eq!(p.jb.next_seq(), Some(16));
}

/// a frame that the decoder refuses is gone, but its place is not: the same
/// sequence number is tried again
#[test]
fn refused_frame_does_not_advance() {
    let mut jb = JitterBuffer::new(MIN_BUFFER_MS);
    jb.push(7, &[9]);
    assert!(matches!(jb.take_frame(), Playout::Frame { seq: 7, .. }));
    assert_eq!(jb.next_seq(), Some(7));
    assert!(matches!(jb.take_frame(), Playout::Conceal { seq: 7 }));
}

/// a wildly out-of-order peer cannot make the buffer grow
#[test]
fn early_arrivals_never_outgrow_the_window() {
    let mut jb = JitterBuffer::new(DEFAULT_TARGET_MS);
    for seq in (0..=200u32).rev() {
        jb.push(seq, &[seq as u8]);
        assert!(jb.occupancy() <= MAX_WINDOW_FRAMES + 1);
        assert_eq!(jb.next_seq(), Some(seq));
    }
    assert_eq!(jb.occupancy(), MAX_WINDOW_FRAMES + 1);
    // those that are kept are the earliest
    for seq in 0..=MAX_WINDOW_FRAMES {
        match jb.take_frame() {
            Playout::Frame { seq: s, payload } => {
                assert_eq!((s, payload), (seq, vec![seq as u8]));
            }
            other => panic!("expected frame {seq}, got {other:?}"),
        }
        jb.advance(seq);
    }
    assert_eq!(jb.occupancy(), 0);
}

#[test]
fn moving_the_start_back_drops_what_is_too_far_ahead() {
    let mut jb = JitterBuffer::new(DEFAULT_TARGET_MS);
    jb.push(u32::MAX, &[1]);
    jb.push(MAX_WINDOW_FRAMES - 1, &[2]);
    assert_eq!(jb.occupancy(), 2);
    jb.push(u32::MAX - 1, &[3]);
    assert_eq!(jb.occupancy(), 2);
    assert_eq!(jb.next_seq(), Some(u32::MAX - 1));
}
