use deskunion::audio::capture::{
    capture_backend, is_monitor_device, is_monitor_name, list_devices, take_samples, Backend,
    FoundDevice,
};
use deskunion::audio::framing::{
    deinterleave, frame_len, interleave, needs_resampler, resampler_chunk, sender_ring_capacity,
    stats, Accumulator, FrameCounter, LossMeter,
};
use deskunion::audio::playback::{
    fallback_config, needs_conversion, output_config, record_push, ring_capacity, supports_config,
    tick_samples, DefaultOutput, DummyMetrics, LogLimiter, OutputRange,
};
use deskunion::audio::{
    enumerate_devices, is_rate_mismatch, is_stereo, playback_format, to_ipc_devices, wants_sender,
    AudioDevice, AudioError, AudioFormat, AudioSettings, FRAME_SAMPLES, SAMPLE_RATE,
};
use std::collections::VecDeque;

const MONO: AudioFormat = AudioFormat {
    sample_rate: 48_000,
    channels: 1,
};

#[test]
fn dummy_playback_counts_underruns_when_starved() {
    let mut metrics = DummyMetrics::new();
    metrics.restart();
    let need = tick_samples(MONO);
    assert_eq!(need, 480);
    // feed less than the clock consumes: 10ms of audio every 30ms
    for _ in 0..5 {
        metrics.push(480);
        for _ in 0..3 {
            metrics.tick(need);
        }
    }
    assert!(metrics.clock_ticks() >= 3);
    assert!(
        metrics.underrun_ticks() > 0,
        "a starved sink must record underruns"
    );
    assert_eq!(metrics.underrun_ticks(), 10);
}

#[test]
fn dummy_playback_keeps_up_when_fed() {
    let mut metrics = DummyMetrics::new();
    metrics.restart();
    let need = tick_samples(MONO);
    // prebuffer, then feed exactly the consumed rate (20ms of
    // audio every 20ms, like the receiver's tick thread)
    metrics.push(480 * 8);
    for _ in 0..10 {
        metrics.push(960);
        metrics.tick(need);
        metrics.tick(need);
    }
    assert_eq!(metrics.underrun_ticks(), 0, "a fed sink must not underrun");
    assert_eq!(metrics.clock_ticks(), 20);
    assert_eq!(metrics.queued_samples(), 480 * 8);
}

#[test]
fn receiver_dummy_playback_exposes_samples_received() {
    let mut dummy = DummyMetrics::new();
    assert_eq!(dummy.samples_received(), 0);
    // the counter stays over restarts
    dummy.push(7);
    dummy.restart();
    assert_eq!(dummy.samples_received(), 7);
    assert_eq!(dummy.queued_samples(), 0);
}

#[test]
fn monitor_names_are_recognised() {
    assert!(is_monitor_name("alsa_output.pci-0000.Monitor"));
    assert!(is_monitor_name("Monitor of Built-in Audio"));
    assert!(is_monitor_name("SINK_default"));
    assert!(is_monitor_name("alsa_output.usb"));
    assert!(!is_monitor_name("Built-in Microphone"));
    assert!(!is_monitor_name("my monitor of choice"));
    assert!(!is_monitor_name(""));
    assert!(is_monitor_device("Mic", Some("sink_default"), false));
    assert!(is_monitor_device("Mic", None, true));
    assert!(!is_monitor_device("Mic", Some("alsa_input.usb"), false));
}

#[test]
fn loopback_needs_its_own_backend_on_windows() {
    assert_eq!(capture_backend(true), Backend::Wasapi);
    assert_eq!(capture_backend(false), Backend::Cpal);
}

#[test]
fn devices_without_an_id_are_not_listed() {
    let found = vec![
        FoundDevice {
            id: Some("a".to_owned()),
            name: "A".to_owned(),
            is_monitor: false,
        },
        FoundDevice {
            id: None,
            name: "B".to_owned(),
            is_monitor: false,
        },
        FoundDevice {
            id: Some("c".to_owned()),
            name: "C".to_owned(),
            is_monitor: true,
        },
    ];
    let listed = list_devices(&found, &Some("c".to_owned()));
    assert_eq!(listed.len(), 2);
    assert!(!listed[0].is_default && listed[1].is_default && listed[1].is_monitor);
    let ipc = to_ipc_devices(listed);
    assert_eq!(ipc[1].id, "c");
    let (capture, playback) = enumerate_devices(
        Some(vec![AudioDevice {
            id: "x".to_owned(),
            name: "X".to_owned(),
            is_monitor: false,
            is_default: true,
        }]),
        None,
    );
    assert_eq!((capture.len(), playback.len()), (1, 0));
}

#[test]
fn whole_samples_are_taken_out_of_captured_bytes() {
    let mut queue: VecDeque<u8> = VecDeque::new();
    queue.extend(1.5f32.to_le_bytes());
    queue.extend((-2.0f32).to_le_bytes());
    queue.extend([1u8, 2]);
    let samples = take_samples(&mut queue);
    assert_eq!(samples, vec![1.5f32.to_bits(), (-2.0f32).to_bits()]);
    assert_eq!(queue, VecDeque::from(vec![1u8, 2]));
    assert!(take_samples(&mut queue).is_empty());
}

fn range(is_float: bool, channels: u16, min: u32, max: u32) -> OutputRange {
    OutputRange {
        is_float,
        channels,
        min_sample_rate: min,
        max_sample_rate: max,
    }
}

#[test]
fn output_format_falls_back_to_what_the_device_offers() {
    let wanted = AudioFormat {
        sample_rate: 48_000,
        channels: 2,
    };
    let fits = vec![range(false, 2, 8_000, 96_000), range(true, 2, 44_100, 48_000)];
    assert!(supports_config(&fits, wanted));
    assert_eq!(output_config(wanted, Some(&fits), None), Ok(wanted));
    // the device cannot be asked: try the wanted format as it is
    assert_eq!(output_config(wanted, None, None), Ok(wanted));

    let other = vec![
        range(true, 1, 8_000, 44_100),
        range(true, 2, 8_000, 44_100),
        range(false, 2, 8_000, 96_000),
    ];
    assert!(!supports_config(&other, wanted));
    // of several ranges that reach the highest rate the last one is taken
    assert_eq!(
        fallback_config(None, Some(&other)),
        Some(AudioFormat {
            sample_rate: 44_100,
            channels: 2
        })
    );
    let default = DefaultOutput {
        is_float: true,
        format: MONO,
    };
    assert_eq!(output_config(wanted, Some(&other), Some(default)), Ok(MONO));
    let none = vec![range(false, 2, 8_000, 96_000)];
    assert_eq!(
        output_config(wanted, Some(&none), None),
        Err(AudioError::NoSupportedConfig)
    );
    assert_eq!(fallback_config(None, None), None);
    assert!(needs_conversion(wanted, MONO) && !needs_conversion(MONO, MONO));
}

#[test]
fn ring_sizes() {
    assert_eq!(
        ring_capacity(AudioFormat {
            sample_rate: 48_000,
            channels: 2
        }),
        48_000
    );
    assert_eq!(
        ring_capacity(AudioFormat {
            sample_rate: 0,
            channels: 2
        }),
        1
    );
    assert_eq!(sender_ring_capacity(2), 96_000);
    assert_eq!(sender_ring_capacity(0), 1);
    assert_eq!(frame_len(2), 2 * FRAME_SAMPLES);
}

#[test]
fn overflows_are_logged_now_and_then() {
    let mut limiter = LogLimiter::new(100);
    assert_eq!(record_push(&mut limiter, 10, 10), None);
    assert_eq!(record_push(&mut limiter, 3, 10), Some((7, 1)));
    for _ in 0..98 {
        assert_eq!(record_push(&mut limiter, 3, 10), None);
    }
    assert_eq!(record_push(&mut limiter, 0, 10), Some((10, 100)));
}

#[test]
fn chunks_lose_nothing() {
    let mut a: Accumulator<f32> = Accumulator::new(4);
    a.extend(&[1.0, 2.0, 3.0]);
    assert!(a.take_chunk().is_none());
    a.extend(&[4.0, 5.0, 6.0, 7.0, 8.0, 9.0]);
    assert_eq!(
        a.take_chunks(),
        vec![vec![1.0, 2.0, 3.0, 4.0], vec![5.0, 6.0, 7.0, 8.0]]
    );
    a.extend(&[10.0, 11.0, 12.0]);
    assert_eq!(a.take_chunk(), Some(vec![9.0, 10.0, 11.0, 12.0]));
}

#[test]
fn channels_are_separated_and_put_back() {
    let samples = vec![1, 10, 2, 20, 3, 30];
    let planar = deinterleave(&samples, 2, 3);
    assert_eq!(planar, vec![vec![1, 2, 3], vec![10, 20, 30]]);
    assert_eq!(interleave(&planar, 3), samples);
}

#[test]
fn resampling_is_needed_off_the_wire_rate() {
    assert!(!needs_resampler(SAMPLE_RATE));
    assert!(needs_resampler(44_100));
    assert_eq!(resampler_chunk(44_100), 441);
    assert_eq!(resampler_chunk(50), 1);
}

#[test]
fn only_encoded_frames_are_numbered() {
    let mut c = FrameCounter::new();
    assert_eq!(c.number(true), Some(0));
    assert_eq!(c.number(false), None);
    assert_eq!(c.number(true), Some(1));
}

#[test]
fn latency_is_what_is_buffered() {
    let s = stats(4, 7, 0.5f32.to_bits());
    assert_eq!((s.latency_ms, s.packets_lost), (80, 7));
    let mut m = LossMeter::new();
    assert_eq!(m.observe(0), None);
    assert_eq!(m.observe(3), Some(3));
    assert_eq!(m.observe(4), None);
}

#[test]
fn audio_settings_decide_what_runs() {
    let settings = AudioSettings {
        send: false,
        receive: true,
        bitrate: 96_000,
        buffer_ms: 80,
        capture_device: None,
        playback_device: None,
    };
    assert!(!wants_sender(&settings));
    assert!(is_stereo(2) && !is_stereo(1));
    assert_eq!(playback_format(1), MONO);
    assert!(is_rate_mismatch(44_100));
    assert_eq!(
        AudioError::DeviceNotFound.to_string(),
        "requested device not found"
    );
}
