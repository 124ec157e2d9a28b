//! Audio capture, framing, buffering and playback decisions.

use crate::ipc::{AudioDeviceInfo, DeviceView};
use vstd::prelude::*;

pub mod capture;
pub mod framing;

pub mod jitter;
pub mod laws;
pub mod playback;

verus! {

/// Sample rate on the wire: the codec's own, which avoids resampling at the
/// receiver.
pub const SAMPLE_RATE: u32 = 48_000;

/// Samples per channel in one frame.
pub const FRAME_SAMPLES: usize = 960;

/// Bits per second unless configured otherwise.
pub const DEFAULT_BITRATE: i32 = 96_000;

/// Channels on the wire: stereo.
pub const WIRE_CHANNELS: u16 = 2;

/// How many encoded frames may wait to be sent. Audio is real-time data:
/// dropping an old frame is better than a queue that delays everything.
pub const AUDIO_QUEUE_FRAMES: usize = 8;

/// Format of raw audio: interleaved samples at this rate and channel count.
#[derive(Clone, Copy, Debug, PartialEq, Eq, Structural)]
pub struct AudioFormat {
    pub sample_rate: u32,
    pub channels: u16,
}

/// An audio device.
#[derive(Debug)]
pub struct AudioDevice {
    /// identifier by which the backend selects the device
    pub id: String,
    pub name: String,
    /// this looks like a tap of the system's own output
    pub is_monitor: bool,
    pub is_default: bool,
}

impl View for AudioDevice {
    type V = DeviceView;

    open spec fn view(&self) -> DeviceView {
        DeviceView {
            id: self.id@,
            name: self.name@,
            is_monitor: self.is_monitor,
            is_default: self.is_default,
        }
    }
}

/// Why audio could not be started.
#[derive(Clone, Copy, Debug, PartialEq, Eq, Structural)]
pub enum AudioError {
    /// the requested device is not there
    DeviceNotFound,
    /// the backend's thread ended unexpectedly
    BackendClosed,
    /// the device offers no output that takes single-precision samples
    NoSupportedConfig,
}

/// The message for an audio error.
pub open spec fn audio_error_text(e: AudioError) -> Seq<char> {
    match e {
        AudioError::DeviceNotFound => "requested device not found"@,
        AudioError::BackendClosed => "audio backend thread closed unexpectedly"@,
        AudioError::NoSupportedConfig => "no supported f32 output configuration"@,
    }
}

impl AudioError {
    /// The message for the user.
    pub fn to_string(&self) -> (s: String)
        ensures
            s@ == audio_error_text(*self),
    {
        match self {
            AudioError::DeviceNotFound => "requested device not found".to_owned(),
            AudioError::BackendClosed => "audio backend thread closed unexpectedly".to_owned(),
            AudioError::NoSupportedConfig => "no supported f32 output configuration".to_owned(),
        }
    }
}

/// What the user set up for audio.
#[derive(Debug)]
pub struct AudioSettings {
    pub send: bool,
    pub receive: bool,
    pub bitrate: u32,
    pub buffer_ms: u32,
    pub capture_device: Option<String>,
    pub playback_device: Option<String>,
}

/// What the user set up for audio, as a value.
pub struct AudioSettingsView {
    pub send: bool,
    pub receive: bool,
    pub bitrate: u32,
    pub buffer_ms: u32,
    pub capture_device: Option<Seq<char>>,
    pub playback_device: Option<Seq<char>>,
}

impl View for AudioSettings {
    type V = AudioSettingsView;

    open spec fn view(&self) -> AudioSettingsView {
        AudioSettingsView {
            send: self.send,
            receive: self.receive,
            bitrate: self.bitrate,
            buffer_ms: self.buffer_ms,
            capture_device: crate::text::opt_view(self.capture_device),
            playback_device: crate::text::opt_view(self.playback_device),
        }
    }
}

impl Clone for AudioSettings {
    fn clone(&self) -> (r: AudioSettings)
        ensures
            r@ == self@,
    {
        AudioSettings {
            send: self.send,
            receive: self.receive,
            bitrate: self.bitrate,
            buffer_ms: self.buffer_ms,
            capture_device: crate::text::clone_opt(&self.capture_device),
            playback_device: crate::text::clone_opt(&self.playback_device),
        }
    }
}

/// The devices as the frontend sees them.
pub fn to_ipc_devices(devices: Vec<AudioDevice>) -> (r: Vec<AudioDeviceInfo>)
    ensures
        crate::ipc::device_views(r@) == devices@.map_values(|d: AudioDevice| d@),
{
    let mut r: Vec<AudioDeviceInfo> = Vec::new();
    let mut i: usize = 0;
    while i < devices.len()
        invariant
            i <= devices@.len(),
            r@.len() == i,
            forall|j: int| 0 <= j < i ==> (#[trigger] r@[j])@ == devices@[j]@,
        decreases devices@.len() - i,
    {
        let d = &devices[i];
        r.push(
            AudioDeviceInfo {
                id: d.id.clone(),
                name: d.name.clone(),
                is_monitor: d.is_monitor,
                is_default: d.is_default,
            },
        );
        i = i + 1;
    }
    assert(crate::ipc::device_views(r@) =~= devices@.map_values(|d: AudioDevice| d@));
    r
}

/// The lists of capture and playback devices for the frontend. A list that
/// could not be had is empty.
pub fn enumerate_devices(
    capture: Option<Vec<AudioDevice>>,
    playback: Option<Vec<AudioDevice>>,
) -> (r: (Vec<AudioDeviceInfo>, Vec<AudioDeviceInfo>))
    ensures
        crate::ipc::device_views(r.0@) == listed(capture),
        crate::ipc::device_views(r.1@) == listed(playback),
{
    let capture = match capture {
        Some(devices) => to_ipc_devices(devices),
        None => {
            let none: Vec<AudioDeviceInfo> = Vec::new();
            assert(crate::ipc::device_views(none@) =~= seq![]);
            none
        },
    };
    let playback = match playback {
        Some(devices) => to_ipc_devices(devices),
        None => {
            let none: Vec<AudioDeviceInfo> = Vec::new();
            assert(crate::ipc::device_views(none@) =~= seq![]);
            none
        },
    };
    (capture, playback)
}

/// The devices of a list that could be had, and none of one that could not.
pub open spec fn listed(devices: Option<Vec<AudioDevice>>) -> Seq<DeviceView> {
    match devices {
        Some(devices) => devices@.map_values(|d: AudioDevice| d@),
        None => seq![],
    }
}

/// Whether the codec runs in stereo: for two channels or more.
pub fn is_stereo(channels: u16) -> (b: bool)
    ensures
        b == (channels >= 2),
{
    channels >= 2
}

/// Whether this machine's audio is to be sent at all.
pub fn wants_sender(settings: &AudioSettings) -> (b: bool)
    ensures
        b == settings@.send,
{
    settings.send
}

/// The format in which a peer's stream is played. It is decoded at the wire's
/// rate, whatever rate the peer announces.
pub fn playback_format(channels: u8) -> (f: AudioFormat)
    ensures
        f == (AudioFormat { sample_rate: SAMPLE_RATE, channels: channels as u16 }),
{
    AudioFormat { sample_rate: SAMPLE_RATE, channels: channels as u16 }
}

/// Whether a peer announces a rate that it cannot be played at.
pub fn is_rate_mismatch(sample_rate: u32) -> (b: bool)
    ensures
        b == (sample_rate != SAMPLE_RATE),
{
    sample_rate != SAMPLE_RATE
}

} // verus!
