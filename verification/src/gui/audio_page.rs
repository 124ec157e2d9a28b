//! The controls of the audio page.

use crate::ipc::AudioDeviceInfo;
use crate::text::concat2;
use vstd::prelude::*;

verus! {

/// The bit rates on offer, in bits per second.
pub const AUDIO_BITRATES: [u32; 5] = [64_000, 96_000, 128_000, 192_000, 256_000];

/// The place of a bit rate among those on offer. Any other shows as the
/// second, which is the default.
pub fn audio_bitrate_index(bitrate: u32) -> (i: u32)
    ensures
        i < 5,
        AUDIO_BITRATES@.contains(bitrate) ==> AUDIO_BITRATES@[i as int] == bitrate,
        !AUDIO_BITRATES@.contains(bitrate) ==> i == 1,
{
    let mut i: usize = 0;
    while i < 5
        invariant
            i <= 5,
            forall|j: int| 0 <= j < i ==> AUDIO_BITRATES@[j] != bitrate,
        decreases 5 - i,
    {
        if AUDIO_BITRATES[i] == bitrate {
            assert(AUDIO_BITRATES@[i as int] == bitrate);
            return i as u32;
        }
        i = i + 1;
    }
    1
}

/// The bit rate at a place among those on offer.
pub fn selected_bitrate(index: u32) -> (r: Option<u32>)
    ensures
        r == if index < 5 {
            Some(AUDIO_BITRATES@[index as int])
        } else {
            None
        },
{
    if index < 5 {
        Some(AUDIO_BITRATES[index as usize])
    } else {
        None
    }
}

/// Selecting a bit rate and looking for its place gives the place back.
pub proof fn lemma_bitrates_differ(i: int, j: int)
    requires
        0 <= i < 5,
        0 <= j < 5,
    ensures
        AUDIO_BITRATES@[i] == AUDIO_BITRATES@[j] ==> i == j,
{
}

/// The label of a device in the picker. A tap of the system's own output is
/// told apart from a microphone.
pub open spec fn device_label(d: crate::ipc::DeviceView) -> Seq<char> {
    if d.is_monitor {
        d.name + " (system audio)"@
    } else {
        d.name
    }
}

/// The label of a device in the picker.
pub fn audio_device_label(device: &AudioDeviceInfo) -> (s: String)
    ensures
        s@ == device_label(device@),
{
    if device.is_monitor {
        concat2(device.name.as_str(), " (system audio)")
    } else {
        device.name.clone()
    }
}

/// The labels of a picker: the system's default comes before all devices.
pub open spec fn picker_labels(devices: Seq<AudioDeviceInfo>) -> Seq<Seq<char>> {
    seq!["System Default"@] + devices.map_values(|d: AudioDeviceInfo| device_label(d@))
}

/// The labels of a picker.
pub fn audio_device_model(devices: &Vec<AudioDeviceInfo>) -> (labels: Vec<String>)
    ensures
        crate::text::views(labels@) == picker_labels(devices@),
{
    let mut labels: Vec<String> = Vec::new();
    labels.push("System Default".to_owned());
    let mut i: usize = 0;
    assert(crate::text::views(labels@) =~= picker_labels(devices@).take(1));
    while i < devices.len()
        invariant
            i <= devices@.len(),
            crate::text::views(labels@) =~= picker_labels(devices@).take(i + 1),
        decreases devices@.len() - i,
    {
        let ghost before = crate::text::views(labels@);
        let label = audio_device_label(&devices[i]);
        let ghost lv = label@;
        labels.push(label);
        assert(crate::text::views(labels@) =~= before.push(lv));
        i = i + 1;
    }
    assert(crate::text::views(labels@) =~= picker_labels(devices@));
    labels
}

/// The device selected in a picker. The first place is the system's default,
/// which is no device.
pub fn selected_audio_device(devices: &Vec<AudioDeviceInfo>, selected: u32) -> (r: Option<String>)
    ensures
        match r {
            Some(id) => 1 <= selected <= devices@.len() && id@ == devices@[selected - 1].id@,
            None => selected == 0 || selected > devices@.len(),
        },
{
    if selected == 0 || (selected - 1) as usize >= devices.len() {
        None
    } else {
        Some(devices[(selected - 1) as usize].id.clone())
    }
}

} // verus!
