//! Which sources can be captured, and samples out of captured bytes.

use super::{AudioDevice, DeviceView};
use crate::text::opt_is;
use std::collections::VecDeque;
use crate::text::{chars_of, is_at, stands_at};
use vstd::prelude::*;

verus! {

/// How audio is captured.
#[derive(Clone, Copy, Debug, PartialEq, Eq, Structural)]
pub enum Backend {
    Cpal,
    /// taps the output endpoints, which the first cannot do on Windows
    Wasapi,
    /// silence, without any hardware
    Dummy,
}

/// The backend that can capture the system's own output.
pub fn capture_backend(windows: bool) -> (b: Backend)
    ensures
        b == if windows {
            Backend::Wasapi
        } else {
            Backend::Cpal
        },
{
    if windows {
        Backend::Wasapi
    } else {
        Backend::Cpal
    }
}

/// A letter in lower case, where it is an ASCII letter.
pub open spec fn ascii_lower(c: char) -> char {
    if 'A' <= c && c <= 'Z' {
        ((c as u8) + 32) as u8 as char
    } else {
        c
    }
}

/// A text in lower case, as far as its ASCII letters go.
pub open spec fn lowered(s: Seq<char>) -> Seq<char> {
    s.map_values(|c: char| ascii_lower(c))
}

/// `p` stands in `s` somewhere.
pub open spec fn contains_text(s: Seq<char>, p: Seq<char>) -> bool {
    exists|i: int| stands_at(s, i, p)
}

/// The name looks like that of a loopback or monitor source: the system's
/// output rather than a microphone. The first two patterns are how sound
/// servers name monitors; the last two are output nodes, each of which can be
/// opened as an input that taps it.
pub open spec fn monitor_name(name: Seq<char>) -> bool {
    let s = lowered(name);
    ||| stands_at(s, s.len() - ".monitor"@.len(), ".monitor"@)
    ||| stands_at(s, 0, "monitor of"@)
    ||| contains_text(s, "sink"@)
    ||| contains_text(s, "_output."@)
}

/// The characters of a text in lower case.
fn lower_chars(s: &str) -> (v: Vec<char>)
    ensures
        v@ == lowered(s@),
{
    let mut v: Vec<char> = chars_of(s);
    let mut i: usize = 0;
    while i < v.len()
        invariant
            i <= v@.len(),
            v@.len() == s@.len(),
            forall|j: int| 0 <= j < i ==> (#[trigger] v@[j]) == ascii_lower(s@[j]),
            forall|j: int| i <= j < v@.len() ==> (#[trigger] v@[j]) == s@[j],
        decreases v@.len() - i,
    {
        let c: char = v[i];
        if 'A' <= c && c <= 'Z' {
            v[i] = ((c as u8) + 32) as char;
        }
        i = i + 1;
    }
    assert(v@ =~= lowered(s@));
    v
}

/// Whether `p` stands in `s` somewhere.
fn contains(s: &Vec<char>, p: &Vec<char>) -> (b: bool)
    ensures
        b == contains_text(s@, p@),
{
    let n: usize = s.len();
    let mut i: usize = 0;
    while i < n
        invariant
            i <= n,
            n == s@.len(),
            forall|j: int| 0 <= j < i ==> !stands_at(s@, j, p@),
        decreases n - i,
    {
        if is_at(s, i, p) {
            return true;
        }
        i = i + 1;
    }
    let last: bool = is_at(s, n, p);
    assert(!last ==> forall|j: int| !stands_at(s@, j, p@));
    last
}

/// Whether a device name or id looks like a tap of the system's output.
pub fn is_monitor_name(name: &str) -> (b: bool)
    ensures
        b == monitor_name(name@),
{
    let lower = lower_chars(name);
    let suffix = chars_of(".monitor");
    if suffix.len() <= lower.len() && is_at(&lower, lower.len() - suffix.len(), &suffix) {
        return true;
    }
    is_at(&lower, 0, &chars_of("monitor of")) || contains(&lower, &chars_of("sink")) || contains(
        &lower,
        &chars_of("_output."),
    )
}

/// Whether an input device is a tap of the system's output: by its name, by
/// the backend's own id, which often tells what the name does not, or because
/// the backend calls it virtual.
pub fn is_monitor_device(name: &str, backend_id: Option<&str>, is_virtual: bool) -> (b: bool)
    ensures
        b == (monitor_name(name@) || (backend_id matches Some(id) && monitor_name(id@))
            || is_virtual),
{
    if is_monitor_name(name) {
        return true;
    }
    if let Some(id) = backend_id {
        if is_monitor_name(id) {
            return true;
        }
    }
    is_virtual
}

/// A device that a backend lists.
#[derive(Debug)]
pub struct FoundDevice {
    /// identifier for selecting the device; `None` where it cannot be had
    pub id: Option<String>,
    pub name: String,
    pub is_monitor: bool,
}

/// The devices that can be selected, with the default one marked.
pub open spec fn selectable(
    found: Seq<FoundDevice>,
    default_id: Option<Seq<char>>,
) -> Seq<DeviceView>
    decreases found.len(),
{
    if found.len() == 0 {
        seq![]
    } else {
        let rest = selectable(found.drop_last(), default_id);
        match found.last().id {
            Some(id) => rest.push(
                DeviceView {
                    id: id@,
                    name: found.last().name@,
                    is_monitor: found.last().is_monitor,
                    is_default: default_id == Some(id@),
                },
            ),
            None => rest,
        }
    }
}

/// The devices of a list, as values.
pub open spec fn views(devices: Seq<AudioDevice>) -> Seq<DeviceView> {
    devices.map_values(|d: AudioDevice| d@)
}

/// Lists the devices that can be selected. One without an id cannot.
pub fn list_devices(found: &Vec<FoundDevice>, default_id: &Option<String>) -> (r: Vec<AudioDevice>)
    ensures
        views(r@) == selectable(found@, crate::text::opt_view(*default_id)),
{
    let mut r: Vec<AudioDevice> = Vec::new();
    let mut i: usize = 0;
    assert(views(r@) =~= seq![]);
    while i < found.len()
        invariant
            i <= found@.len(),
            views(r@) == selectable(found@.take(i as int), crate::text::opt_view(*default_id)),
        decreases found@.len() - i,
    {
        let ghost before = views(r@);
        assert(found@.take(i + 1).drop_last() =~= found@.take(i as int));
        if let Some(id) = &found[i].id {
            let d = AudioDevice {
                id: id.clone(),
                name: found[i].name.clone(),
                is_monitor: found[i].is_monitor,
                is_default: opt_is(default_id, id.as_str()),
            };
            let ghost dv = d@;
            r.push(d);
            assert(views(r@) =~= before.push(dv));
        }
        i = i + 1;
    }
    assert(found@.take(i as int) =~= found@);
    r
}

/// Bytes per captured sample: single precision.
pub const BYTES_PER_SAMPLE: usize = 4;

/// The bit pattern of the sample whose little-endian bytes start at `i`.
pub open spec fn sample_at(s: Seq<u8>, i: int) -> u32 {
    (s[i] + s[i + 1] * 0x100 + s[i + 2] * 0x1_0000 + s[i + 3] * 0x100_0000) as u32
}

/// Takes all whole samples out of a queue of captured bytes. A sample whose
/// bytes have not all arrived stays for the next time.
pub fn take_samples(queue: &mut VecDeque<u8>) -> (samples: Vec<u32>)
    ensures
        samples@.len() == old(queue)@.len() / 4,
        forall|j: int|
            0 <= j < samples@.len() ==> (#[trigger] samples@[j]) == sample_at(old(queue)@, 4 * j),
        final(queue)@ == old(queue)@.skip(4 * samples@.len() as int),
{
    let count: usize = queue.len() / BYTES_PER_SAMPLE;
    let mut samples: Vec<u32> = Vec::new();
    let mut i: usize = 0;
    assert(queue@ =~= old(queue)@.skip(0));
    while i < count
        invariant
            i <= count,
            count == old(queue)@.len() / 4,
            samples@.len() == i,
            queue@ == old(queue)@.skip(4 * i),
            forall|j: int|
                0 <= j < i ==> (#[trigger] samples@[j]) == sample_at(old(queue)@, 4 * j),
        decreases count - i,
    {
        let ghost at = queue@;
        let (a, b, c, d) = match (
            queue.pop_front(),
            queue.pop_front(),
            queue.pop_front(),
            queue.pop_front(),
        ) {
            (Some(a), Some(b), Some(c), Some(d)) => (a, b, c, d),
            _ => {
                assert(false);
                return samples;
            },
        };
        assert(queue@ =~= old(queue)@.skip(4 * (i + 1)));
        samples.push(
            (a as u32) + (b as u32) * 0x100 + (c as u32) * 0x1_0000 + (d as u32) * 0x100_0000,
        );
        i = i + 1;
    }
    samples
}

} // verus!
